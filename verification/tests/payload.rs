use c99l_comboard::payload::{encode_fin_angle_i8, Payload, PAYLOAD_LEN};

#[test]
fn payload_is_serialized_in_the_wire_format() {
    let payload = Payload {
        add_h: 0x00,
        add_l: 0x00,
        chnnl: 0x03,
        header1: 0xaa,
        status: 0x55,
        gnss_lat: 0x0102_0304,
        gnss_long: -2,
        gnss_height: 0x1122,
        angle_speed: [1, 2, 3],
        acceleration: [-1, -2, -3],
        integrated_angle: [0x1122, 0x3344, 0x5566],
        air_pressure: [0x10, 0x20, 0x30],
        air_speed: 0x77,
        fin_angle: -1,
        check_sum: 0xa5,
    };

    assert_eq!(
        payload.to_bytes(),
        [
            0x00, 0x00, 0x03, 0xaa, 0x55, 0x04, 0x03, 0x02, 0x01, 0xfe, 0xff, 0xff, 0xff, 0x22,
            0x11, 0x01, 0x00, 0x02, 0x00, 0x03, 0x00, 0xff, 0xff, 0xfe, 0xff, 0xfd, 0xff, 0x22,
            0x11, 0x44, 0x33, 0x66, 0x55, 0x10, 0x20, 0x30, 0x77, 0xff, 0xa5,
        ]
    );
}

#[test]
fn checksum_covers_header_through_fin_angle() {
    let mut payload = Payload::new();
    payload.status = 0x55;
    payload.integrated_angle = [1, 2, 3];
    payload.air_speed = 0x77;
    payload.fin_angle = -1;

    let bytes = payload.to_bytes();
    let expected = bytes[3..PAYLOAD_LEN - 1]
        .iter()
        .copied()
        .fold(0, core::ops::BitXor::bitxor);

    assert_eq!(payload.calculate_checksum(), expected);
}

#[test]
fn fin_angles_are_clamped() {
    assert_eq!(encode_fin_angle_i8(-5), -5);
    assert_eq!(encode_fin_angle_i8(127), 127);
    assert_eq!(encode_fin_angle_i8(128), 127);
    assert_eq!(encode_fin_angle_i8(-128), -128);
    assert_eq!(encode_fin_angle_i8(i16::MIN), -128);
}

#[test]
fn new_record_is_addressed_to_the_ground_station() {
    let bytes = Payload::new().to_bytes();
    assert_eq!(bytes.len(), PAYLOAD_LEN);
    assert_eq!(&bytes[..5], &[0x00, 0x00, 0x04, 0xaa, 0x00]);
    assert!(bytes[5..].iter().all(|&byte| byte == 0));
}
