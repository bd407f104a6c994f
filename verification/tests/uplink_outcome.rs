use c99l_comboard::lora_uplink::{UplinkFrameBuffer, UplinkOutcome, HEADER};

#[test]
fn only_known_commands_are_passed_on() {
    let mut buffer = UplinkFrameBuffer::new();
    assert_eq!(buffer.receive(HEADER), UplinkOutcome::Pending);
    assert_eq!(buffer.receive(b's'), UplinkOutcome::Pending);
    assert_eq!(
        buffer.receive(HEADER ^ b's'),
        UplinkOutcome::Command(b's')
    );
    buffer.receive(HEADER);
    buffer.receive(b'x');
    assert_eq!(
        buffer.receive(HEADER ^ b'x'),
        UplinkOutcome::UnknownCommand
    );
    buffer.receive(HEADER);
    buffer.receive(b's');
    assert_eq!(buffer.receive(0), UplinkOutcome::Pending);
}

#[test]
fn sound_frame_is_accepted_after_a_half_received_one() {
    let mut buffer = UplinkFrameBuffer::new();
    buffer.receive(HEADER);
    buffer.receive(b'q');
    assert_eq!(buffer.receive(HEADER), UplinkOutcome::Pending);
    buffer.receive(b's');
    assert_eq!(
        buffer.receive(HEADER ^ b's'),
        UplinkOutcome::Command(b's')
    );
}
