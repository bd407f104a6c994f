//! The fixed-size telemetry record that goes out over LoRa.

use vstd::prelude::*;

verus! {

/// Length of the record on the wire.
pub const PAYLOAD_LEN: usize = 39;

/// The telemetry record. The first three fields address the receiving radio, `status` is the
/// controller status byte as last received.
#[derive(Debug, Copy, Clone)]
pub struct Payload {
    pub add_h: u8,
    pub add_l: u8,
    pub chnnl: u8,
    pub header1: u8,
    pub status: u8,
    pub gnss_lat: i32,
    pub gnss_long: i32,
    pub gnss_height: i16,
    pub angle_speed: [i16; 3],
    pub acceleration: [i16; 3],
    pub integrated_angle: [i16; 3],
    pub air_pressure: [u8; 3],
    pub air_speed: u8,
    pub fin_angle: i8,
    pub check_sum: u8,
}

/// The two's complement bytes of a 16-bit value, least significant byte first.
#[verifier::opaque]
pub open spec fn le_i16(value: i16) -> Seq<u8> {
    let unsigned = value as int % 0x1_0000;
    seq![(unsigned % 256) as u8, (unsigned / 256) as u8]
}

/// The two's complement bytes of a 32-bit value, least significant byte first.
#[verifier::opaque]
pub open spec fn le_i32(value: i32) -> Seq<u8> {
    let unsigned = value as int % 0x1_0000_0000;
    seq![
        (unsigned % 256) as u8,
        (unsigned / 256 % 256) as u8,
        (unsigned / 0x1_0000 % 256) as u8,
        (unsigned / 0x100_0000) as u8,
    ]
}

/// Three axes, each least significant byte first.
#[verifier::opaque]
pub open spec fn le_i16x3(xyz: Seq<i16>) -> Seq<u8> {
    le_i16(xyz[0]) + le_i16(xyz[1]) + le_i16(xyz[2])
}

/// Exclusive or of all bytes.
pub open spec fn xor_all(bytes: Seq<u8>) -> u8
    decreases bytes.len(),
{
    if bytes.len() == 0 {
        0
    } else {
        xor_all(bytes.drop_last()) ^ bytes.last()
    }
}

impl Payload {
    /// The record on the wire.
    #[verifier::opaque]
    pub open spec fn wire(self) -> Seq<u8> {
        seq![self.add_h, self.add_l, self.chnnl, self.header1, self.status] + le_i32(self.gnss_lat)
            + le_i32(self.gnss_long) + le_i16(self.gnss_height) + le_i16x3(self.angle_speed@)
            + le_i16x3(self.acceleration@) + le_i16x3(self.integrated_angle@) + self.air_pressure@
            + seq![self.air_speed, (self.fin_angle as int % 256) as u8, self.check_sum]
    }

    /// Exclusive or of the wire bytes from the header through the fin angle.
    pub open spec fn spec_checksum(self) -> u8 {
        xor_all(self.wire().subrange(3, PAYLOAD_LEN - 1))
    }

    /// The record with a matching checksum.
    pub open spec fn sealed(self) -> Payload {
        Payload { check_sum: self.spec_checksum(), ..self }
    }

    /// No telemetry yet, addressed to the ground station: address zero, channel four.
    pub open spec fn is_initial(self) -> bool {
        &&& self.add_h == 0 && self.add_l == 0 && self.chnnl == 4
        &&& self.header1 == 0xaa
        &&& self.status == 0
        &&& self.gnss_lat == 0 && self.gnss_long == 0 && self.gnss_height == 0
        &&& self.angle_speed@ == seq![0i16, 0i16, 0i16]
        &&& self.acceleration@ == seq![0i16, 0i16, 0i16]
        &&& self.integrated_angle@ == seq![0i16, 0i16, 0i16]
        &&& self.air_pressure@ == seq![0u8, 0u8, 0u8]
        &&& self.air_speed == 0 && self.fin_angle == 0 && self.check_sum == 0
    }

    /// The record before any telemetry has arrived.
    pub fn new() -> (payload: Self)
        ensures
            payload.is_initial(),
    {
        let axes: [i16; 3] = [0, 0, 0];
        let bytes: [u8; 3] = [0, 0, 0];
        assert(axes@ =~= seq![0i16, 0i16, 0i16]);
        assert(bytes@ =~= seq![0u8, 0u8, 0u8]);
        Payload {
            add_h: 0x00,
            add_l: 0x00,
            chnnl: 0x04,
            header1: 0xaa,
            status: 0,
            gnss_lat: 0,
            gnss_long: 0,
            gnss_height: 0,
            angle_speed: axes,
            acceleration: axes,
            integrated_angle: axes,
            air_pressure: bytes,
            air_speed: 0,
            fin_angle: 0,
            check_sum: 0,
        }
    }

    pub fn calculate_checksum(&self) -> (sum: u8)
        ensures
            sum == self.spec_checksum(),
    {
        let bytes: [u8; PAYLOAD_LEN] = self.to_bytes();
        let mut sum: u8 = 0;
        let mut index: usize = 3;
        assert(bytes@.subrange(3, 3) =~= Seq::<u8>::empty());
        while index < PAYLOAD_LEN - 1
            invariant
                3 <= index <= PAYLOAD_LEN - 1,
                bytes@.len() == PAYLOAD_LEN,
                sum == xor_all(bytes@.subrange(3, index as int)),
            decreases PAYLOAD_LEN - index,
        {
            assert(bytes@.subrange(3, index + 1).drop_last() =~= bytes@.subrange(3, index as int));
            sum = sum ^ bytes[index];
            index = index + 1;
        }
        sum
    }

    pub fn to_bytes(&self) -> (bytes: [u8; PAYLOAD_LEN])
        ensures
            bytes@ == self.wire(),
    {
        let lat: [u8; 4] = i32_to_le(self.gnss_lat);
        let long: [u8; 4] = i32_to_le(self.gnss_long);
        let height: [u8; 2] = i16_to_le(self.gnss_height);
        let gyro_x: [u8; 2] = i16_to_le(self.angle_speed[0]);
        let gyro_y: [u8; 2] = i16_to_le(self.angle_speed[1]);
        let gyro_z: [u8; 2] = i16_to_le(self.angle_speed[2]);
        let acc_x: [u8; 2] = i16_to_le(self.acceleration[0]);
        let acc_y: [u8; 2] = i16_to_le(self.acceleration[1]);
        let acc_z: [u8; 2] = i16_to_le(self.acceleration[2]);
        let angle_x: [u8; 2] = i16_to_le(self.integrated_angle[0]);
        let angle_y: [u8; 2] = i16_to_le(self.integrated_angle[1]);
        let angle_z: [u8; 2] = i16_to_le(self.integrated_angle[2]);
        let fin: u8 = i8_to_byte(self.fin_angle);
        let bytes: [u8; PAYLOAD_LEN] = [
            self.add_h,
            self.add_l,
            self.chnnl,
            self.header1,
            self.status,
            lat[0],
            lat[1],
            lat[2],
            lat[3],
            long[0],
            long[1],
            long[2],
            long[3],
            height[0],
            height[1],
            gyro_x[0],
            gyro_x[1],
            gyro_y[0],
            gyro_y[1],
            gyro_z[0],
            gyro_z[1],
            acc_x[0],
            acc_x[1],
            acc_y[0],
            acc_y[1],
            acc_z[0],
            acc_z[1],
            angle_x[0],
            angle_x[1],
            angle_y[0],
            angle_y[1],
            angle_z[0],
            angle_z[1],
            self.air_pressure[0],
            self.air_pressure[1],
            self.air_pressure[2],
            self.air_speed,
            fin,
            self.check_sum,
        ];
        assert(bytes@ =~= self.wire()) by {
            reveal(Payload::wire);
            reveal(le_i16x3);
            reveal(le_i16);
            reveal(le_i32);
        }
        bytes
    }
}

impl Default for Payload {
    fn default() -> (payload: Self)
        ensures
            payload.is_initial(),
    {
        Payload::new()
    }
}

fn i16_to_le(value: i16) -> (bytes: [u8; 2])
    ensures
        bytes@ == le_i16(value),
{
    let unsigned: i32 = if value < 0 {
        value as i32 + 0x1_0000
    } else {
        value as i32
    };
    let bytes: [u8; 2] = [(unsigned % 256) as u8, (unsigned / 256) as u8];
    assert(bytes@ =~= le_i16(value)) by {
        reveal(le_i16);
    }
    bytes
}

fn i32_to_le(value: i32) -> (bytes: [u8; 4])
    ensures
        bytes@ == le_i32(value),
{
    let unsigned: i64 = if value < 0 {
        value as i64 + 0x1_0000_0000
    } else {
        value as i64
    };
    let bytes: [u8; 4] = [
        (unsigned % 256) as u8,
        (unsigned / 256 % 256) as u8,
        (unsigned / 0x1_0000 % 256) as u8,
        (unsigned / 0x100_0000) as u8,
    ];
    assert(bytes@ =~= le_i32(value)) by {
        reveal(le_i32);
    }
    bytes
}

fn i8_to_byte(value: i8) -> (byte: u8)
    ensures
        byte == (value as int % 256) as u8,
{
    let unsigned: i32 = if value < 0 {
        value as i32 + 256
    } else {
        value as i32
    };
    unsigned as u8
}

/// The value limited to what fits in the record's fin angle.
pub open spec fn clamp_to_i8(angle: i16) -> i8 {
    (if angle > 127 {
        127
    } else if angle < -128 {
        -128
    } else {
        angle as int
    }) as i8
}

pub fn encode_fin_angle_i8(angle: i16) -> (encoded: i8)
    ensures
        encoded == clamp_to_i8(angle),
{
    if angle > i8::MAX as i16 {
        i8::MAX
    } else if angle < i8::MIN as i16 {
        i8::MIN
    } else {
        angle as i8
    }
}

proof fn lemma_le_lengths()
    ensures
        forall|value: i16| (#[trigger] le_i16(value)).len() == 2,
        forall|value: i32| (#[trigger] le_i32(value)).len() == 4,
{
    reveal(le_i16);
    reveal(le_i32);
}

/// Law: the record always has the fixed length, with the header, the controller status and the
/// checksum at fixed places.
pub proof fn law_wire_layout(payload: Payload)
    ensures
        payload.wire().len() == PAYLOAD_LEN,
        payload.wire()[0] == payload.add_h,
        payload.wire()[1] == payload.add_l,
        payload.wire()[2] == payload.chnnl,
        payload.wire()[3] == payload.header1,
        payload.wire()[4] == payload.status,
        payload.wire().subrange(5, 9) == le_i32(payload.gnss_lat),
        payload.wire().subrange(9, 13) == le_i32(payload.gnss_long),
        payload.wire().subrange(13, 15) == le_i16(payload.gnss_height),
        payload.wire().subrange(15, 21) == le_i16x3(payload.angle_speed@),
        payload.wire().subrange(21, 27) == le_i16x3(payload.acceleration@),
        payload.wire().subrange(27, 33) == le_i16x3(payload.integrated_angle@),
        payload.wire().subrange(33, 36) == payload.air_pressure@,
        payload.wire()[36] == payload.air_speed,
        payload.wire()[37] == (payload.fin_angle as int % 256) as u8,
        payload.wire()[38] == payload.check_sum,
{
    reveal(Payload::wire);
    reveal(le_i16x3);
    lemma_le_lengths();
    let wire = payload.wire();
    assert(wire.subrange(5, 9) =~= le_i32(payload.gnss_lat));
    assert(wire.subrange(9, 13) =~= le_i32(payload.gnss_long));
    assert(wire.subrange(13, 15) =~= le_i16(payload.gnss_height));
    assert(wire.subrange(15, 21) =~= le_i16x3(payload.angle_speed@));
    assert(wire.subrange(21, 27) =~= le_i16x3(payload.acceleration@));
    assert(wire.subrange(27, 33) =~= le_i16x3(payload.integrated_angle@));
    assert(wire.subrange(33, 36) =~= payload.air_pressure@);
}

/// Law: the checksum depends neither on the radio address nor on the checksum field.
pub proof fn law_checksum_ignores_address_and_itself(a: Payload, b: Payload)
    requires
        b == (Payload {
            add_h: b.add_h,
            add_l: b.add_l,
            chnnl: b.chnnl,
            check_sum: b.check_sum,
            ..a
        }),
    ensures
        a.spec_checksum() == b.spec_checksum(),
{
    reveal(Payload::wire);
    reveal(le_i16x3);
    lemma_le_lengths();
    assert(a.wire().subrange(3, 38) =~= b.wire().subrange(3, 38));
}

/// Law: the bytes of a sealed record from the header on cancel out, so a receiver can check it.
pub proof fn law_sealed_record_checks_out(payload: Payload)
    ensures
        xor_all(payload.sealed().wire().subrange(3, PAYLOAD_LEN as int)) == 0,
        payload.sealed().sealed() == payload.sealed(),
{
    let sealed = payload.sealed();
    law_wire_layout(sealed);
    law_checksum_ignores_address_and_itself(payload, sealed);
    let covered = sealed.wire().subrange(3, 39);
    assert(covered.drop_last() =~= sealed.wire().subrange(3, 38));
    assert(covered.last() == sealed.check_sum);
    let sum = sealed.spec_checksum();
    assert(sum ^ sum == 0) by (bit_vector);
}

/// Law: two records with the same bytes hold the same values.
pub proof fn law_wire_determines_the_record(a: Payload, b: Payload)
    requires
        a.wire() == b.wire(),
    ensures
        a.add_h == b.add_h && a.add_l == b.add_l && a.chnnl == b.chnnl,
        a.header1 == b.header1 && a.status == b.status,
        a.gnss_lat == b.gnss_lat && a.gnss_long == b.gnss_long,
        a.gnss_height == b.gnss_height,
        a.angle_speed@ == b.angle_speed@,
        a.acceleration@ == b.acceleration@,
        a.integrated_angle@ == b.integrated_angle@,
        a.air_pressure@ == b.air_pressure@,
        a.air_speed == b.air_speed && a.fin_angle == b.fin_angle && a.check_sum == b.check_sum,
{
    law_wire_layout(a);
    law_wire_layout(b);
    lemma_le_i32_is_injective(a.gnss_lat, b.gnss_lat);
    lemma_le_i32_is_injective(a.gnss_long, b.gnss_long);
    lemma_le_i16_is_injective(a.gnss_height, b.gnss_height);
    lemma_le_i16x3_is_injective(a.angle_speed@, b.angle_speed@);
    lemma_le_i16x3_is_injective(a.acceleration@, b.acceleration@);
    lemma_le_i16x3_is_injective(a.integrated_angle@, b.integrated_angle@);
}

proof fn lemma_le_i16_is_injective(a: i16, b: i16)
    requires
        le_i16(a) == le_i16(b),
    ensures
        a == b,
{
    reveal(le_i16);
    assert(le_i16(a)[0] == le_i16(b)[0] && le_i16(a)[1] == le_i16(b)[1]);
}

proof fn lemma_le_i32_is_injective(a: i32, b: i32)
    requires
        le_i32(a) == le_i32(b),
    ensures
        a == b,
{
    reveal(le_i32);
    assert(le_i32(a)[0] == le_i32(b)[0] && le_i32(a)[1] == le_i32(b)[1]);
    assert(le_i32(a)[2] == le_i32(b)[2] && le_i32(a)[3] == le_i32(b)[3]);
    lemma_base_256_digits(a as int % 0x1_0000_0000);
    lemma_base_256_digits(b as int % 0x1_0000_0000);
}

proof fn lemma_base_256_digits(value: int)
    requires
        0 <= value < 0x1_0000_0000,
    ensures
        value == value % 256 + 256 * (value / 256 % 256) + 0x1_0000 * (value / 0x1_0000 % 256)
            + 0x100_0000 * (value / 0x100_0000),
{
    let high = value / 256;
    let higher = high / 256;
    let highest = higher / 256;
    assert(value == 256 * high + value % 256);
    assert(high == 256 * higher + high % 256);
    assert(higher == 256 * highest + higher % 256);
    assert(value / 0x1_0000 == higher);
    assert(value / 0x100_0000 == highest);
}

proof fn lemma_le_i16x3_is_injective(a: Seq<i16>, b: Seq<i16>)
    requires
        a.len() == 3,
        b.len() == 3,
        le_i16x3(a) == le_i16x3(b),
    ensures
        a == b,
{
    reveal(le_i16x3);
    lemma_le_lengths();
    assert forall|axis: int| 0 <= axis < 3 implies a[axis] == b[axis] by {
        assert(le_i16x3(a).subrange(2 * axis, 2 * axis + 2) =~= le_i16(a[axis]));
        assert(le_i16x3(b).subrange(2 * axis, 2 * axis + 2) =~= le_i16(b[axis]));
        lemma_le_i16_is_injective(a[axis], b[axis]);
    }
    assert(a =~= b);
}

/// Law: the encoded fin angle is exact where it fits and never reverses an order.
pub proof fn law_fin_angle_is_clamped(a: i16, b: i16)
    ensures
        -128 <= a <= 127 ==> clamp_to_i8(a) == a,
        a <= b ==> clamp_to_i8(a) <= clamp_to_i8(b),
{
}

/// Law: two bytes of a 16-bit value and four of a 32-bit value spell it in two's complement, the
/// lowest byte first.
pub proof fn law_values_are_little_endian(short: i16, long: i32)
    ensures
        le_i16(short).len() == 2,
        le_i16(short)[0] + 256 * le_i16(short)[1] == (if short < 0 {
            short + 0x1_0000
        } else {
            short as int
        }),
        le_i32(long).len() == 4,
        le_i32(long)[0] + 256 * le_i32(long)[1] + 0x1_0000 * le_i32(long)[2] + 0x100_0000 * le_i32(
            long,
        )[3] == (if long < 0 {
            long + 0x1_0000_0000
        } else {
            long as int
        }),
{
    reveal(le_i16);
    reveal(le_i32);
    lemma_base_256_digits(long as int % 0x1_0000_0000);
}

/// Law: the axes stand one after the other, X first, two bytes each.
pub proof fn law_axes_stand_in_order(xyz: Seq<i16>)
    ensures
        le_i16x3(xyz).len() == 6,
        le_i16x3(xyz).subrange(0, 2) == le_i16(xyz[0]),
        le_i16x3(xyz).subrange(2, 4) == le_i16(xyz[1]),
        le_i16x3(xyz).subrange(4, 6) == le_i16(xyz[2]),
{
    reveal(le_i16x3);
    lemma_le_lengths();
    assert(le_i16x3(xyz).subrange(0, 2) =~= le_i16(xyz[0]));
    assert(le_i16x3(xyz).subrange(2, 4) =~= le_i16(xyz[1]));
    assert(le_i16x3(xyz).subrange(4, 6) =~= le_i16(xyz[2]));
}

/// Law: the fin angle is sent as one byte in two's complement.
pub proof fn law_fin_angle_byte(payload: Payload)
    ensures
        payload.wire()[37] == payload.fin_angle || payload.wire()[37] == payload.fin_angle + 256,
{
    law_wire_layout(payload);
}

/// Law: the sum of nothing is zero, and changing one byte changes the sum by exactly the bits in
/// which the old and the new byte differ.
pub proof fn law_sum_follows_every_byte(bytes: Seq<u8>, at: int, byte: u8)
    requires
        0 <= at < bytes.len(),
    ensures
        xor_all(Seq::empty()) == 0,
        xor_all(bytes.update(at, byte)) == xor_all(bytes) ^ bytes[at] ^ byte,
    decreases bytes.len(),
{
    let rest = xor_all(bytes.drop_last());
    let last = bytes.last();
    let changed = bytes.update(at, byte);
    if at == bytes.len() - 1 {
        assert(changed.drop_last() =~= bytes.drop_last());
        assert(rest ^ byte == (rest ^ last) ^ last ^ byte) by (bit_vector);
    } else {
        law_sum_follows_every_byte(bytes.drop_last(), at, byte);
        assert(changed.drop_last() =~= bytes.drop_last().update(at, byte));
        assert(changed.last() == last);
        let old_byte = bytes[at];
        assert(((rest ^ old_byte) ^ byte) ^ last == ((rest ^ last) ^ old_byte) ^ byte)
            by (bit_vector);
    }
}

/// Law: the sum of zeros is zero, whatever their number.
pub proof fn law_sum_of_zeros(count: nat)
    ensures
        xor_all(Seq::new(count, |i: int| 0u8)) == 0,
    decreases count,
{
    if count > 0 {
        law_sum_of_zeros((count - 1) as nat);
        assert(Seq::new(count, |i: int| 0u8).drop_last() =~= Seq::new(
            (count - 1) as nat,
            |i: int| 0u8,
        ));
        assert(0u8 ^ 0u8 == 0u8) by (bit_vector);
    }
}

/// Law: putting the checksum in changes nothing else in the record, and the checksum is what makes
/// the bytes from the header on sum up to zero.
pub proof fn law_sealing_changes_the_checksum_only(payload: Payload)
    ensures
        payload.sealed() == (Payload { check_sum: payload.sealed().check_sum, ..payload }),
        payload.sealed().check_sum == xor_all(payload.wire().subrange(3, 38)),
        payload.sealed().wire() == payload.wire().update(38, payload.sealed().check_sum),
{
    let sealed = payload.sealed();
    reveal(Payload::wire);
    reveal(le_i16x3);
    lemma_le_lengths();
    assert(sealed.wire() =~= payload.wire().update(38, sealed.check_sum));
}

/// Law: a byte of the record depends on the values only, and of these on its own.
pub proof fn law_same_values_give_same_bytes(a: Payload, b: Payload, at: int)
    requires
        0 <= at < 38,
        a.add_h == b.add_h && a.add_l == b.add_l && a.chnnl == b.chnnl && a.header1 == b.header1,
        at == 4 ==> a.status == b.status,
        a.gnss_lat == b.gnss_lat && a.gnss_long == b.gnss_long && a.gnss_height == b.gnss_height,
        a.angle_speed@ == b.angle_speed@,
        a.acceleration@ == b.acceleration@,
        a.integrated_angle@ == b.integrated_angle@,
        a.air_pressure@ == b.air_pressure@,
        a.air_speed == b.air_speed && a.fin_angle == b.fin_angle,
    ensures
        a.wire()[at] == b.wire()[at],
{
    reveal(Payload::wire);
    reveal(le_i16x3);
    lemma_le_lengths();
}

/// Law: a new record has the address, the channel and the header of the board, and is zero in
/// every other byte.
pub proof fn law_new_records_are_blank(payload: Payload, at: int)
    requires
        payload.is_initial(),
        0 <= at < 39,
    ensures
        payload.wire()[at] == (if at == 2 {
            4u8
        } else if at == 3 {
            0xaa
        } else {
            0
        }),
{
    reveal(Payload::wire);
    reveal(le_i16x3);
    reveal(le_i16);
    reveal(le_i32);
    lemma_le_lengths();
    assert(forall|i: int| 0 <= i < 2 ==> #[trigger] le_i16(0)[i] == 0);
    assert(forall|i: int| 0 <= i < 4 ==> #[trigger] le_i32(0)[i] == 0);
}

/// Law: the bytes of the record read back as its values: two's complement, the lowest byte first.
pub proof fn law_fields_read_back(payload: Payload)
    ensures
        ({
            let wire = payload.wire();
            &&& wire[0] == payload.add_h && wire[1] == payload.add_l && wire[2] == payload.chnnl
            &&& wire[3] == payload.header1 && wire[4] == payload.status
            &&& wire[5] + 0x100 * wire[6] + 0x1_0000 * wire[7] + 0x100_0000 * wire[8] == (
            if payload.gnss_lat < 0 {
                payload.gnss_lat + 0x1_0000_0000
            } else {
                payload.gnss_lat as int
            })
            &&& wire[9] + 0x100 * wire[10] + 0x1_0000 * wire[11] + 0x100_0000 * wire[12] == (
            if payload.gnss_long < 0 {
                payload.gnss_long + 0x1_0000_0000
            } else {
                payload.gnss_long as int
            })
            &&& spells_short(wire, 13, payload.gnss_height)
            &&& spells_short(wire, 15, payload.angle_speed@[0])
            &&& spells_short(wire, 17, payload.angle_speed@[1])
            &&& spells_short(wire, 19, payload.angle_speed@[2])
            &&& spells_short(wire, 21, payload.acceleration@[0])
            &&& spells_short(wire, 23, payload.acceleration@[1])
            &&& spells_short(wire, 25, payload.acceleration@[2])
            &&& spells_short(wire, 27, payload.integrated_angle@[0])
            &&& spells_short(wire, 29, payload.integrated_angle@[1])
            &&& spells_short(wire, 31, payload.integrated_angle@[2])
            &&& wire[33] == payload.air_pressure@[0] && wire[34] == payload.air_pressure@[1]
                && wire[35] == payload.air_pressure@[2]
            &&& wire[36] == payload.air_speed
            &&& wire[37] == (if payload.fin_angle < 0 {
                payload.fin_angle + 0x100
            } else {
                payload.fin_angle as int
            })
            &&& wire[38] == payload.check_sum
        }),
{
    let wire = payload.wire();
    law_wire_layout(payload);
    lemma_long_at(wire, 5, payload.gnss_lat);
    lemma_long_at(wire, 9, payload.gnss_long);
    lemma_short_at(wire, 13, payload.gnss_height);
    lemma_axes_at(wire, 15, payload.angle_speed@);
    lemma_axes_at(wire, 21, payload.acceleration@);
    lemma_axes_at(wire, 27, payload.integrated_angle@);
    let pressure = wire.subrange(33, 36);
    assert(wire[33] == pressure[0] && wire[34] == pressure[1] && wire[35] == pressure[2]);
}

/// Two bytes spell the value in two's complement, the lower byte first.
pub open spec fn spells_short(wire: Seq<u8>, at: int, value: i16) -> bool {
    wire[at] + 0x100 * wire[at + 1] == (if value < 0 {
        value + 0x1_0000
    } else {
        value as int
    })
}

proof fn lemma_short_at(wire: Seq<u8>, at: int, value: i16)
    requires
        0 <= at <= wire.len() - 2,
        wire.subrange(at, at + 2) == le_i16(value),
    ensures
        spells_short(wire, at, value),
{
    law_values_are_little_endian(value, 0);
    let bytes = wire.subrange(at, at + 2);
    assert(wire[at] == bytes[0] && wire[at + 1] == bytes[1]);
}

proof fn lemma_long_at(wire: Seq<u8>, at: int, value: i32)
    requires
        0 <= at <= wire.len() - 4,
        wire.subrange(at, at + 4) == le_i32(value),
    ensures
        wire[at] + 0x100 * wire[at + 1] + 0x1_0000 * wire[at + 2] + 0x100_0000 * wire[at + 3] == (
        if value < 0 {
            value + 0x1_0000_0000
        } else {
            value as int
        }),
{
    law_values_are_little_endian(0, value);
    let bytes = wire.subrange(at, at + 4);
    assert(wire[at] == bytes[0] && wire[at + 1] == bytes[1] && wire[at + 2] == bytes[2] && wire[at
        + 3] == bytes[3]);
}

proof fn lemma_axes_at(wire: Seq<u8>, at: int, xyz: Seq<i16>)
    requires
        0 <= at <= wire.len() - 6,
        wire.subrange(at, at + 6) == le_i16x3(xyz),
    ensures
        spells_short(wire, at, xyz[0]),
        spells_short(wire, at + 2, xyz[1]),
        spells_short(wire, at + 4, xyz[2]),
{
    law_axes_stand_in_order(xyz);
    let bytes = wire.subrange(at, at + 6);
    assert(wire.subrange(at, at + 2) =~= bytes.subrange(0, 2));
    assert(wire.subrange(at + 2, at + 4) =~= bytes.subrange(2, 4));
    assert(wire.subrange(at + 4, at + 6) =~= bytes.subrange(4, 6));
    lemma_short_at(wire, at, xyz[0]);
    lemma_short_at(wire, at + 2, xyz[1]);
    lemma_short_at(wire, at + 4, xyz[2]);
}

} // verus!
