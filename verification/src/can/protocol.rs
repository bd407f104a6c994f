//! CAN identifiers, frame layouts and the controller status byte.

use vstd::prelude::*;

verus! {

pub const CAN_ID_STOP_FIN_CONTROL: u16 = 0x001;

pub const CAN_ID_EMERGENCY_STOP_PARA: u16 = 0x003;

pub const CAN_ID_START_SEQUENCE: u16 = 0x005;

pub const CAN_ID_STOP_SEQUENCE: u16 = 0x00a;

pub const CAN_ID_START_LOGGING: u16 = 0x011;

pub const CAN_ID_STOP_LOGGING: u16 = 0x01e;

pub const CAN_ID_OPEN_PARA: u16 = 0x30d;

pub const CAN_ID_CLOSE_PARA: u16 = 0x30e;

pub const CAN_ID_AIR_PRESSURE: u16 = 0x10a;

/// Legacy liftoff notice. It is only counted: the controller status is the one source of state.
pub const CAN_ID_LIFT_OFF: u16 = 0x110;

pub const CAN_ID_ACCELERATION: u16 = 0x11a;

pub const CAN_ID_ANGLE_SPEED: u16 = 0x120;

/// Legacy apogee notice, treated like [`CAN_ID_LIFT_OFF`].
pub const CAN_ID_TOP: u16 = 0x12a;

pub const CAN_ID_FIN_ANGLE: u16 = 0x13a;

pub const CAN_ID_ACCUMULATED_ANGLE: u16 = 0x14a;

pub const CAN_ID_CONTROLLER_STATUS: u16 = 0x200;

/// Bits of the controller status byte that have an assigned meaning.
pub const CONTROLLER_STATUS_KNOWN_MASK: u8 = 0b1110_1111;

/// Whether the controller has been heard from, and recently enough.
#[derive(Clone, Copy, Debug, PartialEq, Eq, Structural)]
pub enum ControllerLinkState {
    Unknown,
    Online,
    TimedOut,
}

/// The link state for a given time since the last status message.
pub open spec fn spec_controller_link_state(
    has_received_status: bool,
    elapsed_ms: u64,
    timeout_ms: Option<u64>,
) -> ControllerLinkState {
    if !has_received_status {
        ControllerLinkState::Unknown
    } else if timeout_ms matches Some(limit) && elapsed_ms >= limit {
        ControllerLinkState::TimedOut
    } else {
        ControllerLinkState::Online
    }
}

/// Judges the controller link. Without a timeout a controller once heard stays online.
pub fn controller_link_state(
    has_received_status: bool,
    elapsed_ms: u64,
    timeout_ms: Option<u64>,
) -> (link: ControllerLinkState)
    ensures
        link == spec_controller_link_state(has_received_status, elapsed_ms, timeout_ms),
{
    if !has_received_status {
        return ControllerLinkState::Unknown;
    }
    match timeout_ms {
        Some(limit) if elapsed_ms >= limit => ControllerLinkState::TimedOut,
        _ => ControllerLinkState::Online,
    }
}

/// Bit `index` of `raw`, counted from the least significant bit.
pub open spec fn status_bit(raw: u8, index: u8) -> bool {
    (raw >> index) & 1 == 1
}

fn bit_is_set(raw: u8, index: u8) -> (set: bool)
    requires
        index < 8,
    ensures
        set == status_bit(raw, index),
{
    (raw >> index) & 1 == 1
}

/// A status byte whose reserved bit is clear.
#[derive(Clone, Copy, Debug, PartialEq, Eq, Structural)]
pub struct ControllerStatusFlags {
    raw: u8,
}

impl ControllerStatusFlags {
    /// The status byte.
    pub closed spec fn byte(self) -> u8 {
        self.raw
    }

    /// Accepts a byte whose reserved bit is clear.
    pub fn from_raw(raw: u8) -> (flags: Option<Self>)
        ensures
            flags is Some <==> !status_bit(raw, 4),
            flags matches Some(flags) ==> flags.byte() == raw,
    {
        if bit_is_set(raw, 4) {
            None
        } else {
            Some(ControllerStatusFlags { raw })
        }
    }

    pub fn raw(self) -> (raw: u8)
        ensures
            raw == self.byte(),
    {
        self.raw
    }

    pub fn top_detected(self) -> (set: bool)
        ensures
            set == status_bit(self.byte(), 0),
    {
        bit_is_set(self.raw, 0)
    }

    pub fn main_power_on(self) -> (set: bool)
        ensures
            set == status_bit(self.byte(), 1),
    {
        bit_is_set(self.raw, 1)
    }

    pub fn emergency_power_on(self) -> (set: bool)
        ensures
            set == status_bit(self.byte(), 2),
    {
        bit_is_set(self.raw, 2)
    }

    pub fn control_active(self) -> (set: bool)
        ensures
            set == status_bit(self.byte(), 3),
    {
        bit_is_set(self.raw, 3)
    }

    pub fn sequence_active(self) -> (set: bool)
        ensures
            set == status_bit(self.byte(), 5),
    {
        bit_is_set(self.raw, 5)
    }

    pub fn liftoff_detected(self) -> (set: bool)
        ensures
            set == status_bit(self.byte(), 6),
    {
        bit_is_set(self.raw, 6)
    }

    pub fn parachute_motor_open(self) -> (set: bool)
        ensures
            set == status_bit(self.byte(), 7),
    {
        bit_is_set(self.raw, 7)
    }
}

/// The controller status byte as received.
///
/// A byte that sets the reserved bit is kept as it came; its assigned bits still mean what they
/// mean in any other byte.
#[derive(Clone, Copy, Debug, PartialEq, Eq, Structural)]
pub enum ControllerStatus {
    Valid(ControllerStatusFlags),
    Unknown(u8),
}

impl ControllerStatus {
    /// The status byte.
    pub open spec fn byte(self) -> u8 {
        match self {
            ControllerStatus::Valid(flags) => flags.byte(),
            ControllerStatus::Unknown(raw) => raw,
        }
    }

    /// The variant says whether the reserved bit is set.
    pub open spec fn well_formed(self) -> bool {
        self is Unknown <==> status_bit(self.byte(), 4)
    }

    pub fn from_raw(raw: u8) -> (status: Self)
        ensures
            status.byte() == raw,
            status.well_formed(),
    {
        match ControllerStatusFlags::from_raw(raw) {
            Some(flags) => ControllerStatus::Valid(flags),
            None => ControllerStatus::Unknown(raw),
        }
    }

    pub fn raw(self) -> (raw: u8)
        ensures
            raw == self.byte(),
    {
        match self {
            ControllerStatus::Valid(flags) => flags.raw(),
            ControllerStatus::Unknown(raw) => raw,
        }
    }

    pub fn top_detected(self) -> (set: bool)
        ensures
            set == status_bit(self.byte(), 0),
    {
        bit_is_set(self.raw(), 0)
    }

    pub fn main_power_on(self) -> (set: bool)
        ensures
            set == status_bit(self.byte(), 1),
    {
        bit_is_set(self.raw(), 1)
    }

    pub fn emergency_power_on(self) -> (set: bool)
        ensures
            set == status_bit(self.byte(), 2),
    {
        bit_is_set(self.raw(), 2)
    }

    pub fn control_active(self) -> (set: bool)
        ensures
            set == status_bit(self.byte(), 3),
    {
        bit_is_set(self.raw(), 3)
    }

    pub fn sequence_active(self) -> (set: bool)
        ensures
            set == status_bit(self.byte(), 5),
    {
        bit_is_set(self.raw(), 5)
    }

    pub fn liftoff_detected(self) -> (set: bool)
        ensures
            set == status_bit(self.byte(), 6),
    {
        bit_is_set(self.raw(), 6)
    }

    pub fn parachute_motor_open(self) -> (set: bool)
        ensures
            set == status_bit(self.byte(), 7),
    {
        bit_is_set(self.raw(), 7)
    }

    /// The bits with an assigned meaning, in place.
    pub fn flags(self) -> (flags: ControllerStatusFlags)
        ensures
            flags.byte() == self.byte() & CONTROLLER_STATUS_KNOWN_MASK,
            !status_bit(flags.byte(), 4),
            forall|index: u8|
                index < 8 && index != 4 ==> #[trigger] status_bit(flags.byte(), index)
                    == status_bit(self.byte(), index),
    {
        let raw: u8 = self.raw();
        assert(forall|index: u8|
            index < 8 && index != 4 ==> #[trigger] (((raw & 0b1110_1111u8) >> index) & 1) == (raw
                >> index) & 1) by (bit_vector);
        assert(((raw & 0b1110_1111u8) >> 4u8) & 1 == 0) by (bit_vector);
        ControllerStatusFlags { raw: raw & CONTROLLER_STATUS_KNOWN_MASK }
    }

    /// The bits without an assigned meaning, in place.
    pub fn unknown_bits(self) -> (bits: u8)
        ensures
            bits == (if status_bit(self.byte(), 4) { 0x10u8 } else { 0u8 }),
    {
        let raw: u8 = self.raw();
        assert(raw & !0b1110_1111u8 == (if (raw >> 4u8) & 1 == 1 { 0x10u8 } else { 0u8 }))
            by (bit_vector);
        raw & !CONTROLLER_STATUS_KNOWN_MASK
    }
}

/// What a newly received status changes compared with the one before it.
#[derive(Clone, Copy, Debug, PartialEq, Eq, Structural)]
pub struct ControllerStatusEffects {
    pub sequence_changed: Option<bool>,
    pub top_rising: bool,
}

/// The effects of `current` after `previous`. A first status reports its sequence bit and counts
/// as a rising edge when it already reports the apogee.
pub open spec fn spec_controller_status_effects(
    previous: Option<u8>,
    current: u8,
) -> ControllerStatusEffects {
    ControllerStatusEffects {
        sequence_changed: if previous matches Some(before) && status_bit(before, 5) == status_bit(
            current,
            5,
        ) {
            None
        } else {
            Some(status_bit(current, 5))
        },
        top_rising: status_bit(current, 0) && (previous matches Some(before) ==> !status_bit(
            before,
            0,
        )),
    }
}

pub fn controller_status_effects(
    previous: Option<ControllerStatusFlags>,
    current: ControllerStatusFlags,
) -> (effects: ControllerStatusEffects)
    ensures
        effects == spec_controller_status_effects(
            match previous {
                Some(flags) => Some(flags.byte()),
                None => None,
            },
            current.byte(),
        ),
{
    let sequence_changed = match previous {
        Some(before) if before.sequence_active() == current.sequence_active() => None,
        _ => Some(current.sequence_active()),
    };
    let top_rising = current.top_detected() && match previous {
        Some(before) => !before.top_detected(),
        None => true,
    };
    ControllerStatusEffects { sequence_changed, top_rising }
}

/// A command frame to be sent by this board. There is no frame for the controller status.
#[derive(Clone, Copy, Debug, PartialEq, Eq, Structural)]
pub enum CanTxMessage {
    StopFinControl { command: u8 },
    EmergencyStopPara { command: u8 },
    StartSequence { command: u8 },
    StopSequence { command: u8 },
    OpenPara { command: u8 },
    ClosePara { command: u8 },
    StartLogging { command: u8 },
    StopLogging { command: u8 },
}

/// A telemetry or status frame received by this board.
#[derive(Clone, Copy, Debug, PartialEq, Eq)]
pub enum CanRxMessage {
    LiftOff { value: u8 },
    Top { value: u8 },
    AngleSpeed { xyz: [i16; 3] },
    Acceleration { xyz: [i16; 3] },
    AirPressure { bytes: [u8; 3] },
    FinAngle { xyz: [i16; 3] },
    AccumulatedAngle { xyz: [i16; 3] },
    ControllerStatus { status: ControllerStatus },
}

/// Why a received frame was not accepted.
#[derive(Clone, Copy, Debug, PartialEq, Eq, Structural)]
pub enum CanDecodeError {
    UnknownId(u16),
    InvalidDlc { id: u16, expected: usize, actual: usize },
}

impl CanTxMessage {
    /// The identifier of the frame.
    pub open spec fn spec_id(self) -> u16 {
        match self {
            CanTxMessage::StopFinControl { .. } => CAN_ID_STOP_FIN_CONTROL,
            CanTxMessage::EmergencyStopPara { .. } => CAN_ID_EMERGENCY_STOP_PARA,
            CanTxMessage::StartSequence { .. } => CAN_ID_START_SEQUENCE,
            CanTxMessage::StopSequence { .. } => CAN_ID_STOP_SEQUENCE,
            CanTxMessage::OpenPara { .. } => CAN_ID_OPEN_PARA,
            CanTxMessage::ClosePara { .. } => CAN_ID_CLOSE_PARA,
            CanTxMessage::StartLogging { .. } => CAN_ID_START_LOGGING,
            CanTxMessage::StopLogging { .. } => CAN_ID_STOP_LOGGING,
        }
    }

    /// The command byte that the frame carries.
    pub open spec fn command_byte(self) -> u8 {
        match self {
            CanTxMessage::StopFinControl { command } => command,
            CanTxMessage::EmergencyStopPara { command } => command,
            CanTxMessage::StartSequence { command } => command,
            CanTxMessage::StopSequence { command } => command,
            CanTxMessage::OpenPara { command } => command,
            CanTxMessage::ClosePara { command } => command,
            CanTxMessage::StartLogging { command } => command,
            CanTxMessage::StopLogging { command } => command,
        }
    }

    pub fn id(&self) -> (id: u16)
        ensures
            id == self.spec_id(),
    {
        match self {
            CanTxMessage::StopFinControl { .. } => CAN_ID_STOP_FIN_CONTROL,
            CanTxMessage::EmergencyStopPara { .. } => CAN_ID_EMERGENCY_STOP_PARA,
            CanTxMessage::StartSequence { .. } => CAN_ID_START_SEQUENCE,
            CanTxMessage::StopSequence { .. } => CAN_ID_STOP_SEQUENCE,
            CanTxMessage::OpenPara { .. } => CAN_ID_OPEN_PARA,
            CanTxMessage::ClosePara { .. } => CAN_ID_CLOSE_PARA,
            CanTxMessage::StartLogging { .. } => CAN_ID_START_LOGGING,
            CanTxMessage::StopLogging { .. } => CAN_ID_STOP_LOGGING,
        }
    }

    /// Number of data bytes in the frame.
    pub fn dlc(&self) -> (dlc: usize)
        ensures
            dlc == 1,
    {
        1
    }

    /// Writes the frame's data to `out`, clears the rest, and returns the number of data bytes.
    pub fn encode_payload(&self, out: &mut [u8; 8]) -> (dlc: usize)
        ensures
            dlc == 1,
            final(out)@ == seq![self.command_byte(), 0u8, 0u8, 0u8, 0u8, 0u8, 0u8, 0u8],
    {
        let first: u8 = match *self {
            CanTxMessage::StopFinControl { command }
            | CanTxMessage::EmergencyStopPara { command }
            | CanTxMessage::StartSequence { command }
            | CanTxMessage::StopSequence { command }
            | CanTxMessage::OpenPara { command }
            | CanTxMessage::ClosePara { command }
            | CanTxMessage::StartLogging { command }
            | CanTxMessage::StopLogging { command } => command,
        };
        *out = [first, 0, 0, 0, 0, 0, 0, 0];
        assert(out@ =~= seq![first, 0u8, 0u8, 0u8, 0u8, 0u8, 0u8, 0u8]);
        self.dlc()
    }
}

/// The number of data bytes that a received frame with this identifier must have.
pub open spec fn expected_dlc(id: u16) -> Option<usize> {
    if id == CAN_ID_AIR_PRESSURE {
        Some(3)
    } else if id == CAN_ID_ACCELERATION || id == CAN_ID_ANGLE_SPEED || id == CAN_ID_FIN_ANGLE || id
        == CAN_ID_ACCUMULATED_ANGLE {
        Some(6)
    } else if id == CAN_ID_LIFT_OFF || id == CAN_ID_TOP || id == CAN_ID_CONTROLLER_STATUS {
        Some(1)
    } else {
        None
    }
}

/// The signed value of two bytes, most significant byte first.
pub open spec fn be_i16(high: u8, low: u8) -> i16 {
    let unsigned = high * 256 + low;
    (if unsigned < 0x8000 {
        unsigned
    } else {
        unsigned - 0x1_0000
    }) as i16
}

/// The three axes X, Y and Z, in this order.
pub open spec fn be_i16x3(data: Seq<u8>) -> Seq<i16> {
    seq![be_i16(data[0], data[1]), be_i16(data[2], data[3]), be_i16(data[4], data[5])]
}

/// `message` is what a frame with this identifier and data means.
pub open spec fn message_of_frame(message: CanRxMessage, id: u16, data: Seq<u8>) -> bool {
    match message {
        CanRxMessage::LiftOff { value } => id == CAN_ID_LIFT_OFF && value == data[0],
        CanRxMessage::Top { value } => id == CAN_ID_TOP && value == data[0],
        CanRxMessage::AngleSpeed { xyz } => id == CAN_ID_ANGLE_SPEED && xyz@ == be_i16x3(data),
        CanRxMessage::Acceleration { xyz } => id == CAN_ID_ACCELERATION && xyz@ == be_i16x3(data),
        CanRxMessage::AirPressure { bytes } => id == CAN_ID_AIR_PRESSURE && bytes@ == data,
        CanRxMessage::FinAngle { xyz } => id == CAN_ID_FIN_ANGLE && xyz@ == be_i16x3(data),
        CanRxMessage::AccumulatedAngle { xyz } => id == CAN_ID_ACCUMULATED_ANGLE && xyz@
            == be_i16x3(data),
        CanRxMessage::ControllerStatus { status } => id == CAN_ID_CONTROLLER_STATUS
            && status.byte() == data[0] && status.well_formed(),
    }
}

impl CanRxMessage {
    /// Reads a frame with a standard identifier. Only the listed identifiers are accepted, each
    /// with exactly its number of data bytes.
    pub fn decode_standard(id: u16, data: &[u8]) -> (result: Result<Self, CanDecodeError>)
        ensures
            match expected_dlc(id) {
                None => result == Err::<CanRxMessage, _>(CanDecodeError::UnknownId(id)),
                Some(expected) => if data@.len() == expected {
                    result matches Ok(message) && message_of_frame(message, id, data@)
                } else {
                    result == Err::<CanRxMessage, _>(
                        CanDecodeError::InvalidDlc { id, expected, actual: data@.len() as usize },
                    )
                },
            },
    {
        if id == CAN_ID_LIFT_OFF {
            match require_dlc(id, data, 1) {
                Ok(()) => Ok(CanRxMessage::LiftOff { value: data[0] }),
                Err(error) => Err(error),
            }
        } else if id == CAN_ID_TOP {
            match require_dlc(id, data, 1) {
                Ok(()) => Ok(CanRxMessage::Top { value: data[0] }),
                Err(error) => Err(error),
            }
        } else if id == CAN_ID_ANGLE_SPEED {
            match require_dlc(id, data, 6) {
                Ok(()) => Ok(CanRxMessage::AngleSpeed { xyz: decode_i16x3_be(data) }),
                Err(error) => Err(error),
            }
        } else if id == CAN_ID_ACCELERATION {
            match require_dlc(id, data, 6) {
                Ok(()) => Ok(CanRxMessage::Acceleration { xyz: decode_i16x3_be(data) }),
                Err(error) => Err(error),
            }
        } else if id == CAN_ID_AIR_PRESSURE {
            match require_dlc(id, data, 3) {
                Ok(()) => {
                    let bytes: [u8; 3] = [data[0], data[1], data[2]];
                    assert(bytes@ =~= data@);
                    Ok(CanRxMessage::AirPressure { bytes })
                },
                Err(error) => Err(error),
            }
        } else if id == CAN_ID_FIN_ANGLE {
            match require_dlc(id, data, 6) {
                Ok(()) => Ok(CanRxMessage::FinAngle { xyz: decode_i16x3_be(data) }),
                Err(error) => Err(error),
            }
        } else if id == CAN_ID_ACCUMULATED_ANGLE {
            match require_dlc(id, data, 6) {
                Ok(()) => Ok(CanRxMessage::AccumulatedAngle { xyz: decode_i16x3_be(data) }),
                Err(error) => Err(error),
            }
        } else if id == CAN_ID_CONTROLLER_STATUS {
            match require_dlc(id, data, 1) {
                Ok(()) => Ok(
                    CanRxMessage::ControllerStatus { status: ControllerStatus::from_raw(data[0]) },
                ),
                Err(error) => Err(error),
            }
        } else {
            Err(CanDecodeError::UnknownId(id))
        }
    }
}

fn require_dlc(id: u16, data: &[u8], expected: usize) -> (result: Result<(), CanDecodeError>)
    ensures
        data@.len() == expected ==> result == Ok::<(), CanDecodeError>(()),
        data@.len() != expected ==> result == Err::<(), _>(
            CanDecodeError::InvalidDlc { id, expected, actual: data@.len() as usize },
        ),
{
    if data.len() == expected {
        Ok(())
    } else {
        Err(CanDecodeError::InvalidDlc { id, expected, actual: data.len() })
    }
}

fn decode_i16_be(high: u8, low: u8) -> (value: i16)
    ensures
        value == be_i16(high, low),
{
    let unsigned: i32 = high as i32 * 256 + low as i32;
    if unsigned < 0x8000 {
        unsigned as i16
    } else {
        (unsigned - 0x1_0000) as i16
    }
}

fn decode_i16x3_be(data: &[u8]) -> (xyz: [i16; 3])
    requires
        data@.len() == 6,
    ensures
        xyz@ == be_i16x3(data@),
{
    let xyz: [i16; 3] = [
        decode_i16_be(data[0], data[1]),
        decode_i16_be(data[2], data[3]),
        decode_i16_be(data[4], data[5]),
    ];
    assert(xyz@ =~= be_i16x3(data@));
    xyz
}

/// The two bytes of a signed value, most significant byte first.
pub open spec fn i16_be_bytes(value: i16) -> Seq<u8> {
    let unsigned = value as int % 0x1_0000;
    seq![(unsigned / 256) as u8, (unsigned % 256) as u8]
}

/// Law: no frame that this board can send has the identifier of the controller status.
pub proof fn law_controller_status_is_never_transmitted(message: CanTxMessage)
    ensures
        message.spec_id() != CAN_ID_CONTROLLER_STATUS,
{
}

/// Law: identifier and command byte together identify a command frame, and every identifier is
/// an 11-bit one.
pub proof fn law_transmitted_frames_are_distinguishable(a: CanTxMessage, b: CanTxMessage)
    ensures
        a.spec_id() == b.spec_id() && a.command_byte() == b.command_byte() ==> a == b,
        a.spec_id() < 0x800,
{
}

/// Law: on the bus, where the lower identifier wins, the parachute emergency stop goes before
/// the parachute position commands.
pub proof fn law_emergency_stop_wins_over_parachute_position(
    stop: CanTxMessage,
    position: CanTxMessage,
)
    requires
        stop is EmergencyStopPara,
        position is OpenPara || position is ClosePara,
    ensures
        stop.spec_id() < position.spec_id(),
{
}

/// Law: the board accepts none of the frames that it sends.
pub proof fn law_own_commands_are_not_received(message: CanTxMessage)
    ensures
        expected_dlc(message.spec_id()) is None,
{
}

/// Law: reading the big-endian bytes of three axes gives the axes back.
pub proof fn law_axes_survive_the_wire(x: i16, y: i16, z: i16)
    ensures
        be_i16x3(i16_be_bytes(x) + i16_be_bytes(y) + i16_be_bytes(z)) == seq![x, y, z],
{
    let data = i16_be_bytes(x) + i16_be_bytes(y) + i16_be_bytes(z);
    assert(data[0] == i16_be_bytes(x)[0] && data[1] == i16_be_bytes(x)[1]);
    assert(data[2] == i16_be_bytes(y)[0] && data[3] == i16_be_bytes(y)[1]);
    assert(data[4] == i16_be_bytes(z)[0] && data[5] == i16_be_bytes(z)[1]);
    assert(be_i16x3(data) =~= seq![x, y, z]);
}

/// Law: a periodic repetition of the same status has no effect.
pub proof fn law_repeated_status_has_no_effect(raw: u8)
    ensures
        spec_controller_status_effects(Some(raw), raw) == (ControllerStatusEffects {
            sequence_changed: None,
            top_rising: false,
        }),
{
}

/// Law: the byte determines the flags.
pub proof fn law_byte_determines_the_flags(a: ControllerStatusFlags, b: ControllerStatusFlags)
    ensures
        a.byte() == b.byte() <==> a == b,
{
}

/// Law: the byte determines the status, so reading one byte twice gives the same status.
pub proof fn law_byte_determines_the_status(a: ControllerStatus, b: ControllerStatus)
    requires
        a.well_formed(),
        b.well_formed(),
    ensures
        a.byte() == b.byte() <==> a == b,
{
}

/// Law: identifier and data determine what a frame means.
pub proof fn law_frame_determines_the_message(
    a: CanRxMessage,
    b: CanRxMessage,
    id: u16,
    data: Seq<u8>,
)
    requires
        message_of_frame(a, id, data),
        message_of_frame(b, id, data),
    ensures
        a == b,
{
    match (a, b) {
        (CanRxMessage::AngleSpeed { xyz: x }, CanRxMessage::AngleSpeed { xyz: y }) => {
            assert(x =~= y);
        },
        (CanRxMessage::Acceleration { xyz: x }, CanRxMessage::Acceleration { xyz: y }) => {
            assert(x =~= y);
        },
        (CanRxMessage::AirPressure { bytes: x }, CanRxMessage::AirPressure { bytes: y }) => {
            assert(x =~= y);
        },
        (CanRxMessage::FinAngle { xyz: x }, CanRxMessage::FinAngle { xyz: y }) => {
            assert(x =~= y);
        },
        (CanRxMessage::AccumulatedAngle { xyz: x }, CanRxMessage::AccumulatedAngle { xyz: y }) => {
            assert(x =~= y);
        },
        _ => {},
    }
}

/// Law: the bits of the status byte are its binary digits, the lowest one first.
pub proof fn law_status_bits_are_binary_digits(raw: u8)
    ensures
        status_bit(raw, 0) <==> raw % 2 == 1,
        status_bit(raw, 1) <==> raw / 2 % 2 == 1,
        status_bit(raw, 2) <==> raw / 4 % 2 == 1,
        status_bit(raw, 3) <==> raw / 8 % 2 == 1,
        status_bit(raw, 4) <==> raw / 16 % 2 == 1,
        status_bit(raw, 5) <==> raw / 32 % 2 == 1,
        status_bit(raw, 6) <==> raw / 64 % 2 == 1,
        status_bit(raw, 7) <==> raw >= 128,
{
    assert(((raw >> 0u8) & 1 == 1 <==> raw % 2 == 1) && ((raw >> 1u8) & 1 == 1 <==> raw / 2 % 2
        == 1) && ((raw >> 2u8) & 1 == 1 <==> raw / 4 % 2 == 1) && ((raw >> 3u8) & 1 == 1 <==> raw
        / 8 % 2 == 1) && ((raw >> 4u8) & 1 == 1 <==> raw / 16 % 2 == 1) && ((raw >> 5u8) & 1 == 1
        <==> raw / 32 % 2 == 1) && ((raw >> 6u8) & 1 == 1 <==> raw / 64 % 2 == 1) && ((raw >> 7u8)
        & 1 == 1 <==> raw >= 128)) by (bit_vector);
}

/// Law: the apogee is reported at every change of the lowest bit from zero to one, and with a
/// first status that has it set, whatever the other bits are; at no other time. The sequence is
/// reported with the first status and whenever its bit changes, with the new value.
pub proof fn law_edges_are_reported(previous: Option<u8>, current: u8)
    ensures
        ({
            let effects = spec_controller_status_effects(previous, current);
            let active = current / 32 % 2 == 1;
            &&& previous is None ==> effects.top_rising == (current % 2 == 1)
                && effects.sequence_changed == Some(active)
            &&& previous matches Some(before) ==> {
                &&& effects.top_rising <==> before % 2 == 0 && current % 2 == 1
                &&& effects.sequence_changed is Some <==> before / 32 % 2 != current / 32 % 2
                &&& effects.sequence_changed is Some ==> effects.sequence_changed == Some(active)
            }
        }),
{
    law_status_bits_are_binary_digits(current);
    if let Some(before) = previous {
        law_status_bits_are_binary_digits(before);
    }
}

/// Law: the identifiers of the frames that this board sends.
pub proof fn law_command_frames_have_their_identifier(message: CanTxMessage)
    ensures
        message.spec_id() == 0x001 <==> message is StopFinControl,
        message.spec_id() == 0x003 <==> message is EmergencyStopPara,
        message.spec_id() == 0x005 <==> message is StartSequence,
        message.spec_id() == 0x00a <==> message is StopSequence,
        message.spec_id() == 0x011 <==> message is StartLogging,
        message.spec_id() == 0x01e <==> message is StopLogging,
        message.spec_id() == 0x30d <==> message is OpenPara,
        message.spec_id() == 0x30e <==> message is ClosePara,
{
}

/// Law: the data of a command frame is the byte that the frame was made with.
pub proof fn law_command_frames_carry_their_byte(message: CanTxMessage, byte: u8)
    ensures
        message == (CanTxMessage::StopFinControl { command: byte }) || message
            == (CanTxMessage::EmergencyStopPara { command: byte }) || message
            == (CanTxMessage::StartSequence { command: byte }) || message
            == (CanTxMessage::StopSequence { command: byte }) || message
            == (CanTxMessage::OpenPara { command: byte }) || message == (CanTxMessage::ClosePara {
            command: byte,
        }) || message == (CanTxMessage::StartLogging { command: byte }) || message
            == (CanTxMessage::StopLogging { command: byte }) <==> message.command_byte() == byte,
{
}

/// Law: the identifiers that this board accepts and the length of their data.
pub proof fn law_accepted_frames(id: u16)
    ensures
        expected_dlc(id) == Some(1usize) <==> id == 0x110 || id == 0x12a || id == 0x200,
        expected_dlc(id) == Some(3usize) <==> id == 0x10a,
        expected_dlc(id) == Some(6usize) <==> id == 0x11a || id == 0x120 || id == 0x13a || id
            == 0x14a,
        expected_dlc(id) is None || expected_dlc(id) == Some(1usize) || expected_dlc(id) == Some(
            3usize,
        ) || expected_dlc(id) == Some(6usize),
{
}

/// Law: the identifier alone decides what kind of message a frame is.
pub proof fn law_identifier_decides_the_kind(message: CanRxMessage, id: u16, data: Seq<u8>)
    requires
        message_of_frame(message, id, data),
    ensures
        message is AirPressure <==> id == 0x10a,
        message is LiftOff <==> id == 0x110,
        message is Acceleration <==> id == 0x11a,
        message is AngleSpeed <==> id == 0x120,
        message is Top <==> id == 0x12a,
        message is FinAngle <==> id == 0x13a,
        message is AccumulatedAngle <==> id == 0x14a,
        message is ControllerStatus <==> id == 0x200,
{
}

/// The two bytes, taken as a number in two's complement with the first one higher, are `value`.
pub open spec fn two_bytes_are(high: u8, low: u8, value: i16) -> bool {
    256 * high + low == value || 256 * high + low == value + 65536
}

/// Law: every axis is the number that its two bytes spell in two's complement, the high byte first.
pub proof fn law_axes_are_big_endian(data: Seq<u8>, axis: int)
    requires
        0 <= axis < 3,
    ensures
        be_i16x3(data).len() == 3,
        two_bytes_are(data[2 * axis], data[2 * axis + 1], be_i16x3(data)[axis]),
{
}

/// Law: without a status the link is unknown; with one it is online until the timeout, if there is
/// one, has passed.
pub proof fn law_link_times_out_only_with_a_timeout(
    has_received_status: bool,
    elapsed_ms: u64,
    timeout_ms: Option<u64>,
)
    ensures
        ({
            let link = spec_controller_link_state(has_received_status, elapsed_ms, timeout_ms);
            &&& link is Unknown <==> !has_received_status
            &&& link is TimedOut <==> has_received_status && timeout_ms is Some && elapsed_ms
                >= timeout_ms->0
        }),
{
}

} // verus!
