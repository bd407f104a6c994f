//! What a received CAN frame does to the board.

use vstd::prelude::*;

use crate::can::protocol::{
    controller_link_state, controller_status_effects, CanDecodeError, CanRxMessage,
    ControllerLinkState, ControllerStatus, ControllerStatusEffects,
};
use crate::payload::Payload;
use crate::state::{BoardState, ControllerStatusState};

verus! {

/// Identifier of a received frame.
#[derive(Clone, Copy, Debug, PartialEq, Eq, Structural)]
pub enum CanFrameId {
    Standard(u16),
    Extended(u32),
}

/// Why a received frame was not accepted.
#[derive(Clone, Copy, Debug, PartialEq, Eq, Structural)]
pub enum CanFrameError {
    /// The protocol has standard identifiers only.
    Extended(u32),
    Invalid(CanDecodeError),
}

/// What the tasks have to do for a message other than the controller status.
pub open spec fn no_effects() -> ControllerStatusEffects {
    ControllerStatusEffects { sequence_changed: None, top_rising: false }
}

impl BoardState {
    /// The board after a controller status.
    pub open spec fn after_status(self, status: ControllerStatus, now_ms: u64) -> BoardState {
        BoardState {
            payload: Payload { status: status.byte(), ..self.payload },
            controller: ControllerStatusState {
                status: Some(status),
                last_seen: Some(now_ms),
                link: ControllerLinkState::Online,
            },
            controller_status_rx_count: self.controller_status_rx_count.wrapping_add(1),
            request: self.request.spec_observe_status(
                crate::can::protocol::status_bit(status.byte(), 5),
                crate::can::protocol::status_bit(status.byte(), 6),
            ),
            ..self
        }
    }

    /// The board after a message. Fin angles have no counterpart in the telemetry record and the
    /// legacy notices are no source of state: both are counted and dropped.
    pub open spec fn after_message(self, message: CanRxMessage, now_ms: u64) -> BoardState {
        match message {
            CanRxMessage::LiftOff { .. } => BoardState {
                legacy_liftoff_top_rx_count: self.legacy_liftoff_top_rx_count.wrapping_add(1),
                ..self
            },
            CanRxMessage::Top { .. } => BoardState {
                legacy_liftoff_top_rx_count: self.legacy_liftoff_top_rx_count.wrapping_add(1),
                ..self
            },
            CanRxMessage::AngleSpeed { xyz } => BoardState {
                payload: Payload { angle_speed: xyz, ..self.payload },
                ..self
            },
            CanRxMessage::Acceleration { xyz } => BoardState {
                payload: Payload { acceleration: xyz, ..self.payload },
                ..self
            },
            CanRxMessage::AirPressure { bytes } => BoardState {
                payload: Payload { air_pressure: bytes, ..self.payload },
                ..self
            },
            CanRxMessage::FinAngle { .. } => BoardState {
                fin_angle_dropped_count: self.fin_angle_dropped_count.wrapping_add(1),
                ..self
            },
            CanRxMessage::AccumulatedAngle { xyz } => BoardState {
                payload: Payload { integrated_angle: xyz, ..self.payload },
                ..self
            },
            CanRxMessage::ControllerStatus { status } => self.after_status(status, now_ms),
        }
    }

    /// What the tasks have to do for a message.
    pub open spec fn effects_of(self, message: CanRxMessage) -> ControllerStatusEffects {
        match message {
            CanRxMessage::ControllerStatus { status } => {
                crate::can::protocol::spec_controller_status_effects(
                    match self.controller.status {
                        Some(previous) => Some(previous.byte()),
                        None => None,
                    },
                    status.byte(),
                )
            },
            _ => no_effects(),
        }
    }

    /// Applies a received message and returns what changed in the controller status.
    pub fn apply_received_message(&mut self, message: CanRxMessage, now_ms: u64) -> (effects:
        ControllerStatusEffects)
        ensures
            *final(self) == old(self).after_message(message, now_ms),
            effects == old(self).effects_of(message),
    {
        match message {
            CanRxMessage::LiftOff { .. } | CanRxMessage::Top { .. } => {
                self.legacy_liftoff_top_rx_count = self.legacy_liftoff_top_rx_count.wrapping_add(1);
            },
            CanRxMessage::AngleSpeed { xyz } => {
                self.payload.angle_speed = xyz;
            },
            CanRxMessage::Acceleration { xyz } => {
                self.payload.acceleration = xyz;
            },
            CanRxMessage::AirPressure { bytes } => {
                self.payload.air_pressure = bytes;
            },
            CanRxMessage::AccumulatedAngle { xyz } => {
                self.payload.integrated_angle = xyz;
            },
            CanRxMessage::FinAngle { .. } => {
                self.fin_angle_dropped_count = self.fin_angle_dropped_count.wrapping_add(1);
            },
            CanRxMessage::ControllerStatus { status } => {
                let previous = match self.controller.status {
                    Some(previous) => Some(previous.flags()),
                    None => None,
                };
                let effects = controller_status_effects(previous, status.flags());
                self.payload.status = status.raw();
                self.controller = ControllerStatusState {
                    status: Some(status),
                    last_seen: Some(now_ms),
                    link: controller_link_state(true, 0, None),
                };
                self.controller_status_rx_count = self.controller_status_rx_count.wrapping_add(1);
                self.request = self.request.observe_status(
                    status.sequence_active(),
                    status.liftoff_detected(),
                );
                return effects;
            },
        }
        ControllerStatusEffects { sequence_changed: None, top_rising: false }
    }

    /// Reads a received frame and applies it. A frame outside the protocol changes nothing.
    pub fn handle_received_frame(&mut self, id: CanFrameId, data: &[u8], now_ms: u64) -> (result:
        Result<ControllerStatusEffects, CanFrameError>)
        ensures
            match id {
                CanFrameId::Extended(raw) => *final(self) == *old(self) && result == Err::<
                    ControllerStatusEffects,
                    _,
                >(CanFrameError::Extended(raw)),
                CanFrameId::Standard(id) => match crate::can::protocol::expected_dlc(id) {
                    None => *final(self) == *old(self) && result == Err::<
                        ControllerStatusEffects,
                        _,
                    >(CanFrameError::Invalid(CanDecodeError::UnknownId(id))),
                    Some(expected) => if data@.len() == expected {
                        exists|message: CanRxMessage| #[trigger]
                            crate::can::protocol::message_of_frame(message, id, data@)
                                && *final(self) == old(self).after_message(message, now_ms)
                                && result == Ok::<_, CanFrameError>(old(self).effects_of(message))
                    } else {
                        *final(self) == *old(self) && result == Err::<ControllerStatusEffects, _>(
                            CanFrameError::Invalid(
                                CanDecodeError::InvalidDlc {
                                    id,
                                    expected,
                                    actual: data@.len() as usize,
                                },
                            ),
                        )
                    },
                },
            },
    {
        match id {
            CanFrameId::Extended(raw) => Err(CanFrameError::Extended(raw)),
            CanFrameId::Standard(id) => match CanRxMessage::decode_standard(id, data) {
                Ok(message) => Ok(self.apply_received_message(message, now_ms)),
                Err(error) => Err(CanFrameError::Invalid(error)),
            },
        }
    }
}

/// Law: the status in the telemetry record and what is known of the controller change with a
/// controller status only.
pub proof fn law_only_the_controller_status_sets_the_status(
    board: BoardState,
    message: CanRxMessage,
    now_ms: u64,
)
    ensures
        !(message is ControllerStatus) ==> {
            &&& board.after_message(message, now_ms).payload.status == board.payload.status
            &&& board.after_message(message, now_ms).controller == board.controller
            &&& board.after_message(message, now_ms).request == board.request
        },
        message matches CanRxMessage::ControllerStatus { status } ==> {
            &&& board.after_message(message, now_ms).payload.status == status.byte()
            &&& board.after_message(message, now_ms).controller.status == Some(status)
            &&& board.after_message(message, now_ms).controller.link is Online
        },
{
}

/// Law: the legacy notices and the fin angles reach neither the telemetry record nor any state;
/// they are only counted.
pub proof fn law_legacy_notices_and_fin_angles_are_only_counted(
    board: BoardState,
    message: CanRxMessage,
    now_ms: u64,
)
    requires
        message is LiftOff || message is Top || message is FinAngle,
    ensures
        board.after_message(message, now_ms).payload == board.payload,
        board.after_message(message, now_ms).controller == board.controller,
        board.after_message(message, now_ms).request == board.request,
        board.effects_of(message) == no_effects(),
        message is FinAngle ==> board.after_message(message, now_ms).fin_angle_dropped_count
            == board.fin_angle_dropped_count.wrapping_add(1),
        !(message is FinAngle) ==> board.after_message(message, now_ms).legacy_liftoff_top_rx_count
            == board.legacy_liftoff_top_rx_count.wrapping_add(1),
{
}

/// Law: the apogee triggers a downlink once. A status that reports it triggers one when it is
/// the first status or follows one without it, and its repetition does not.
pub proof fn law_apogee_triggers_once(board: BoardState, status: ControllerStatus, now_ms: u64)
    requires
        crate::can::protocol::status_bit(status.byte(), 0),
    ensures
        board.controller.status is None ==> board.effects_of(
            CanRxMessage::ControllerStatus { status },
        ).top_rising,
        !board.after_status(status, now_ms).effects_of(
            CanRxMessage::ControllerStatus { status },
        ).top_rising,
{
}

/// The board differs in the telemetry record alone.
pub open spec fn same_but_for_the_record(a: BoardState, b: BoardState) -> bool {
    b == (BoardState { payload: b.payload, ..a })
}

/// The three axes are what six bytes spell, two for each, the high byte first.
pub open spec fn spells_axes(data: Seq<u8>, axes: Seq<i16>) -> bool {
    &&& axes.len() == 3
    &&& crate::can::protocol::two_bytes_are(data[0], data[1], axes[0])
    &&& crate::can::protocol::two_bytes_are(data[2], data[3], axes[1])
    &&& crate::can::protocol::two_bytes_are(data[4], data[5], axes[2])
}

/// Law: every telemetry frame fills its own field of the record with its data and leaves everything
/// else on the board as it was: 0x120 the angular rate, 0x11a the acceleration, 0x14a the
/// integrated angle, 0x10a the pressure.
pub proof fn law_telemetry_frames_fill_their_field(
    board: BoardState,
    message: CanRxMessage,
    id: u16,
    data: Seq<u8>,
    now_ms: u64,
)
    requires
        crate::can::protocol::message_of_frame(message, id, data),
        id == 0x10a ==> data.len() == 3,
    ensures
        ({
            let after = board.after_message(message, now_ms);
            let record = after.payload;
            &&& id == 0x120 ==> spells_axes(data, record.angle_speed@) && record == (Payload {
                angle_speed: record.angle_speed,
                ..board.payload
            })
            &&& id == 0x11a ==> spells_axes(data, record.acceleration@) && record == (Payload {
                acceleration: record.acceleration,
                ..board.payload
            })
            &&& id == 0x14a ==> spells_axes(data, record.integrated_angle@) && record == (Payload {
                integrated_angle: record.integrated_angle,
                ..board.payload
            })
            &&& id == 0x10a ==> record.air_pressure@ == data && record == (Payload {
                air_pressure: record.air_pressure,
                ..board.payload
            })
            &&& id == 0x120 || id == 0x11a || id == 0x14a || id == 0x10a
                ==> same_but_for_the_record(board, after) && board.effects_of(message)
                == no_effects()
        }),
{
}

/// Law: a status frame puts its byte into the record and into what is known of the controller,
/// which then is online and was seen now; it is counted, and apart from the followed request
/// nothing else changes.
pub proof fn law_status_frames_are_taken_over(
    board: BoardState,
    message: CanRxMessage,
    data: Seq<u8>,
    now_ms: u64,
)
    requires
        crate::can::protocol::message_of_frame(message, 0x200, data),
    ensures
        ({
            let after = board.after_message(message, now_ms);
            &&& after.payload == (Payload { status: data[0], ..board.payload })
            &&& after.controller.status matches Some(status) && status.byte() == data[0]
                && status.well_formed()
            &&& after.controller.last_seen == Some(now_ms)
            &&& after.controller.link is Online
            &&& after.controller_status_rx_count == (board.controller_status_rx_count + 1)
                % 0x1_0000_0000
            &&& after == (BoardState {
                payload: after.payload,
                controller: after.controller,
                controller_status_rx_count: after.controller_status_rx_count,
                request: after.request,
                ..board
            })
        }),
{
}

/// Law: legacy notices and fin angles move one counter by one and nothing else.
pub proof fn law_other_frames_move_one_counter(
    board: BoardState,
    message: CanRxMessage,
    id: u16,
    data: Seq<u8>,
    now_ms: u64,
)
    requires
        crate::can::protocol::message_of_frame(message, id, data),
    ensures
        ({
            let after = board.after_message(message, now_ms);
            &&& id == 0x13a ==> after == (BoardState {
                fin_angle_dropped_count: after.fin_angle_dropped_count,
                ..board
            }) && after.fin_angle_dropped_count == (board.fin_angle_dropped_count + 1)
                % 0x1_0000_0000
            &&& id == 0x110 || id == 0x12a ==> after == (BoardState {
                legacy_liftoff_top_rx_count: after.legacy_liftoff_top_rx_count,
                ..board
            }) && after.legacy_liftoff_top_rx_count == (board.legacy_liftoff_top_rx_count + 1)
                % 0x1_0000_0000
        }),
{
}

/// Law: a status frame completes the sequence command that was sent and whose goal it shows, under
/// its token: a start when bit 5 is set, a stop when it is clear. It changes no other request,
/// an emergency stop least of all.
pub proof fn law_status_frames_confirm_sequence_commands(
    board: BoardState,
    message: CanRxMessage,
    data: Seq<u8>,
    now_ms: u64,
    token: u32,
    sent_ms: u64,
)
    requires
        crate::can::protocol::message_of_frame(message, 0x200, data),
    ensures
        ({
            let after = board.after_message(message, now_ms).request;
            let active = data[0] / 32 % 2 == 1;
            let start = crate::can::command::GroundCommand::StartSequence;
            let stop = crate::can::command::GroundCommand::StopSequence;
            let sent = |command: crate::can::command::GroundCommand|
                board.request == (crate::can::command::CommandRequestState::AwaitingConfirmation {
                    token,
                    command,
                    transmitted_at_ms: sent_ms,
                });
            &&& sent(start) && active ==> after == (
            crate::can::command::CommandRequestState::Completed { token, command: start })
            &&& sent(stop) && !active ==> after == (
            crate::can::command::CommandRequestState::Completed { token, command: stop })
            &&& sent(start) && !active || sent(stop) && active ==> after == board.request
            &&& !(board.request is AwaitingConfirmation) ==> after == board.request
            &&& board.request.spec_in_flight_command() != Some(start)
                && board.request.spec_in_flight_command() != Some(stop) ==> after == board.request
        }),
{
    crate::can::protocol::law_status_bits_are_binary_digits(data[0]);
}

/// Law: a status frame triggers the downlink exactly when its bit 0 is set and the status before
/// it had it clear, or there was none, whatever the other bits of either are. It reports the
/// sequence when bit 5 differs from the status before, or there was none.
pub proof fn law_apogee_triggers_at_its_rising_edge(
    board: BoardState,
    message: CanRxMessage,
    data: Seq<u8>,
)
    requires
        crate::can::protocol::message_of_frame(message, 0x200, data),
    ensures
        board.effects_of(message).top_rising <==> data[0] % 2 == 1 && (
        board.controller.status matches Some(before) ==> before.byte() % 2 == 0),
        board.effects_of(message).sequence_changed is Some <==> (
        board.controller.status matches Some(before) ==> before.byte() / 32 % 2 != data[0] / 32
            % 2),
        board.effects_of(message).sequence_changed matches Some(active) ==> active == (data[0] / 32
            % 2 == 1),
{
    match board.controller.status {
        Some(before) => {
            crate::can::protocol::law_edges_are_reported(Some(before.byte()), data[0]);
        },
        None => {
            crate::can::protocol::law_edges_are_reported(None, data[0]);
        },
    }
}

} // verus!
