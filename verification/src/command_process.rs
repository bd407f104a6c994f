//! What a ground command does to the board and to the CAN bus.

use vstd::prelude::*;

use crate::can::command::{
    command_already_satisfied, may_supersede, CommandCategory, CommandFailureRecord,
    CommandPriority, CommandRequestState, GroundCommand, BYTE_CLOSE_PARA, BYTE_EMERGENCY_STOP_PARA,
    BYTE_OPEN_PARA, BYTE_START_LOGGING, BYTE_START_SEQUENCE, BYTE_STOP_FIN_CONTROL,
    BYTE_STOP_LOGGING, BYTE_STOP_SEQUENCE,
};
use crate::can::protocol::CanTxMessage;
use crate::state::{BoardState, CanTxRequest, GnssCommand};

verus! {

/// What becomes of the CAN side of a command.
#[derive(Clone, Copy, Debug, PartialEq, Eq, Structural)]
pub enum CanDispatch {
    /// The command concerns this board only, or there was none.
    Nothing,
    /// The controller is already where the command would bring it.
    AlreadySatisfied,
    /// A pending safety critical request keeps the command from being tracked.
    RejectedBySafetyRequest,
    /// Into the ordinary queue.
    Queue(CanTxRequest),
    /// Ahead of the ordinary queue.
    Preempt(CanTxRequest),
}

/// What the tasks have to do for a command.
#[derive(Clone, Copy, Debug, PartialEq, Eq, Structural)]
pub struct CommandActions {
    /// Whether the SD task is to flush.
    pub flush_sd: bool,
    pub gnss: Option<GnssCommand>,
    pub dispatch: CanDispatch,
    /// The request in flight that the command took the place of.
    pub superseded: Option<CommandFailureRecord>,
}

/// The frame that carries a command to the controller.
pub open spec fn spec_get_target_can_message(command: GroundCommand) -> Option<CanTxMessage> {
    let byte = command.wire_byte();
    match command {
        GroundCommand::StartSequence => Some(CanTxMessage::StartSequence { command: byte }),
        GroundCommand::StopSequence => Some(CanTxMessage::StopSequence { command: byte }),
        GroundCommand::EmergencyStopPara => Some(CanTxMessage::EmergencyStopPara { command: byte }),
        GroundCommand::StartLogging => Some(CanTxMessage::StartLogging { command: byte }),
        GroundCommand::StopLogging => Some(CanTxMessage::StopLogging { command: byte }),
        GroundCommand::StopFinControl => Some(CanTxMessage::StopFinControl { command: byte }),
        GroundCommand::OpenPara => Some(CanTxMessage::OpenPara { command: byte }),
        GroundCommand::ClosePara => Some(CanTxMessage::ClosePara { command: byte }),
        GroundCommand::GnssOn => None,
        GroundCommand::GnssOff => None,
    }
}

/// GNSS commands stay on this board and have no frame.
pub fn get_target_can_message(command: GroundCommand) -> (message: Option<CanTxMessage>)
    ensures
        message == spec_get_target_can_message(command),
{
    match command {
        GroundCommand::StopSequence => Some(
            CanTxMessage::StopSequence { command: BYTE_STOP_SEQUENCE },
        ),
        GroundCommand::StartSequence => Some(
            CanTxMessage::StartSequence { command: BYTE_START_SEQUENCE },
        ),
        GroundCommand::StartLogging => Some(
            CanTxMessage::StartLogging { command: BYTE_START_LOGGING },
        ),
        GroundCommand::StopLogging => Some(CanTxMessage::StopLogging { command: BYTE_STOP_LOGGING }),
        GroundCommand::EmergencyStopPara => Some(
            CanTxMessage::EmergencyStopPara { command: BYTE_EMERGENCY_STOP_PARA },
        ),
        GroundCommand::StopFinControl => Some(
            CanTxMessage::StopFinControl { command: BYTE_STOP_FIN_CONTROL },
        ),
        GroundCommand::ClosePara => Some(CanTxMessage::ClosePara { command: BYTE_CLOSE_PARA }),
        GroundCommand::OpenPara => Some(CanTxMessage::OpenPara { command: BYTE_OPEN_PARA }),
        GroundCommand::GnssOn | GroundCommand::GnssOff => None,
    }
}

/// The order that a command gives to the GNSS task.
pub open spec fn gnss_order(command: GroundCommand) -> Option<GnssCommand> {
    match command {
        GroundCommand::StartSequence => Some(GnssCommand::TurnOn),
        GroundCommand::GnssOn => Some(GnssCommand::TurnOn),
        GroundCommand::GnssOff => Some(GnssCommand::TurnOff),
        _ => None,
    }
}

impl BoardState {
    /// The board with the logging request that accepting the command makes.
    pub open spec fn with_logging_request(self, command: GroundCommand) -> BoardState {
        match command.spec_acceptance_effects().logging_requested {
            Some(requested) => BoardState { logging_requested: requested, ..self },
            None => self,
        }
    }

    /// The board with a new generation, which becomes the latest of the command's category.
    pub open spec fn with_new_generation(self, command: GroundCommand) -> BoardState {
        let generation = self.next_generation.wrapping_add(1);
        match command.spec_category() {
            CommandCategory::Sequence => BoardState {
                next_generation: generation,
                latest_sequence_generation: generation,
                ..self
            },
            CommandCategory::Logging => BoardState {
                next_generation: generation,
                latest_logging_generation: generation,
                ..self
            },
            CommandCategory::ParachutePosition => BoardState {
                next_generation: generation,
                latest_para_position_generation: generation,
                ..self
            },
            CommandCategory::Other => BoardState { next_generation: generation, ..self },
        }
    }

    /// Whether the last controller status shows that the command has nothing to do. Without a
    /// status nothing is known.
    pub open spec fn satisfies(self, command: GroundCommand) -> bool {
        match self.controller.status {
            Some(status) => crate::can::command::spec_command_already_satisfied(
                command,
                crate::can::protocol::status_bit(status.byte(), 5),
            ),
            None => false,
        }
    }

    /// Whether a request in flight may not be replaced by the command.
    pub open spec fn blocks(self, command: GroundCommand) -> bool {
        match self.request.spec_in_flight_command() {
            Some(existing) => !crate::can::command::spec_may_supersede(existing, command),
            None => false,
        }
    }

    /// The record of the request in flight that a tracked command replaces.
    pub open spec fn superseded_request(self) -> Option<CommandFailureRecord> {
        if self.request.spec_is_in_flight() {
            self.request.spec_supersede().spec_failure()
        } else {
            None
        }
    }

    /// What becomes of the CAN side of `command`, which has the frame `message`.
    pub open spec fn dispatch_of(self, command: GroundCommand, message: CanTxMessage) -> CanDispatch {
        let generation = self.next_generation.wrapping_add(1);
        if !command.spec_is_confirmed_by_controller_status() {
            CanDispatch::Queue(
                CanTxRequest { message, tracking_token: None, command, generation },
            )
        } else if self.satisfies(command) {
            CanDispatch::AlreadySatisfied
        } else if self.blocks(command) {
            CanDispatch::RejectedBySafetyRequest
        } else {
            let request = CanTxRequest {
                message,
                tracking_token: Some(generation),
                command,
                generation,
            };
            if command is EmergencyStopPara {
                CanDispatch::Preempt(request)
            } else {
                CanDispatch::Queue(request)
            }
        }
    }

    /// The board after a known command.
    pub open spec fn after_command(self, command: GroundCommand) -> BoardState {
        let accepted = self.with_logging_request(command);
        match spec_get_target_can_message(command) {
            None => accepted,
            Some(message) => {
                let numbered = accepted.with_new_generation(command);
                let token = numbered.next_generation;
                if !command.spec_is_confirmed_by_controller_status() {
                    numbered
                } else if self.satisfies(command) {
                    BoardState {
                        request: CommandRequestState::AlreadySatisfied { token, command },
                        ..numbered
                    }
                } else if self.blocks(command) {
                    numbered
                } else {
                    BoardState {
                        request: CommandRequestState::Queued { token, command },
                        ..numbered.with_request(numbered.request.spec_supersede())
                    }
                }
            },
        }
    }

    /// What the tasks have to do for a known command.
    pub open spec fn actions_for(self, command: GroundCommand) -> CommandActions {
        let dispatch = match spec_get_target_can_message(command) {
            None => CanDispatch::Nothing,
            Some(message) => self.dispatch_of(command, message),
        };
        CommandActions {
            flush_sd: command.spec_acceptance_effects().logging_requested == Some(false),
            gnss: gnss_order(command),
            dispatch,
            superseded: if command.spec_is_confirmed_by_controller_status() && (dispatch is Queue
                || dispatch is Preempt) {
                self.superseded_request()
            } else {
                None
            },
        }
    }

    /// Processes the command byte of an uplink frame. A byte that stands for no command does
    /// nothing. The controller's reported state is read but never changed here.
    pub fn process_command(&mut self, byte: u8) -> (actions: CommandActions)
        ensures
            match GroundCommand::spec_decode_legacy(byte) {
                Some(command) => *final(self) == old(self).after_command(command) && actions == old(
                    self,
                ).actions_for(command),
                None => *final(self) == *old(self) && actions == (CommandActions {
                    flush_sd: false,
                    gnss: None,
                    dispatch: CanDispatch::Nothing,
                    superseded: None,
                }),
            },
    {
        let mut actions = CommandActions {
            flush_sd: false,
            gnss: None,
            dispatch: CanDispatch::Nothing,
            superseded: None,
        };
        let command = match GroundCommand::decode_legacy(byte) {
            Some(command) => command,
            None => {
                return actions;
            },
        };
        let effects = command.acceptance_effects();
        if let Some(logging_requested) = effects.logging_requested {
            self.logging_requested = logging_requested;
            actions.flush_sd = !logging_requested;
        }
        if effects.gnss_turn_on {
            actions.gnss = Some(GnssCommand::TurnOn);
        }
        match command {
            GroundCommand::GnssOn => {
                actions.gnss = Some(GnssCommand::TurnOn);
            },
            GroundCommand::GnssOff => {
                actions.gnss = Some(GnssCommand::TurnOff);
            },
            _ => {},
        }
        if let Some(message) = get_target_can_message(command) {
            let generation: u32 = self.begin_generation(command);
            if command.is_confirmed_by_controller_status() {
                self.track(command, message, generation, &mut actions);
            } else {
                actions.dispatch = CanDispatch::Queue(
                    CanTxRequest::untracked(message, command, generation),
                );
            }
        }
        actions
    }

    fn begin_generation(&mut self, command: GroundCommand) -> (generation: u32)
        ensures
            *final(self) == old(self).with_new_generation(command),
            generation == final(self).next_generation,
    {
        let generation: u32 = self.next_generation.wrapping_add(1);
        self.next_generation = generation;
        match command.category() {
            CommandCategory::Sequence => {
                self.latest_sequence_generation = generation;
            },
            CommandCategory::Logging => {
                self.latest_logging_generation = generation;
            },
            CommandCategory::ParachutePosition => {
                self.latest_para_position_generation = generation;
            },
            CommandCategory::Other => {},
        }
        generation
    }

    fn already_satisfies(&self, command: GroundCommand) -> (satisfied: bool)
        ensures
            satisfied == self.satisfies(command),
    {
        match self.controller.status {
            Some(status) => command_already_satisfied(command, status.sequence_active()),
            None => false,
        }
    }

    fn track(
        &mut self,
        command: GroundCommand,
        message: CanTxMessage,
        generation: u32,
        actions: &mut CommandActions,
    )
        requires
            old(actions).dispatch is Nothing,
            old(actions).superseded is None,
        ensures
            final(actions).flush_sd == old(actions).flush_sd,
            final(actions).gnss == old(actions).gnss,
            old(self).satisfies(command) ==> {
                &&& final(actions).dispatch is AlreadySatisfied
                &&& final(actions).superseded is None
                &&& *final(self) == (BoardState {
                    request: CommandRequestState::AlreadySatisfied { token: generation, command },
                    ..*old(self)
                })
            },
            !old(self).satisfies(command) && old(self).blocks(command) ==> {
                &&& final(actions).dispatch is RejectedBySafetyRequest
                &&& final(actions).superseded is None
                &&& *final(self) == *old(self)
            },
            !old(self).satisfies(command) && !old(self).blocks(command) ==> {
                let request = CanTxRequest {
                    message,
                    tracking_token: Some(generation),
                    command,
                    generation,
                };
                &&& final(actions).dispatch == (if command is EmergencyStopPara {
                    CanDispatch::Preempt(request)
                } else {
                    CanDispatch::Queue(request)
                })
                &&& final(actions).superseded == old(self).superseded_request()
                &&& *final(self) == (BoardState {
                    request: CommandRequestState::Queued { token: generation, command },
                    ..old(self).with_request(old(self).request.spec_supersede())
                })
            },
    {
        if self.already_satisfies(command) {
            self.request = CommandRequestState::already_satisfied(generation, command);
            actions.dispatch = CanDispatch::AlreadySatisfied;
            return;
        }
        if let Some(existing) = self.request.in_flight_command() {
            if !may_supersede(existing, command) {
                actions.dispatch = CanDispatch::RejectedBySafetyRequest;
                return;
            }
        }
        if self.request.is_in_flight() {
            actions.superseded = self.request.supersede().failure();
        }
        let superseded = self.request.supersede();
        self.set_request(superseded);
        self.request = CommandRequestState::queue(generation, command);
        let request = CanTxRequest::with_tracking(message, command, generation);
        actions.dispatch = match command.priority() {
            CommandPriority::SafetyCritical => CanDispatch::Preempt(request),
            CommandPriority::Normal => CanDispatch::Queue(request),
        };
    }
}

/// The request to send next, out of an emergency stop that is waiting and a request taken from
/// the ordinary queue. The emergency stop goes first; the other one stays for later.
pub fn next_to_send(
    safety: Option<CanTxRequest>,
    queued: &mut Option<CanTxRequest>,
) -> (next: Option<CanTxRequest>)
    ensures
        safety is Some ==> next == safety && *final(queued) == *old(queued),
        safety is None ==> next == *old(queued) && *final(queued) is None,
{
    match safety {
        Some(request) => Some(request),
        None => {
            let next = *queued;
            *queued = None;
            next
        },
    }
}

/// Law: a command is a request and no more. It changes neither the telemetry record nor what is
/// known of the controller.
pub proof fn law_commands_leave_the_reported_state_alone(board: BoardState, command: GroundCommand)
    ensures
        crate::state::same_reported_state(board, board.after_command(command)),
{
}

/// Law: every command but the two for the GNSS receiver has a frame, and the frame carries the
/// byte that came over the air.
pub proof fn law_frames_carry_the_received_byte(byte: u8, command: GroundCommand)
    requires
        GroundCommand::spec_decode_legacy(byte) == Some(command),
    ensures
        spec_get_target_can_message(command) is None <==> command is GnssOn || command is GnssOff,
        spec_get_target_can_message(command) matches Some(message) ==> message.command_byte()
            == byte,
{
}

/// Law: within a category only the newest command is current. A request that is handed to the
/// bus is current when it is, and outdates every earlier one of its category.
pub proof fn law_newest_request_of_a_category_is_current(
    board: BoardState,
    command: GroundCommand,
    older: CanTxRequest,
)
    requires
        spec_get_target_can_message(command) is Some,
    ensures
        board.actions_for(command).dispatch matches CanDispatch::Queue(request)
            ==> board.after_command(command).spec_is_current(request),
        older.command.spec_category() == command.spec_category() && !(command.spec_category()
            is Other) && older.generation != board.next_generation.wrapping_add(1)
            ==> !board.after_command(command).spec_is_current(older),
{
}

/// Law: a command leaves the queued requests of the other categories alone.
pub proof fn law_categories_do_not_interfere(
    board: BoardState,
    command: GroundCommand,
    older: CanTxRequest,
)
    requires
        older.command.spec_category() != command.spec_category(),
    ensures
        board.after_command(command).spec_is_current(older) == board.spec_is_current(older),
{
}

/// Law: an emergency stop goes ahead of the ordinary queue, whatever the board is doing.
pub proof fn law_emergency_stop_always_goes_first(board: BoardState)
    ensures
        board.actions_for(GroundCommand::EmergencyStopPara).dispatch matches CanDispatch::Preempt(
            request,
        ) && request.message is EmergencyStopPara && request.tracking_token == Some(
            board.after_command(GroundCommand::EmergencyStopPara).next_generation,
        ),
        board.after_command(GroundCommand::EmergencyStopPara).request.spec_in_flight_command()
            == Some(GroundCommand::EmergencyStopPara),
{
}

/// Law: while an emergency stop is in flight, a sequence command that has something to do is
/// neither sent nor tracked.
pub proof fn law_emergency_stop_in_flight_is_not_displaced(
    board: BoardState,
    command: GroundCommand,
)
    requires
        board.request.spec_in_flight_command() == Some(GroundCommand::EmergencyStopPara),
        command is StartSequence || command is StopSequence,
        !board.satisfies(command),
    ensures
        board.after_command(command).request == board.request,
        board.actions_for(command).dispatch is RejectedBySafetyRequest,
{
}

/// Law: a command whose goal the controller already reports is not sent.
pub proof fn law_satisfied_commands_are_not_sent(board: BoardState, command: GroundCommand)
    requires
        board.satisfies(command),
    ensures
        board.actions_for(command).dispatch is AlreadySatisfied,
        board.after_command(command).request is AlreadySatisfied,
{
}

/// Law: stopping the sequence stops neither the log nor the GNSS receiver.
pub proof fn law_sequence_stop_keeps_logging(board: BoardState)
    ensures
        board.after_command(GroundCommand::StopSequence).logging_requested
            == board.logging_requested,
        board.actions_for(GroundCommand::StopSequence).gnss is None,
        !board.actions_for(GroundCommand::StopSequence).flush_sd,
{
}

/// Law: replacing a request in flight is recorded as a failure of the replaced request.
pub proof fn law_replaced_requests_are_recorded(board: BoardState, command: GroundCommand)
    requires
        board.request.spec_is_in_flight(),
        command.spec_is_confirmed_by_controller_status(),
        !board.satisfies(command),
        !board.blocks(command),
    ensures
        board.after_command(command).last_command_failure == board.superseded_request(),
        board.superseded_request() is Some,
        board.actions_for(command).superseded == board.superseded_request(),
        board.after_command(command).command_request_failure_count
            == board.command_request_failure_count.wrapping_add(1),
{
}

/// The controller last reported an active sequence.
pub open spec fn sequence_reported_active(board: BoardState) -> bool {
    board.controller.status matches Some(status) && status.byte() / 32 % 2 == 1
}

/// The controller last reported that the sequence is not active.
pub open spec fn sequence_reported_inactive(board: BoardState) -> bool {
    board.controller.status matches Some(status) && status.byte() / 32 % 2 == 0
}

/// An emergency stop is queued or sent and not settled.
pub open spec fn emergency_stop_pending(board: BoardState) -> bool {
    match board.request {
        CommandRequestState::Queued { command, .. } => command is EmergencyStopPara,
        CommandRequestState::AwaitingConfirmation { command, .. } => command is EmergencyStopPara,
        _ => false,
    }
}

/// The request carries this byte under this identifier, with the number that follows the last
/// one given out.
pub open spec fn is_numbered_frame(
    board: BoardState,
    request: CanTxRequest,
    id: u16,
    byte: u8,
) -> bool {
    &&& request.message.spec_id() == id
    &&& request.message.command_byte() == byte
    &&& GroundCommand::spec_decode_legacy(byte) == Some(request.command)
    &&& request.generation == (board.next_generation + 1) % 0x1_0000_0000
}

/// Law: which frame each byte from the ground becomes. Fin, log and parachute commands are always
/// queued; an emergency stop always goes ahead; a sequence command is queued unless the
/// controller already reports its goal or an emergency stop is pending; the GNSS commands have
/// no frame. Sequence commands and emergency stops are followed under their number.
pub proof fn law_bytes_become_frames(board: BoardState, byte: u8, command: GroundCommand)
    requires
        GroundCommand::spec_decode_legacy(byte) == Some(command),
    ensures
        ({
            let dispatch = board.actions_for(command).dispatch;
            let plain = |id: u16|
                dispatch matches CanDispatch::Queue(request) && is_numbered_frame(
                    board,
                    request,
                    id,
                    byte,
                ) && request.tracking_token is None;
            let sequence = |id: u16, satisfied: bool|
                if satisfied {
                    dispatch is AlreadySatisfied
                } else if emergency_stop_pending(board) {
                    dispatch is RejectedBySafetyRequest
                } else {
                    dispatch matches CanDispatch::Queue(request) && is_numbered_frame(
                        board,
                        request,
                        id,
                        byte,
                    ) && request.tracking_token == Some(request.generation)
                };
            &&& byte == 0x45 ==> plain(0x001)
            &&& byte == 0x6c ==> plain(0x011)
            &&& byte == 0x6d ==> plain(0x01e)
            &&& byte == 0x6f ==> plain(0x30d)
            &&& byte == 0x63 ==> plain(0x30e)
            &&& byte == 0x73 ==> sequence(0x005, sequence_reported_active(board))
            &&& byte == 0x71 ==> sequence(0x00a, sequence_reported_inactive(board))
            &&& byte == 0x7a ==> (dispatch matches CanDispatch::Preempt(request)
                && is_numbered_frame(board, request, 0x003, byte) && request.tracking_token == Some(
                request.generation,
            ))
            &&& byte == 0x67 || byte == 0x68 ==> dispatch is Nothing
        }),
{
    if let Some(status) = board.controller.status {
        crate::can::protocol::law_status_bits_are_binary_digits(status.byte());
    }
}

/// Law: what each byte from the ground does on this board at once: to the log, to the GNSS receiver
/// and to the flush of the card.
pub proof fn law_bytes_act_on_this_board(board: BoardState, byte: u8, command: GroundCommand)
    requires
        GroundCommand::spec_decode_legacy(byte) == Some(command),
    ensures
        board.after_command(command).logging_requested == (if byte == 0x73 || byte == 0x6c {
            true
        } else if byte == 0x6d {
            false
        } else {
            board.logging_requested
        }),
        board.actions_for(command).gnss == (if byte == 0x73 || byte == 0x67 {
            Some(GnssCommand::TurnOn)
        } else if byte == 0x68 {
            Some(GnssCommand::TurnOff)
        } else {
            None
        }),
        board.actions_for(command).flush_sd <==> byte == 0x6d,
{
}

/// Law: every command with a frame takes the next number, also when it is not sent, and that is
/// then the latest of its category; all other numbers stay. The two GNSS commands take none.
pub proof fn law_commands_are_numbered(board: BoardState, byte: u8, command: GroundCommand)
    requires
        GroundCommand::spec_decode_legacy(byte) == Some(command),
    ensures
        ({
            let after = board.after_command(command);
            let number = (board.next_generation + 1) % 0x1_0000_0000;
            &&& after.next_generation == (if byte == 0x67 || byte == 0x68 {
                board.next_generation as int
            } else {
                number
            })
            &&& after.latest_sequence_generation == (if byte == 0x73 || byte == 0x71 {
                number
            } else {
                board.latest_sequence_generation as int
            })
            &&& after.latest_logging_generation == (if byte == 0x6c || byte == 0x6d {
                number
            } else {
                board.latest_logging_generation as int
            })
            &&& after.latest_para_position_generation == (if byte == 0x6f || byte == 0x63 {
                number
            } else {
                board.latest_para_position_generation as int
            })
        }),
{
}

/// Law: what a command does to the request that is followed. One that is queued or goes ahead takes
/// its place under its number, and what it displaces while in flight is remembered as superseded
/// and counted; one whose goal is already reported is noted as such; any other command leaves the
/// request alone. No command touches the counts of what was received.
pub proof fn law_commands_and_the_followed_request(
    board: BoardState,
    byte: u8,
    command: GroundCommand,
)
    requires
        GroundCommand::spec_decode_legacy(byte) == Some(command),
    ensures
        ({
            let after = board.after_command(command);
            let actions = board.actions_for(command);
            let followed = byte == 0x73 || byte == 0x71 || byte == 0x7a;
            let sent = followed && (actions.dispatch is Queue || actions.dispatch is Preempt);
            &&& sent ==> after.request == (CommandRequestState::Queued {
                token: after.next_generation,
                command,
            })
            &&& actions.dispatch is AlreadySatisfied ==> after.request == (
            CommandRequestState::AlreadySatisfied { token: after.next_generation, command })
            &&& !sent && !(actions.dispatch is AlreadySatisfied) ==> after.request == board.request
            &&& sent && board.request.spec_is_in_flight() ==> {
                &&& after.last_command_failure == actions.superseded
                &&& actions.superseded matches Some(record) && Some(
                    (record.token, record.command),
                ) == board.request.request() && record.reason is Superseded
                &&& after.command_request_failure_count == (board.command_request_failure_count + 1)
                    % 0x1_0000_0000
            }
            &&& !sent || !board.request.spec_is_in_flight() ==> {
                &&& after.last_command_failure == board.last_command_failure
                &&& after.command_request_failure_count == board.command_request_failure_count
                &&& actions.superseded is None
            }
            &&& after.controller_status_rx_count == board.controller_status_rx_count
            &&& after.legacy_liftoff_top_rx_count == board.legacy_liftoff_top_rx_count
            &&& after.fin_angle_dropped_count == board.fin_angle_dropped_count
        }),
{
}

} // verus!
