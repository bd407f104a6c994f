//! The state shared by the board's tasks.

use vstd::prelude::*;

use crate::can::command::{
    queued_request_is_current, CommandFailureRecord, CommandRequestState, GroundCommand,
};
use crate::can::protocol::{CanTxMessage, ControllerLinkState, ControllerStatus};
use crate::constants::COMMAND_CONFIRM_TIMEOUT_MS;
use crate::payload::Payload;

verus! {

/// Length of a GNSS sentence buffer.
pub const GNSS_PACKET_LEN: usize = 90;

/// One GNSS sentence, padded with zeros.
pub type GnssPacket = [u8; GNSS_PACKET_LEN];

/// What is known of the controller. Only a received controller status changes it.
#[derive(Clone, Copy, Debug, PartialEq, Eq, Structural)]
pub struct ControllerStatusState {
    pub status: Option<ControllerStatus>,
    /// When the last status arrived, in milliseconds.
    pub last_seen: Option<u64>,
    pub link: ControllerLinkState,
}

impl ControllerStatusState {
    pub open spec fn unknown() -> ControllerStatusState {
        ControllerStatusState { status: None, last_seen: None, link: ControllerLinkState::Unknown }
    }

    pub fn new() -> (state: Self)
        ensures
            state == ControllerStatusState::unknown(),
    {
        ControllerStatusState { status: None, last_seen: None, link: ControllerLinkState::Unknown }
    }
}

impl Default for ControllerStatusState {
    fn default() -> (state: Self)
        ensures
            state == ControllerStatusState::unknown(),
    {
        ControllerStatusState::new()
    }
}

/// An order to the GNSS task.
#[derive(Clone, Copy, Debug, PartialEq, Eq, Structural)]
pub enum GnssCommand {
    TurnOn,
    TurnOff,
}

/// A command frame on its way to the CAN bus.
#[derive(Clone, Copy, Debug, PartialEq, Eq, Structural)]
pub struct CanTxRequest {
    pub message: CanTxMessage,
    /// The token under which the request is tracked, if it is.
    pub tracking_token: Option<u32>,
    pub command: GroundCommand,
    pub generation: u32,
}

impl CanTxRequest {
    pub fn untracked(message: CanTxMessage, command: GroundCommand, generation: u32) -> (request:
        Self)
        ensures
            request == (CanTxRequest { message, tracking_token: None, command, generation }),
    {
        CanTxRequest { message, tracking_token: None, command, generation }
    }

    /// A request that is followed until it settles; its generation serves as the token.
    pub fn with_tracking(
        message: CanTxMessage,
        command: GroundCommand,
        token: u32,
    ) -> (request: Self)
        ensures
            request == (CanTxRequest {
                message,
                tracking_token: Some(token),
                command,
                generation: token,
            }),
    {
        CanTxRequest { message, tracking_token: Some(token), command, generation: token }
    }
}

/// Everything that commands and received frames act on.
///
/// `payload` and `controller` hold what the controller reported. Requests and transmissions
/// leave both alone.
#[derive(Clone, Copy, Debug)]
pub struct BoardState {
    pub payload: Payload,
    pub controller: ControllerStatusState,
    pub controller_status_rx_count: u32,
    pub legacy_liftoff_top_rx_count: u32,
    pub fin_angle_dropped_count: u32,
    pub request: CommandRequestState,
    pub last_command_failure: Option<CommandFailureRecord>,
    pub command_request_failure_count: u32,
    pub logging_requested: bool,
    pub next_generation: u32,
    pub latest_sequence_generation: u32,
    pub latest_logging_generation: u32,
    pub latest_para_position_generation: u32,
}

impl BoardState {
    /// The board with a tracked request in state `next`. A request that has just failed is
    /// recorded and counted.
    pub open spec fn with_request(self, next: CommandRequestState) -> BoardState {
        if self.request.spec_is_in_flight() && next.spec_failure() is Some {
            BoardState {
                request: next,
                last_command_failure: next.spec_failure(),
                command_request_failure_count: self.command_request_failure_count.wrapping_add(1),
                ..self
            }
        } else {
            BoardState { request: next, ..self }
        }
    }

    /// Whether a request taken from the queue is still the latest of its category.
    pub open spec fn spec_is_current(self, request: CanTxRequest) -> bool {
        crate::can::command::spec_queued_request_is_current(
            request.command,
            request.generation,
            self.latest_sequence_generation,
            self.latest_logging_generation,
            self.latest_para_position_generation,
        )
    }

    /// The board once `request` is on the bus.
    pub open spec fn after_transmission(self, request: CanTxRequest, now_ms: u64) -> BoardState {
        match request.tracking_token {
            Some(token) => BoardState {
                request: self.request.spec_mark_transmitted(token, now_ms),
                ..self
            },
            None => self,
        }
    }

    /// The board once `request` could not be sent.
    pub open spec fn after_failed_transmission(self, request: CanTxRequest) -> BoardState {
        match request.tracking_token {
            Some(token) => self.with_request(self.request.spec_mark_transmit_failed(token)),
            None => self,
        }
    }

    pub fn new() -> (board: Self)
        ensures
            board.payload.is_initial(),
            board.controller == ControllerStatusState::unknown(),
            board.controller_status_rx_count == 0,
            board.legacy_liftoff_top_rx_count == 0,
            board.fin_angle_dropped_count == 0,
            board.request is Idle,
            board.last_command_failure is None,
            board.command_request_failure_count == 0,
            !board.logging_requested,
            board.next_generation == 0,
            board.latest_sequence_generation == 0,
            board.latest_logging_generation == 0,
            board.latest_para_position_generation == 0,
    {
        BoardState {
            payload: Payload::new(),
            controller: ControllerStatusState::new(),
            controller_status_rx_count: 0,
            legacy_liftoff_top_rx_count: 0,
            fin_angle_dropped_count: 0,
            request: CommandRequestState::Idle,
            last_command_failure: None,
            command_request_failure_count: 0,
            logging_requested: false,
            next_generation: 0,
            latest_sequence_generation: 0,
            latest_logging_generation: 0,
            latest_para_position_generation: 0,
        }
    }

    pub(crate) fn set_request(&mut self, next: CommandRequestState)
        ensures
            *final(self) == old(self).with_request(next),
    {
        if self.request.is_in_flight() {
            if let Some(record) = next.failure() {
                self.last_command_failure = Some(record);
                self.command_request_failure_count =
                    self.command_request_failure_count.wrapping_add(1);
            }
        }
        self.request = next;
    }

    /// Whether a request taken from the queue is to be sent. A newer request of the same category
    /// makes it stale.
    pub fn is_current(&self, request: &CanTxRequest) -> (current: bool)
        ensures
            current == self.spec_is_current(*request),
    {
        queued_request_is_current(
            request.command,
            request.generation,
            self.latest_sequence_generation,
            self.latest_logging_generation,
            self.latest_para_position_generation,
        )
    }

    /// Notes that a request is on the bus. This says nothing about the controller's state.
    pub fn transmission_succeeded(&mut self, request: &CanTxRequest, now_ms: u64)
        ensures
            *final(self) == old(self).after_transmission(*request, now_ms),
    {
        if let Some(token) = request.tracking_token {
            self.request = self.request.mark_transmitted(token, now_ms);
        }
    }

    /// Notes that a request could not be sent. It is not sent again by itself.
    pub fn transmission_failed(&mut self, request: &CanTxRequest)
        ensures
            *final(self) == old(self).after_failed_transmission(*request),
    {
        if let Some(token) = request.tracking_token {
            let next = self.request.mark_transmit_failed(token);
            self.set_request(next);
        }
    }

    /// Gives up waiting for a confirmation that is overdue.
    pub fn expire_request(&mut self, now_ms: u64)
        ensures
            *final(self) == old(self).with_request(
                old(self).request.spec_expire(now_ms, COMMAND_CONFIRM_TIMEOUT_MS),
            ),
    {
        let next = self.request.expire(now_ms, COMMAND_CONFIRM_TIMEOUT_MS);
        self.set_request(next);
    }
}

/// Law: neither sending a request, nor failing to, nor waiting in vain changes the reported
/// state: the telemetry record and what is known of the controller stay as they are.
pub proof fn law_transmissions_leave_the_reported_state_alone(
    board: BoardState,
    request: CanTxRequest,
    now_ms: u64,
)
    ensures
        same_reported_state(board, board.after_transmission(request, now_ms)),
        same_reported_state(board, board.after_failed_transmission(request)),
        same_reported_state(
            board,
            board.with_request(board.request.spec_expire(now_ms, COMMAND_CONFIRM_TIMEOUT_MS)),
        ),
{
}

/// Both boards report the same telemetry and the same controller state.
pub open spec fn same_reported_state(a: BoardState, b: BoardState) -> bool {
    a.payload == b.payload && a.controller == b.controller
}

/// Law: the transmission of the tracked request starts its wait for a confirmation; any other
/// transmission changes nothing on the board.
pub proof fn law_transmission_starts_the_wait(
    board: BoardState,
    request: CanTxRequest,
    token: u32,
    command: GroundCommand,
    now_ms: u64,
)
    ensures
        ({
            let after = board.after_transmission(request, now_ms);
            let queued = board.request == (CommandRequestState::Queued { token, command });
            &&& queued && request.tracking_token == Some(token) ==> after == (BoardState {
                request: CommandRequestState::AwaitingConfirmation {
                    token,
                    command,
                    transmitted_at_ms: now_ms,
                },
                ..board
            })
            &&& queued && request.tracking_token != Some(token) ==> after == board
            &&& !(board.request is Queued) ==> after == board
        }),
{
}

/// Law: the failed transmission of the tracked request fails it, is remembered and counted; any
/// other failed transmission changes nothing on the board.
pub proof fn law_failed_transmission_is_remembered(
    board: BoardState,
    request: CanTxRequest,
    token: u32,
    command: GroundCommand,
)
    ensures
        ({
            let after = board.after_failed_transmission(request);
            let reason = crate::can::command::CommandFailure::TransmitFailed;
            let queued = board.request == (CommandRequestState::Queued { token, command });
            &&& queued && request.tracking_token == Some(token) ==> after == (BoardState {
                request: CommandRequestState::Failed { token, command, reason },
                last_command_failure: Some(CommandFailureRecord { token, command, reason }),
                command_request_failure_count: after.command_request_failure_count,
                ..board
            }) && after.command_request_failure_count == (board.command_request_failure_count + 1)
                % 0x1_0000_0000
            &&& queued && request.tracking_token != Some(token) ==> after == board
            &&& !(board.request is Queued) ==> after == board
        }),
{
}

/// Law: the board gives a sent request up half a second after its transmission, remembers and
/// counts that; before, and for any other request, time changes nothing on the board.
pub proof fn law_confirmation_is_awaited_for_half_a_second(
    board: BoardState,
    token: u32,
    command: GroundCommand,
    sent_ms: u64,
    now_ms: u64,
)
    ensures
        ({
            let after = board.with_request(
                board.request.spec_expire(now_ms, COMMAND_CONFIRM_TIMEOUT_MS),
            );
            let reason = crate::can::command::CommandFailure::ConfirmationTimedOut;
            let sent = board.request == (CommandRequestState::AwaitingConfirmation {
                token,
                command,
                transmitted_at_ms: sent_ms,
            });
            &&& sent && now_ms >= sent_ms + 500 ==> after == (BoardState {
                request: CommandRequestState::Failed { token, command, reason },
                last_command_failure: Some(CommandFailureRecord { token, command, reason }),
                command_request_failure_count: after.command_request_failure_count,
                ..board
            }) && after.command_request_failure_count == (board.command_request_failure_count + 1)
                % 0x1_0000_0000
            &&& sent && now_ms < sent_ms + 500 ==> after == board
            &&& !(board.request is AwaitingConfirmation) ==> after == board
        }),
{
}

/// Law: a request of the sequence is current while its generation is the latest of the sequence,
/// and so for the log and for the parachute; any other request is always current.
pub proof fn law_currency_of_requests(board: BoardState, request: CanTxRequest)
    ensures
        request.command is StartSequence || request.command is StopSequence
            ==> board.spec_is_current(request) == (request.generation
            == board.latest_sequence_generation),
        request.command is StartLogging || request.command is StopLogging
            ==> board.spec_is_current(request) == (request.generation
            == board.latest_logging_generation),
        request.command is OpenPara || request.command is ClosePara ==> board.spec_is_current(
            request,
        ) == (request.generation == board.latest_para_position_generation),
        request.command is EmergencyStopPara || request.command is StopFinControl
            ==> board.spec_is_current(request),
{
}

} // verus!
