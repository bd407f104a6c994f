//! What holds of the board over any course of events.

use vstd::prelude::*;

use crate::can::command::{CommandCategory, CommandRequestState, GroundCommand};
use crate::can::protocol::{CanRxMessage, ControllerStatus};
use crate::command_process::CanDispatch;
use crate::constants::COMMAND_CONFIRM_TIMEOUT_MS;
use crate::state::{BoardState, CanTxRequest};

verus! {

/// Everything that can happen to the board.
pub enum BoardEvent {
    Received { message: CanRxMessage, now_ms: u64 },
    Command { command: GroundCommand },
    Transmitted { request: CanTxRequest, now_ms: u64 },
    TransmitFailed { request: CanTxRequest },
    ClockChecked { now_ms: u64 },
    Fix { valid: bool, latitude: Option<i32>, longitude: Option<i32>, height: Option<i16> },
    DownlinkPrepared,
}

/// The board after an event.
pub open spec fn after_event(board: BoardState, event: BoardEvent) -> BoardState {
    match event {
        BoardEvent::Received { message, now_ms } => board.after_message(message, now_ms),
        BoardEvent::Command { command } => board.after_command(command),
        BoardEvent::Transmitted { request, now_ms } => board.after_transmission(request, now_ms),
        BoardEvent::TransmitFailed { request } => board.after_failed_transmission(request),
        BoardEvent::ClockChecked { now_ms } => board.with_request(
            board.request.spec_expire(now_ms, COMMAND_CONFIRM_TIMEOUT_MS),
        ),
        BoardEvent::Fix { valid, latitude, longitude, height } => board.after_fix(
            valid,
            latitude,
            longitude,
            height,
        ),
        BoardEvent::DownlinkPrepared => BoardState { payload: board.payload.sealed(), ..board },
    }
}

/// The board after a course of events.
pub open spec fn after_events(board: BoardState, events: Seq<BoardEvent>) -> BoardState
    decreases events.len(),
{
    if events.len() == 0 {
        board
    } else {
        after_event(after_events(board, events.drop_last()), events.last())
    }
}

/// The last status that the controller reported during a course of events.
pub open spec fn last_reported(events: Seq<BoardEvent>) -> Option<ControllerStatus>
    decreases events.len(),
{
    if events.len() == 0 {
        None
    } else {
        match events.last() {
            BoardEvent::Received { message: CanRxMessage::ControllerStatus { status }, .. } => Some(
                status,
            ),
            _ => last_reported(events.drop_last()),
        }
    }
}

/// Law: whatever happens, the status that the board sends down is the last one that the
/// controller reported, and so is what the board knows of the controller. Commands, their
/// transmission, waiting, fixes, legacy notices and downlinks have no part in it.
pub proof fn law_only_the_controller_determines_the_status(
    board: BoardState,
    events: Seq<BoardEvent>,
)
    ensures
        after_events(board, events).payload.status == match last_reported(events) {
            Some(status) => status.byte(),
            None => board.payload.status,
        },
        after_events(board, events).controller.status == match last_reported(events) {
            Some(status) => Some(status),
            None => board.controller.status,
        },
    decreases events.len(),
{
    if events.len() > 0 {
        law_only_the_controller_determines_the_status(board, events.drop_last());
    }
}

/// The request is an emergency stop that counts as completed.
pub open spec fn emergency_stop_completed(request: CommandRequestState) -> bool {
    request matches CommandRequestState::Completed { command, .. } && command is EmergencyStopPara
}

/// Law: whatever happens, no emergency stop comes to count as completed.
pub proof fn law_no_emergency_stop_is_ever_completed(board: BoardState, events: Seq<BoardEvent>)
    requires
        !emergency_stop_completed(board.request),
    ensures
        !emergency_stop_completed(after_events(board, events).request),
    decreases events.len(),
{
    if events.len() > 0 {
        law_no_emergency_stop_is_ever_completed(board, events.drop_last());
    }
}

/// Law: a request that has failed or completed is only ever replaced by a new command: nothing
/// sends it again.
pub proof fn law_settled_requests_wait_for_a_new_command(
    board: BoardState,
    events: Seq<BoardEvent>,
)
    requires
        !board.request.spec_is_in_flight(),
        forall|i: int| 0 <= i < events.len() ==> !(#[trigger] events[i] is Command),
    ensures
        after_events(board, events).request == board.request,
        after_events(board, events).command_request_failure_count
            == board.command_request_failure_count,
    decreases events.len(),
{
    if events.len() > 0 {
        let earlier = events.drop_last();
        assert forall|i: int| 0 <= i < earlier.len() implies !(#[trigger] earlier[i] is Command) by {
            assert(earlier[i] == events[i]);
        }
        law_settled_requests_wait_for_a_new_command(board, earlier);
        assert(!(events[events.len() - 1] is Command));
    }
}

/// Law: apart from a start or stop of the log and the start of the sequence, nothing changes
/// whether rows are to be recorded.
pub proof fn law_only_three_commands_decide_about_logging(board: BoardState, event: BoardEvent)
    ensures
        after_event(board, event).logging_requested != board.logging_requested ==> (
        event matches BoardEvent::Command { command } && (command is StartSequence
            || command is StartLogging || command is StopLogging)),
        after_event(
            board,
            BoardEvent::Command { command: GroundCommand::StartSequence },
        ).logging_requested,
        after_event(
            board,
            BoardEvent::Command { command: GroundCommand::StartLogging },
        ).logging_requested,
        !after_event(
            board,
            BoardEvent::Command { command: GroundCommand::StopLogging },
        ).logging_requested,
{
}

/// Number of commands in a course of events.
pub open spec fn commands_among(events: Seq<BoardEvent>) -> nat
    decreases events.len(),
{
    if events.len() == 0 {
        0
    } else {
        commands_among(events.drop_last()) + if events.last() is Command {
            1nat
        } else {
            0
        }
    }
}

/// The event is a command of this category.
pub open spec fn is_command_of(event: BoardEvent, category: CommandCategory) -> bool {
    event matches BoardEvent::Command { command } && command.spec_category() == category
}

/// A command of this category is among the events.
pub open spec fn has_command_of(events: Seq<BoardEvent>, category: CommandCategory) -> bool {
    exists|i: int| 0 <= i < events.len() && is_command_of(#[trigger] events[i], category)
}

/// How many generations lie between two numbers of the counter, which goes round.
pub open spec fn generations_between(earlier: u32, later: u32) -> int {
    if later >= earlier {
        later - earlier
    } else {
        later - earlier + 0x1_0000_0000
    }
}

/// The generation that is the latest of a category.
pub open spec fn latest_of(board: BoardState, category: CommandCategory) -> u32 {
    match category {
        CommandCategory::Sequence => board.latest_sequence_generation,
        CommandCategory::Logging => board.latest_logging_generation,
        CommandCategory::ParachutePosition => board.latest_para_position_generation,
        CommandCategory::Other => board.next_generation,
    }
}

proof fn lemma_one_more_command(has: Seq<BoardEvent>, category: CommandCategory)
    requires
        has.len() > 0,
    ensures
        has_command_of(has, category) <==> has_command_of(has.drop_last(), category)
            || is_command_of(has.last(), category),
{
    let earlier = has.drop_last();
    if has_command_of(earlier, category) {
        let i = choose|i: int|
            0 <= i < earlier.len() && is_command_of(#[trigger] earlier[i], category);
        assert(is_command_of(has[i], category));
    }
    if is_command_of(has.last(), category) {
        assert(is_command_of(has[has.len() - 1], category));
    }
    if has_command_of(has, category) && !is_command_of(has.last(), category) {
        let i = choose|i: int| 0 <= i < has.len() && is_command_of(#[trigger] has[i], category);
        assert(i < earlier.len());
        assert(is_command_of(earlier[i], category));
    }
}

proof fn lemma_generations_advance(
    board: BoardState,
    generation: u32,
    category: CommandCategory,
    events: Seq<BoardEvent>,
)
    requires
        generation == board.next_generation,
        generation == latest_of(board, category),
        !(category is Other),
        commands_among(events) < 0x1_0000_0000,
    ensures
        generations_between(generation, after_events(board, events).next_generation)
            <= commands_among(events),
        has_command_of(events, category) ==> 1 <= generations_between(
            generation,
            latest_of(after_events(board, events), category),
        ) <= generations_between(generation, after_events(board, events).next_generation),
        !has_command_of(events, category) ==> latest_of(after_events(board, events), category)
            == generation,
    decreases events.len(),
{
    if events.len() > 0 {
        lemma_generations_advance(board, generation, category, events.drop_last());
        lemma_one_more_command(events, category);
    }
}

/// Law: of the requests of a category only the newest is sent. A request that a command hands to
/// the bus is current, after any course of events, exactly as long as no later command of its
/// category is among them; requests that do not replace one another stay current. This holds as
/// long as the generation counter does not come round to the request again.
pub proof fn law_only_the_newest_request_is_current(
    board: BoardState,
    command: GroundCommand,
    request: CanTxRequest,
    events: Seq<BoardEvent>,
)
    requires
        board.actions_for(command).dispatch == CanDispatch::Queue(request) || board.actions_for(
            command,
        ).dispatch == CanDispatch::Preempt(request),
        commands_among(events) < 0x1_0000_0000,
    ensures
        after_events(board.after_command(command), events).spec_is_current(request) <==> (
        command.spec_category() is Other || !has_command_of(events, command.spec_category())),
{
    if !(command.spec_category() is Other) {
        lemma_generations_advance(
            board.after_command(command),
            request.generation,
            command.spec_category(),
            events,
        );
    }
}

/// The position of the last fix among the events that was valid and complete.
pub open spec fn last_position(events: Seq<BoardEvent>) -> Option<(i32, i32, i16)>
    decreases events.len(),
{
    if events.len() == 0 {
        None
    } else {
        match events.last() {
            BoardEvent::Fix {
                valid: true,
                latitude: Some(latitude),
                longitude: Some(longitude),
                height: Some(height),
            } => Some((latitude, longitude, height)),
            _ => last_position(events.drop_last()),
        }
    }
}

/// Law: whatever happens, and whatever the record held before, the position in it is that of the
/// last fix that was valid and complete.
pub proof fn law_position_is_that_of_the_last_fix(board: BoardState, events: Seq<BoardEvent>)
    ensures
        ({
            let record = after_events(board, events).payload;
            match last_position(events) {
                Some((latitude, longitude, height)) => record.gnss_lat == latitude
                    && record.gnss_long == longitude && record.gnss_height == height,
                None => record.gnss_lat == board.payload.gnss_lat && record.gnss_long
                    == board.payload.gnss_long && record.gnss_height == board.payload.gnss_height,
            }
        }),
    decreases events.len(),
{
    if events.len() > 0 {
        law_position_is_that_of_the_last_fix(board, events.drop_last());
    }
}

/// The angular rate that was received last among the events.
pub open spec fn last_angle_speed(events: Seq<BoardEvent>) -> Option<[i16; 3]>
    decreases events.len(),
{
    if events.len() == 0 {
        None
    } else {
        match events.last() {
            BoardEvent::Received { message: CanRxMessage::AngleSpeed { xyz }, .. } => Some(xyz),
            _ => last_angle_speed(events.drop_last()),
        }
    }
}

/// The acceleration that was received last among the events.
pub open spec fn last_acceleration(events: Seq<BoardEvent>) -> Option<[i16; 3]>
    decreases events.len(),
{
    if events.len() == 0 {
        None
    } else {
        match events.last() {
            BoardEvent::Received { message: CanRxMessage::Acceleration { xyz }, .. } => Some(xyz),
            _ => last_acceleration(events.drop_last()),
        }
    }
}

/// The integrated angle that was received last among the events.
pub open spec fn last_integrated_angle(events: Seq<BoardEvent>) -> Option<[i16; 3]>
    decreases events.len(),
{
    if events.len() == 0 {
        None
    } else {
        match events.last() {
            BoardEvent::Received { message: CanRxMessage::AccumulatedAngle { xyz }, .. } => Some(
                xyz,
            ),
            _ => last_integrated_angle(events.drop_last()),
        }
    }
}

/// The pressure that was received last among the events.
pub open spec fn last_air_pressure(events: Seq<BoardEvent>) -> Option<[u8; 3]>
    decreases events.len(),
{
    if events.len() == 0 {
        None
    } else {
        match events.last() {
            BoardEvent::Received { message: CanRxMessage::AirPressure { bytes }, .. } => Some(
                bytes,
            ),
            _ => last_air_pressure(events.drop_last()),
        }
    }
}

/// Law: whatever happens, every telemetry field of the record holds what its own frame brought
/// last, and the fields that no frame fills stay as they were.
pub proof fn law_record_holds_what_came_last(board: BoardState, events: Seq<BoardEvent>)
    ensures
        ({
            let before = board.payload;
            let record = after_events(board, events).payload;
            &&& record.angle_speed == match last_angle_speed(events) {
                Some(xyz) => xyz,
                None => before.angle_speed,
            }
            &&& record.acceleration == match last_acceleration(events) {
                Some(xyz) => xyz,
                None => before.acceleration,
            }
            &&& record.integrated_angle == match last_integrated_angle(events) {
                Some(xyz) => xyz,
                None => before.integrated_angle,
            }
            &&& record.air_pressure == match last_air_pressure(events) {
                Some(bytes) => bytes,
                None => before.air_pressure,
            }
            &&& record.air_speed == before.air_speed && record.fin_angle == before.fin_angle
            &&& record.add_h == before.add_h && record.add_l == before.add_l && record.chnnl
                == before.chnnl && record.header1 == before.header1
        }),
    decreases events.len(),
{
    if events.len() > 0 {
        law_record_holds_what_came_last(board, events.drop_last());
    }
}

/// Number of controller statuses among the events.
pub open spec fn statuses_among(events: Seq<BoardEvent>) -> nat
    decreases events.len(),
{
    if events.len() == 0 {
        0
    } else {
        statuses_among(events.drop_last()) + match events.last() {
            BoardEvent::Received { message: CanRxMessage::ControllerStatus { .. }, .. } => 1nat,
            _ => 0,
        }
    }
}

/// Number of legacy notices among the events.
pub open spec fn notices_among(events: Seq<BoardEvent>) -> nat
    decreases events.len(),
{
    if events.len() == 0 {
        0
    } else {
        notices_among(events.drop_last()) + match events.last() {
            BoardEvent::Received { message: CanRxMessage::LiftOff { .. }, .. } => 1nat,
            BoardEvent::Received { message: CanRxMessage::Top { .. }, .. } => 1nat,
            _ => 0,
        }
    }
}

/// Number of fin angles among the events.
pub open spec fn fin_angles_among(events: Seq<BoardEvent>) -> nat
    decreases events.len(),
{
    if events.len() == 0 {
        0
    } else {
        fin_angles_among(events.drop_last()) + match events.last() {
            BoardEvent::Received { message: CanRxMessage::FinAngle { .. }, .. } => 1nat,
            _ => 0,
        }
    }
}

/// Law: statuses, legacy notices and fin angles are each counted by their own counter, up to its
/// range, and nothing else moves these counters.
pub proof fn law_received_frames_are_counted(board: BoardState, events: Seq<BoardEvent>)
    requires
        board.controller_status_rx_count + statuses_among(events) <= u32::MAX,
        board.legacy_liftoff_top_rx_count + notices_among(events) <= u32::MAX,
        board.fin_angle_dropped_count + fin_angles_among(events) <= u32::MAX,
    ensures
        after_events(board, events).controller_status_rx_count == board.controller_status_rx_count
            + statuses_among(events),
        after_events(board, events).legacy_liftoff_top_rx_count == board.legacy_liftoff_top_rx_count
            + notices_among(events),
        after_events(board, events).fin_angle_dropped_count == board.fin_angle_dropped_count
            + fin_angles_among(events),
    decreases events.len(),
{
    if events.len() > 0 {
        law_received_frames_are_counted(board, events.drop_last());
    }
}

/// Law: a stop or start of the sequence that is queued, sent and then seen in the status is
/// completed under its number, whatever was received, prepared or located in between.
pub proof fn law_sequence_commands_are_confirmed(
    board: BoardState,
    byte: u8,
    command: GroundCommand,
    request: CanTxRequest,
    sent_ms: u64,
    between: Seq<BoardEvent>,
    message: CanRxMessage,
    data: Seq<u8>,
    now_ms: u64,
)
    requires
        GroundCommand::spec_decode_legacy(byte) == Some(command),
        byte == 0x73 || byte == 0x71,
        board.actions_for(command).dispatch == CanDispatch::Queue(request),
        forall|i: int|
            0 <= i < between.len() ==> {
                let event = #[trigger] between[i];
                event is Fix || event is DownlinkPrepared || (
                event matches BoardEvent::Received { message, .. } && !(message
                    is ControllerStatus))
            },
        crate::can::protocol::message_of_frame(message, 0x200, data),
        data[0] / 32 % 2 == (if byte == 0x73 {
            1int
        } else {
            0
        }),
    ensures
        after_event(
            after_events(
                board.after_command(command).after_transmission(request, sent_ms),
                between,
            ),
            BoardEvent::Received { message, now_ms },
        ).request == (CommandRequestState::Completed { token: request.generation, command }),
{
    let sent = board.after_command(command).after_transmission(request, sent_ms);
    lemma_quiet_events_keep_the_request(sent, between);
    crate::can::receive::law_status_frames_confirm_sequence_commands(
        after_events(sent, between),
        message,
        data,
        now_ms,
        request.generation,
        sent_ms,
    );
}

proof fn lemma_quiet_events_keep_the_request(board: BoardState, events: Seq<BoardEvent>)
    requires
        forall|i: int|
            0 <= i < events.len() ==> {
                let event = #[trigger] events[i];
                event is Fix || event is DownlinkPrepared || (
                event matches BoardEvent::Received { message, .. } && !(message
                    is ControllerStatus))
            },
    ensures
        after_events(board, events).request == board.request,
    decreases events.len(),
{
    if events.len() > 0 {
        let earlier = events.drop_last();
        assert forall|i: int| 0 <= i < earlier.len() implies ({
            let event = #[trigger] earlier[i];
            event is Fix || event is DownlinkPrepared || (
            event matches BoardEvent::Received { message, .. } && !(message is ControllerStatus))
        }) by {
            assert(earlier[i] == events[i]);
        }
        lemma_quiet_events_keep_the_request(board, earlier);
        assert(events.last() == events[events.len() - 1]);
    }
}

} // verus!
