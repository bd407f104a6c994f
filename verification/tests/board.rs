use c99l_comboard::can::command::{
    queued_request_is_current, CommandFailure, CommandFailureRecord, CommandPriority,
    CommandRequestState, GroundCommand,
};
use c99l_comboard::can::protocol::{
    CanDecodeError, CanTxMessage, ControllerLinkState, ControllerStatus, ControllerStatusEffects,
    CAN_ID_ACCELERATION, CAN_ID_ACCUMULATED_ANGLE, CAN_ID_AIR_PRESSURE, CAN_ID_ANGLE_SPEED,
    CAN_ID_CONTROLLER_STATUS, CAN_ID_FIN_ANGLE, CAN_ID_LIFT_OFF, CAN_ID_TOP,
};
use c99l_comboard::can::receive::{CanFrameError, CanFrameId};
use c99l_comboard::command_process::{
    get_target_can_message, next_to_send, CanDispatch, CommandActions,
};
use c99l_comboard::state::{BoardState, CanTxRequest, GnssCommand};

const QUIET: ControllerStatusEffects = ControllerStatusEffects {
    sequence_changed: None,
    top_rising: false,
};

fn report_status(board: &mut BoardState, raw: u8) -> ControllerStatusEffects {
    board
        .handle_received_frame(CanFrameId::Standard(CAN_ID_CONTROLLER_STATUS), &[raw], 10)
        .unwrap()
}

fn queued(actions: CommandActions) -> CanTxRequest {
    match actions.dispatch {
        CanDispatch::Queue(request) => request,
        other => panic!("not queued: {:?}", other),
    }
}

#[test]
fn board_starts_without_controller_or_request() {
    let board = BoardState::new();
    assert_eq!(board.payload.status, 0);
    assert_eq!(board.controller.status, None);
    assert_eq!(board.controller.link, ControllerLinkState::Unknown);
    assert_eq!(board.request, CommandRequestState::Idle);
    assert!(!board.logging_requested);
}

#[test]
fn telemetry_frames_fill_the_record() {
    let mut board = BoardState::new();
    let axes = [0x00, 0x01, 0xff, 0xff, 0x7f, 0xff];
    for id in [CAN_ID_ANGLE_SPEED, CAN_ID_ACCELERATION, CAN_ID_ACCUMULATED_ANGLE] {
        assert_eq!(
            board.handle_received_frame(CanFrameId::Standard(id), &axes, 0),
            Ok(QUIET)
        );
    }
    board
        .handle_received_frame(CanFrameId::Standard(CAN_ID_AIR_PRESSURE), &[1, 2, 3], 0)
        .unwrap();
    assert_eq!(board.payload.angle_speed, [1, -1, 32767]);
    assert_eq!(board.payload.acceleration, [1, -1, 32767]);
    assert_eq!(board.payload.integrated_angle, [1, -1, 32767]);
    assert_eq!(board.payload.air_pressure, [1, 2, 3]);
    assert_eq!(board.payload.status, 0);
}

#[test]
fn fin_angles_and_legacy_notices_are_only_counted() {
    let mut board = BoardState::new();
    let before = board.payload.to_bytes();
    board
        .handle_received_frame(CanFrameId::Standard(CAN_ID_FIN_ANGLE), &[1, 2, 3, 4, 5, 6], 0)
        .unwrap();
    board
        .handle_received_frame(CanFrameId::Standard(CAN_ID_LIFT_OFF), &[1], 0)
        .unwrap();
    board
        .handle_received_frame(CanFrameId::Standard(CAN_ID_TOP), &[1], 0)
        .unwrap();
    assert_eq!(board.payload.to_bytes(), before);
    assert_eq!(board.fin_angle_dropped_count, 1);
    assert_eq!(board.legacy_liftoff_top_rx_count, 2);
    assert_eq!(board.controller.status, None);
}

#[test]
fn frames_outside_the_protocol_change_nothing() {
    let mut board = BoardState::new();
    assert_eq!(
        board.handle_received_frame(CanFrameId::Extended(0x200), &[1], 0),
        Err(CanFrameError::Extended(0x200))
    );
    assert_eq!(
        board.handle_received_frame(CanFrameId::Standard(0x7ff), &[1], 0),
        Err(CanFrameError::Invalid(CanDecodeError::UnknownId(0x7ff)))
    );
    assert_eq!(
        board.handle_received_frame(CanFrameId::Standard(0x200), &[1, 2], 0),
        Err(CanFrameError::Invalid(CanDecodeError::InvalidDlc {
            id: 0x200,
            expected: 1,
            actual: 2
        }))
    );
    assert_eq!(board.payload.status, 0);
    assert_eq!(board.controller_status_rx_count, 0);
}

#[test]
fn status_is_reported_and_apogee_triggers_once() {
    let mut board = BoardState::new();
    assert_eq!(
        report_status(&mut board, 0x01),
        ControllerStatusEffects {
            sequence_changed: Some(false),
            top_rising: true
        }
    );
    assert_eq!(report_status(&mut board, 0x01), QUIET);
    assert_eq!(board.payload.status, 0x01);
    assert_eq!(board.controller.link, ControllerLinkState::Online);
    assert_eq!(board.controller.last_seen, Some(10));
    assert_eq!(board.controller_status_rx_count, 2);
    // The reserved bit is kept, and the assigned bits are read all the same.
    assert_eq!(
        report_status(&mut board, 0x30),
        ControllerStatusEffects {
            sequence_changed: Some(true),
            top_rising: false
        }
    );
    assert_eq!(board.payload.status, 0x30);
    assert_eq!(
        board.controller.status,
        Some(ControllerStatus::Unknown(0x30))
    );
}

#[test]
fn sequence_start_is_confirmed_by_the_status() {
    let mut board = BoardState::new();
    let actions = board.process_command(b's');
    assert_eq!(actions.gnss, Some(GnssCommand::TurnOn));
    assert!(!actions.flush_sd);
    assert!(board.logging_requested);
    assert_eq!(board.payload.status, 0);
    let request = queued(actions);
    assert_eq!(
        request.message,
        CanTxMessage::StartSequence { command: b's' }
    );
    assert_eq!(request.tracking_token, Some(1));
    assert!(board.is_current(&request));

    board.transmission_succeeded(&request, 100);
    assert_eq!(board.payload.status, 0);
    report_status(&mut board, 0x00);
    assert!(matches!(
        board.request,
        CommandRequestState::AwaitingConfirmation { .. }
    ));
    report_status(&mut board, 0x20);
    assert_eq!(
        board.request,
        CommandRequestState::Completed {
            token: 1,
            command: GroundCommand::StartSequence
        }
    );
}

#[test]
fn satisfied_sequence_command_is_not_sent() {
    let mut board = BoardState::new();
    report_status(&mut board, 0x20);
    let actions = board.process_command(b's');
    assert_eq!(actions.dispatch, CanDispatch::AlreadySatisfied);
    assert_eq!(
        board.request,
        CommandRequestState::AlreadySatisfied {
            token: 1,
            command: GroundCommand::StartSequence
        }
    );
    assert!(board.logging_requested);
}

#[test]
fn newer_sequence_command_supersedes_the_older() {
    let mut board = BoardState::new();
    let first = queued(board.process_command(b's'));
    let actions = board.process_command(b'q');
    let second = queued(actions);
    let record = CommandFailureRecord {
        token: 1,
        command: GroundCommand::StartSequence,
        reason: CommandFailure::Superseded,
    };
    assert_eq!(actions.superseded, Some(record));
    assert_eq!(board.last_command_failure, Some(record));
    assert_eq!(board.command_request_failure_count, 1);
    assert!(!board.is_current(&first));
    assert!(board.is_current(&second));
    assert!(board.logging_requested);
}

#[test]
fn emergency_stop_goes_first_and_is_never_completed() {
    let mut board = BoardState::new();
    queued(board.process_command(b's'));
    let actions = board.process_command(b'z');
    let request = match actions.dispatch {
        CanDispatch::Preempt(request) => request,
        other => panic!("not preempted: {:?}", other),
    };
    assert_eq!(
        request.message,
        CanTxMessage::EmergencyStopPara { command: b'z' }
    );
    assert_eq!(
        board.process_command(b's').dispatch,
        CanDispatch::RejectedBySafetyRequest
    );
    board.transmission_succeeded(&request, 100);
    for raw in [0x00, 0x20, 0x40, 0xff] {
        report_status(&mut board, raw);
        assert!(matches!(
            board.request,
            CommandRequestState::AwaitingConfirmation { .. }
        ));
    }
    board.expire_request(599);
    assert!(board.request.is_in_flight());
    board.expire_request(600);
    assert_eq!(
        board.last_command_failure.map(|record| record.reason),
        Some(CommandFailure::ConfirmationTimedOut)
    );
}

#[test]
fn failed_transmission_is_recorded_and_not_repeated() {
    let mut board = BoardState::new();
    let request = queued(board.process_command(b'q'));
    board.transmission_failed(&request);
    assert_eq!(
        board.request,
        CommandRequestState::Failed {
            token: 1,
            command: GroundCommand::StopSequence,
            reason: CommandFailure::TransmitFailed
        }
    );
    assert_eq!(board.command_request_failure_count, 1);
    board.transmission_failed(&request);
    assert_eq!(board.command_request_failure_count, 1);
}

#[test]
fn logging_and_gnss_commands_act_on_this_board() {
    let mut board = BoardState::new();
    let start = queued(board.process_command(b'l'));
    assert_eq!(start.tracking_token, None);
    assert!(board.logging_requested);
    let actions = board.process_command(b'm');
    assert!(actions.flush_sd);
    assert!(!board.logging_requested);
    assert!(!board.is_current(&start));
    let on = board.process_command(b'g');
    assert_eq!(on.gnss, Some(GnssCommand::TurnOn));
    assert_eq!(on.dispatch, CanDispatch::Nothing);
    assert_eq!(
        board.process_command(b'h').gnss,
        Some(GnssCommand::TurnOff)
    );
    assert_eq!(get_target_can_message(GroundCommand::GnssOn), None);
}

#[test]
fn unknown_command_is_ignored() {
    let mut board = BoardState::new();
    let actions = board.process_command(b'x');
    assert_eq!(actions.dispatch, CanDispatch::Nothing);
    assert_eq!(actions.gnss, None);
    assert!(!actions.flush_sd);
    assert_eq!(board.next_generation, 0);
}

#[test]
fn categories_keep_their_own_latest_request() {
    assert!(queued_request_is_current(GroundCommand::OpenPara, 3, 5, 4, 3));
    assert!(!queued_request_is_current(GroundCommand::ClosePara, 2, 5, 4, 3));
    assert!(!queued_request_is_current(GroundCommand::StartLogging, 3, 5, 4, 3));
    assert!(queued_request_is_current(GroundCommand::StopFinControl, 1, 5, 4, 3));
}

#[test]
fn only_the_controller_determines_the_status() {
    let mut board = BoardState::new();
    report_status(&mut board, 0x62);
    let request = queued(board.process_command(b'q'));
    board.transmission_succeeded(&request, 0);
    board.expire_request(10_000);
    board.apply_fix(true, Some(1), Some(2), Some(3));
    board.payload.prepare_downlink();
    board
        .handle_received_frame(CanFrameId::Standard(CAN_ID_TOP), &[1], 0)
        .unwrap();
    board.process_command(b'm');
    assert_eq!(board.payload.status, 0x62);
    assert_eq!(board.controller.status.map(|status| status.raw()), Some(0x62));
    assert!(!board.logging_requested);
}

#[test]
fn unknown_bits_are_told_from_known_ones() {
    assert_eq!(ControllerStatus::from_raw(0xff).unknown_bits(), 0x10);
    assert_eq!(ControllerStatus::from_raw(0xef).unknown_bits(), 0);
    assert_eq!(ControllerStatus::from_raw(0xff).flags().raw(), 0xef);
    assert!(ControllerStatus::from_raw(0x90).parachute_motor_open());
}

#[test]
fn emergency_stop_ranks_and_is_sent_first() {
    assert!(CommandPriority::SafetyCritical > CommandPriority::Normal);
    assert!(CommandPriority::Normal <= CommandPriority::Normal);
    assert_eq!(
        CommandPriority::Normal.max(CommandPriority::SafetyCritical),
        CommandPriority::SafetyCritical
    );
    assert!(GroundCommand::EmergencyStopPara.priority() > GroundCommand::StartSequence.priority());

    let mut board = BoardState::new();
    let ordinary = queued(board.process_command(b'l'));
    let safety = match board.process_command(b'z').dispatch {
        CanDispatch::Preempt(request) => request,
        other => panic!("not preempted: {:?}", other),
    };
    let mut waiting = Some(ordinary);
    assert_eq!(next_to_send(Some(safety), &mut waiting), Some(safety));
    assert_eq!(next_to_send(None, &mut waiting), Some(ordinary));
    assert_eq!(next_to_send(None, &mut waiting), None);
}

#[test]
fn request_is_current_until_a_later_command_of_its_category() {
    let mut board = BoardState::new();
    let open = queued(board.process_command(b'o'));
    board.process_command(b's');
    board.process_command(b'l');
    board.process_command(b'g');
    board.process_command(b'z');
    report_status(&mut board, 0x20);
    board.expire_request(10_000);
    assert!(board.is_current(&open));
    let close = queued(board.process_command(b'c'));
    assert!(!board.is_current(&open));
    assert!(board.is_current(&close));
    let fins = queued(board.process_command(b'E'));
    board.process_command(b'E');
    assert!(board.is_current(&fins));
}

#[test]
fn reading_a_byte_twice_gives_the_same_status() {
    for raw in 0..=255u8 {
        let status = ControllerStatus::from_raw(raw);
        assert_eq!(status, ControllerStatus::from_raw(raw));
        assert_ne!(status, ControllerStatus::from_raw(raw ^ 0x81));
    }
}
