use c99l_comboard::can::runtime::{
    classify_can_health, publish_error_state, transition_runtime, CanHealth, CanRuntime,
    CanRuntimeEvent, CanRuntimeState, CanTxError,
};

#[test]
fn health_follows_the_error_counters() {
    assert_eq!(classify_can_health(0, 0, false), CanHealth::Active);
    assert_eq!(classify_can_health(127, 127, false), CanHealth::Active);
    assert_eq!(classify_can_health(128, 0, false), CanHealth::Passive);
    assert_eq!(classify_can_health(0, 128, false), CanHealth::Passive);
    assert_eq!(classify_can_health(0, 0, true), CanHealth::BusOff);
}

#[test]
fn first_fault_restarts_and_repetitions_do_not() {
    assert_eq!(
        transition_runtime(CanRuntimeState::Normal, CanRuntimeEvent::BusOff),
        (CanRuntimeState::BusRecovering, true)
    );
    assert_eq!(
        transition_runtime(CanRuntimeState::BusRecovering, CanRuntimeEvent::BusOff),
        (CanRuntimeState::BusRecovering, false)
    );
    assert_eq!(
        transition_runtime(
            CanRuntimeState::BusRecovering,
            CanRuntimeEvent::TimedOutUnknownState
        ),
        (CanRuntimeState::TxStateUnknown, false)
    );
    assert_eq!(
        transition_runtime(
            CanRuntimeState::TxStateUnknown,
            CanRuntimeEvent::ReceiveSucceeded
        ),
        (CanRuntimeState::TxStateUnknown, false)
    );
    assert_eq!(
        transition_runtime(
            CanRuntimeState::TxStateUnknown,
            CanRuntimeEvent::TransmitSucceeded
        ),
        (CanRuntimeState::Normal, false)
    );
}

#[test]
fn error_state_needs_traffic_health_and_few_errors() {
    let normal = CanRuntimeState::Normal;
    assert!(!publish_error_state(normal, CanHealth::Active, 2, 2));
    assert!(publish_error_state(normal, CanHealth::Active, 3, 0));
    assert!(publish_error_state(normal, CanHealth::Active, 0, 3));
    assert!(publish_error_state(normal, CanHealth::Passive, 0, 0));
    assert!(publish_error_state(
        CanRuntimeState::AwaitingTraffic,
        CanHealth::Active,
        0,
        0
    ));
}

#[test]
fn transmissions_and_receptions_drive_the_runtime() {
    let mut runtime = CanRuntime::new();
    assert!(runtime.is_error(CanHealth::Active));
    assert!(!runtime.transmitted(Ok(())));
    assert!(!runtime.is_error(CanHealth::Active));
    assert!(!runtime.transmitted(Err(CanTxError::Other)));
    assert_eq!(runtime.consecutive_tx_errors, 1);
    assert!(runtime.transmitted(Err(CanTxError::TimedOutUnknownState)));
    assert!(!runtime.transmitted(Err(CanTxError::BusOff)));
    assert_eq!(runtime.state, CanRuntimeState::BusRecovering);
    assert_eq!(runtime.tx_error_count, 3);
    runtime.received();
    assert_eq!(runtime.state, CanRuntimeState::Normal);
    runtime.frame_rejected();
    assert_eq!(runtime.rx_error_count, 1);
    assert_eq!(runtime.consecutive_rx_errors, 0);
    assert!(runtime.receive_failed(true));
    assert_eq!(runtime.consecutive_rx_errors, 1);
    assert!(!runtime.health_checked(CanHealth::BusOff));
    assert!(!runtime.health_checked(CanHealth::Active));
}
