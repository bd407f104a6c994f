use c99l_comboard::lora_timing::{RequestSource, TxTimingTrace};
use c99l_comboard::lora_transmit::{
    aux_wait_outcome, next_transmission, GuardAction, LoraCounters, RxGuard, Transmission, TxEvent,
    TxOutcome, TxStage,
};
use c99l_comboard::payload::{Payload, PAYLOAD_LEN};

fn begin(observes_aux_low: bool) -> Transmission {
    let mut payload = Payload::new();
    payload.status = 7;
    let bytes = payload.prepare_downlink();
    let trace = TxTimingTrace::new(100, RequestSource::Periodic);
    Transmission::begin(bytes, trace, 101, 102, observes_aux_low)
}

#[test]
fn prepared_downlink_checks_out() {
    let mut payload = Payload::new();
    payload.status = 0x21;
    let bytes = payload.prepare_downlink();
    assert_eq!(bytes, payload.to_bytes());
    assert_eq!(&bytes[..5], &[0, 0, 4, 0xaa, 0x21]);
    assert_eq!(bytes[38], 0xaa ^ 0x21);
    assert_eq!(bytes[3..].iter().fold(0, |sum, byte| sum ^ byte), 0);
}

#[test]
fn partial_writes_cover_the_record_in_order() {
    let mut transmission = begin(true);
    assert_eq!(transmission.stage(), TxStage::FirstAux);
    transmission.step(TxEvent::AuxHigh, 103);
    assert_eq!(transmission.stage(), TxStage::RxGuard);
    transmission.step(TxEvent::GuardOver, 104);
    transmission.step(TxEvent::AuxHigh, 105);
    let mut sent = Vec::new();
    for count in [10, 1, 28] {
        assert_eq!(transmission.stage(), TxStage::Writing);
        sent.extend_from_slice(&transmission.remaining()[..count]);
        transmission.step(TxEvent::Written(count), 106);
    }
    assert_eq!(sent.len(), PAYLOAD_LEN);
    assert_eq!(sent[4], 7);
    assert!(transmission.remaining().is_empty());
    assert_eq!(transmission.stage(), TxStage::Flushing);
    transmission.step(TxEvent::Flushed, 107);
    assert_eq!(transmission.stage(), TxStage::AuxLow);
    transmission.step(TxEvent::AuxLowSeen, 108);
    transmission.step(TxEvent::AuxHigh, 109);
    assert_eq!(transmission.stage(), TxStage::Finished(TxOutcome::Sent));
    let trace = transmission.trace();
    assert_eq!(
        [
            trace.t1, trace.t2, trace.t3, trace.t4, trace.t5, trace.t6, trace.t7, trace.t8,
            trace.t9
        ],
        [103, 104, 101, 102, 105, 106, 107, 108, 109].map(Some)
    );
    assert!(!trace.aux_low_not_observed);
}

#[test]
fn missing_aux_low_is_noted() {
    let mut transmission = begin(true);
    for event in [
        TxEvent::AuxHigh,
        TxEvent::GuardOver,
        TxEvent::AuxHigh,
        TxEvent::Written(PAYLOAD_LEN),
        TxEvent::Flushed,
        TxEvent::AuxLowMissed,
        TxEvent::AuxHigh,
    ] {
        transmission.step(event, 110);
    }
    assert!(transmission.trace().aux_low_not_observed);
    assert_eq!(transmission.trace().t8, None);
}

#[test]
fn each_failure_ends_the_transmission() {
    let ready = [TxEvent::AuxHigh, TxEvent::GuardOver, TxEvent::AuxHigh];
    let cases = [
        (vec![TxEvent::AuxTimedOut], TxOutcome::AuxTimedOut),
        (
            [&ready[..], &[TxEvent::Written(0)]].concat(),
            TxOutcome::WriteStalled,
        ),
        (
            [&ready[..], &[TxEvent::WriteFailed]].concat(),
            TxOutcome::WriteFailed,
        ),
        (
            [&ready[..], &[TxEvent::Written(39), TxEvent::FlushFailed]].concat(),
            TxOutcome::FlushFailed,
        ),
        (
            [
                &ready[..],
                &[TxEvent::Written(39), TxEvent::Flushed, TxEvent::AuxTimedOut],
            ]
            .concat(),
            TxOutcome::AuxTimedOut,
        ),
    ];
    for (events, outcome) in cases {
        let mut transmission = begin(false);
        for event in events {
            transmission.step(event, 200);
        }
        assert_eq!(transmission.stage(), TxStage::Finished(outcome));
    }
}

#[test]
fn failures_move_one_counter() {
    let mut counters = LoraCounters::new();
    counters.transmission_ended(TxOutcome::Sent);
    assert_eq!(counters, LoraCounters::new());
    counters.transmission_ended(TxOutcome::AuxTimedOut);
    counters.transmission_ended(TxOutcome::WriteStalled);
    counters.transmission_ended(TxOutcome::WriteFailed);
    counters.transmission_ended(TxOutcome::FlushFailed);
    counters.receive_failed();
    counters.command_dropped();
    counters.command_dropped();
    assert_eq!(
        counters,
        LoraCounters {
            tx_errors: 3,
            rx_errors: 1,
            aux_timeouts: 1,
            dropped_commands: 2
        }
    );
}

#[test]
fn aux_must_be_high_at_the_end_of_the_wait() {
    assert_eq!(aux_wait_outcome(true, false, false), TxEvent::AuxHigh);
    assert_eq!(aux_wait_outcome(false, true, true), TxEvent::AuxHigh);
    assert_eq!(aux_wait_outcome(false, true, false), TxEvent::AuxTimedOut);
    assert_eq!(aux_wait_outcome(false, false, true), TxEvent::AuxTimedOut);
}

#[test]
fn guard_time_restarts_with_every_reception() {
    assert_eq!(RxGuard::new(None, 50).action(0), GuardAction::Proceed);
    let mut guard = RxGuard::new(Some(100), 50);
    assert_eq!(guard.action(120), GuardAction::WaitUntil(150));
    guard.observe(Some(140));
    assert_eq!(guard.action(150), GuardAction::WaitUntil(190));
    assert_eq!(guard.action(190), GuardAction::LookForActivity);
    guard.observe(None);
    assert_eq!(guard.action(190), GuardAction::Proceed);
}

#[test]
fn schedule_keeps_its_pace_until_it_falls_behind() {
    let periodic = RequestSource::Periodic;
    assert_eq!(next_transmission(1000, 1400, 500, periodic), 1500);
    assert_eq!(next_transmission(1000, 1500, 500, periodic), 2000);
    assert_eq!(next_transmission(1000, 1700, 500, periodic), 2200);
    assert_eq!(
        next_transmission(1000, 700, 500, RequestSource::TopTrigger),
        1000
    );
}
