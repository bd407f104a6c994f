//! Sending a telemetry record over the LoRa modem: the steps of one transmission, the guard time
//! after a reception and the schedule.

use vstd::prelude::*;

use crate::lora_timing::{RequestSource, TxTimingTrace};
use crate::payload::{Payload, PAYLOAD_LEN};

verus! {

/// How a transmission ended.
#[derive(Clone, Copy, Debug, PartialEq, Eq, Structural)]
pub enum TxOutcome {
    Sent,
    /// AUX did not become high in time.
    AuxTimedOut,
    /// The UART accepted no byte.
    WriteStalled,
    WriteFailed,
    FlushFailed,
}

/// What the transmission waits for.
#[derive(Clone, Copy, Debug, PartialEq, Eq, Structural)]
pub enum TxStage {
    /// AUX is to become high before the guard time.
    FirstAux,
    /// The guard time after a reception is to pass.
    RxGuard,
    /// AUX is to be high when the write begins.
    SecondAux,
    /// The UART is to accept the rest of the record.
    Writing,
    Flushing,
    /// AUX is to be seen low, which only the timing statistics need.
    AuxLow,
    /// AUX is to become high again.
    LastAux,
    Finished(TxOutcome),
}

/// What came of the step that the transmission was waiting for.
#[derive(Clone, Copy, Debug, PartialEq, Eq, Structural)]
pub enum TxEvent {
    AuxHigh,
    AuxTimedOut,
    GuardOver,
    /// The UART accepted this many of the remaining bytes.
    Written(usize),
    WriteFailed,
    Flushed,
    FlushFailed,
    AuxLowSeen,
    AuxLowMissed,
}

/// Counters of the radio link.
#[derive(Clone, Copy, Debug, PartialEq, Eq, Structural)]
pub struct LoraCounters {
    pub tx_errors: u32,
    pub rx_errors: u32,
    pub aux_timeouts: u32,
    pub dropped_commands: u32,
}

/// One transmission under way.
pub struct Transmission {
    bytes: [u8; PAYLOAD_LEN],
    written: usize,
    stage: TxStage,
    observes_aux_low: bool,
    trace: TxTimingTrace,
}

/// A transmission: the record on the wire, how much of it the UART has accepted, what is awaited
/// and when things happened.
#[verifier::ext_equal]
pub struct TxProgress {
    pub bytes: Seq<u8>,
    pub written: nat,
    pub stage: TxStage,
    pub observes_aux_low: bool,
    pub trace: TxTimingTrace,
}

impl TxProgress {
    /// The event answers what the transmission waits for, and a write accepts no more than it
    /// was given.
    pub open spec fn awaits(self, event: TxEvent) -> bool {
        match self.stage {
            TxStage::FirstAux => event is AuxHigh || event is AuxTimedOut,
            TxStage::RxGuard => event is GuardOver,
            TxStage::SecondAux => event is AuxHigh || event is AuxTimedOut,
            TxStage::Writing => event is WriteFailed || (event matches TxEvent::Written(count)
                && count <= self.bytes.len() - self.written),
            TxStage::Flushing => event is Flushed || event is FlushFailed,
            TxStage::AuxLow => event is AuxLowSeen || event is AuxLowMissed,
            TxStage::LastAux => event is AuxHigh || event is AuxTimedOut,
            TxStage::Finished(_) => false,
        }
    }

    /// The stage after an event.
    pub open spec fn next_stage(self, event: TxEvent) -> TxStage {
        match (self.stage, event) {
            (_, TxEvent::AuxTimedOut) => TxStage::Finished(TxOutcome::AuxTimedOut),
            (_, TxEvent::WriteFailed) => TxStage::Finished(TxOutcome::WriteFailed),
            (_, TxEvent::FlushFailed) => TxStage::Finished(TxOutcome::FlushFailed),
            (TxStage::FirstAux, _) => TxStage::RxGuard,
            (TxStage::RxGuard, _) => TxStage::SecondAux,
            (TxStage::SecondAux, _) => TxStage::Writing,
            (TxStage::Writing, TxEvent::Written(count)) => if count == 0 {
                TxStage::Finished(TxOutcome::WriteStalled)
            } else if self.written + count < self.bytes.len() {
                TxStage::Writing
            } else {
                TxStage::Flushing
            },
            (TxStage::Flushing, _) => if self.observes_aux_low {
                TxStage::AuxLow
            } else {
                TxStage::LastAux
            },
            (TxStage::AuxLow, _) => TxStage::LastAux,
            (TxStage::LastAux, _) => TxStage::Finished(TxOutcome::Sent),
            (stage, _) => stage,
        }
    }

    /// The time stamps after an event at `now_us`. A step that fails leaves no stamp.
    pub open spec fn stamped(self, event: TxEvent, now_us: u64) -> TxTimingTrace {
        let at = Some(now_us);
        match (self.stage, event) {
            (TxStage::FirstAux, TxEvent::AuxHigh) => TxTimingTrace { t1: at, ..self.trace },
            (TxStage::RxGuard, TxEvent::GuardOver) => TxTimingTrace { t2: at, ..self.trace },
            (TxStage::SecondAux, TxEvent::AuxHigh) => TxTimingTrace { t5: at, ..self.trace },
            (TxStage::Writing, TxEvent::Written(_)) => if self.next_stage(event) is Flushing {
                TxTimingTrace { t6: at, ..self.trace }
            } else {
                self.trace
            },
            (TxStage::Flushing, TxEvent::Flushed) => TxTimingTrace { t7: at, ..self.trace },
            (TxStage::AuxLow, TxEvent::AuxLowSeen) => TxTimingTrace { t8: at, ..self.trace },
            (TxStage::AuxLow, TxEvent::AuxLowMissed) => TxTimingTrace {
                aux_low_not_observed: true,
                ..self.trace
            },
            (TxStage::LastAux, TxEvent::AuxHigh) => TxTimingTrace { t9: at, ..self.trace },
            _ => self.trace,
        }
    }

    /// The transmission after an event at `now_us`.
    pub open spec fn after(self, event: TxEvent, now_us: u64) -> TxProgress {
        TxProgress {
            written: match event {
                TxEvent::Written(count) => self.written + count as nat,
                _ => self.written,
            },
            stage: self.next_stage(event),
            trace: self.stamped(event, now_us),
            ..self
        }
    }
}

impl View for Transmission {
    type V = TxProgress;

    closed spec fn view(&self) -> TxProgress {
        TxProgress {
            bytes: self.bytes@,
            written: self.written as nat,
            stage: self.stage,
            observes_aux_low: self.observes_aux_low,
            trace: self.trace,
        }
    }
}

/// A transmission that has just begun with a prepared record.
pub open spec fn begun(
    bytes: Seq<u8>,
    trace: TxTimingTrace,
    observes_aux_low: bool,
) -> TxProgress {
    TxProgress { bytes, written: 0, stage: TxStage::FirstAux, observes_aux_low, trace }
}

impl Payload {
    /// Puts a matching checksum into the record and returns it as it goes over the air.
    pub fn prepare_downlink(&mut self) -> (bytes: [u8; PAYLOAD_LEN])
        ensures
            *final(self) == old(self).sealed(),
            bytes@ == old(self).sealed().wire(),
    {
        self.check_sum = self.calculate_checksum();
        self.to_bytes()
    }
}

impl Transmission {
    #[verifier::type_invariant]
    spec fn accepted_no_more_than_given(self) -> bool {
        self.written <= PAYLOAD_LEN
    }

    /// Begins to transmit a record that was prepared from `prepare_start_us` to `prepare_end_us`.
    pub fn begin(
        bytes: [u8; PAYLOAD_LEN],
        trace: TxTimingTrace,
        prepare_start_us: u64,
        prepare_end_us: u64,
        observes_aux_low: bool,
    ) -> (transmission: Self)
        ensures
            transmission@ == begun(
                bytes@,
                (TxTimingTrace { t3: Some(prepare_start_us), t4: Some(prepare_end_us), ..trace }),
                observes_aux_low,
            ),
    {
        let mut trace = trace;
        trace.t3 = Some(prepare_start_us);
        trace.t4 = Some(prepare_end_us);
        Transmission { bytes, written: 0, stage: TxStage::FirstAux, observes_aux_low, trace }
    }

    /// What the transmission waits for.
    pub fn stage(&self) -> (stage: TxStage)
        ensures
            stage == self@.stage,
    {
        self.stage
    }

    /// The time stamps so far.
    pub fn trace(&self) -> (trace: TxTimingTrace)
        ensures
            trace == self@.trace,
    {
        self.trace
    }

    /// The bytes that the UART has not accepted yet.
    pub fn remaining(&self) -> (rest: &[u8])
        ensures
            rest@ == self@.bytes.skip(self@.written as int),
    {
        proof {
            use_type_invariant(self);
        }
        let all: &[u8] = self.bytes.as_slice();
        let rest: &[u8] = vstd::slice::slice_subrange(all, self.written, PAYLOAD_LEN);
        assert(rest@ =~= self@.bytes.skip(self@.written as int));
        rest
    }

    /// Takes what came of the step that the transmission was waiting for.
    pub fn step(&mut self, event: TxEvent, now_us: u64)
        requires
            old(self)@.awaits(event),
        ensures
            final(self)@ == old(self)@.after(event, now_us),
    {
        proof {
            use_type_invariant(&*self);
        }
        let at = Some(now_us);
        self.stage = match (self.stage, event) {
            (_, TxEvent::AuxTimedOut) => TxStage::Finished(TxOutcome::AuxTimedOut),
            (_, TxEvent::WriteFailed) => TxStage::Finished(TxOutcome::WriteFailed),
            (_, TxEvent::FlushFailed) => TxStage::Finished(TxOutcome::FlushFailed),
            (TxStage::FirstAux, _) => {
                self.trace.t1 = at;
                TxStage::RxGuard
            },
            (TxStage::RxGuard, _) => {
                self.trace.t2 = at;
                TxStage::SecondAux
            },
            (TxStage::SecondAux, _) => {
                self.trace.t5 = at;
                TxStage::Writing
            },
            (TxStage::Writing, TxEvent::Written(0)) => TxStage::Finished(TxOutcome::WriteStalled),
            (TxStage::Writing, TxEvent::Written(count)) => {
                self.written = self.written + count;
                if self.written < PAYLOAD_LEN {
                    TxStage::Writing
                } else {
                    self.trace.t6 = at;
                    TxStage::Flushing
                }
            },
            (TxStage::Flushing, _) => {
                self.trace.t7 = at;
                if self.observes_aux_low {
                    TxStage::AuxLow
                } else {
                    TxStage::LastAux
                }
            },
            (TxStage::AuxLow, TxEvent::AuxLowSeen) => {
                self.trace.t8 = at;
                TxStage::LastAux
            },
            (TxStage::AuxLow, _) => {
                self.trace.aux_low_not_observed = true;
                TxStage::LastAux
            },
            (TxStage::LastAux, _) => {
                self.trace.t9 = at;
                TxStage::Finished(TxOutcome::Sent)
            },
            (stage, _) => stage,
        };
    }
}

/// What the wait for AUX led to. A level that has fallen again by the end of the wait does not
/// count.
pub fn aux_wait_outcome(high_at_once: bool, rose_in_time: bool, high_at_the_end: bool) -> (event:
    TxEvent)
    ensures
        event == (if high_at_once || (rose_in_time && high_at_the_end) {
            TxEvent::AuxHigh
        } else {
            TxEvent::AuxTimedOut
        }),
{
    if high_at_once || (rose_in_time && high_at_the_end) {
        TxEvent::AuxHigh
    } else {
        TxEvent::AuxTimedOut
    }
}

impl LoraCounters {
    pub fn new() -> (counters: Self)
        ensures
            counters == (LoraCounters {
                tx_errors: 0,
                rx_errors: 0,
                aux_timeouts: 0,
                dropped_commands: 0,
            }),
    {
        LoraCounters { tx_errors: 0, rx_errors: 0, aux_timeouts: 0, dropped_commands: 0 }
    }

    /// The counters after a transmission.
    pub open spec fn with_outcome(self, outcome: TxOutcome) -> LoraCounters {
        match outcome {
            TxOutcome::Sent => self,
            TxOutcome::AuxTimedOut => LoraCounters {
                aux_timeouts: self.aux_timeouts.wrapping_add(1),
                ..self
            },
            _ => LoraCounters { tx_errors: self.tx_errors.wrapping_add(1), ..self },
        }
    }

    /// Counts a transmission that failed.
    pub fn transmission_ended(&mut self, outcome: TxOutcome)
        ensures
            *final(self) == old(self).with_outcome(outcome),
    {
        match outcome {
            TxOutcome::Sent => {},
            TxOutcome::AuxTimedOut => {
                self.aux_timeouts = self.aux_timeouts.wrapping_add(1);
            },
            TxOutcome::WriteStalled | TxOutcome::WriteFailed | TxOutcome::FlushFailed => {
                self.tx_errors = self.tx_errors.wrapping_add(1);
            },
        }
    }

    /// Counts a failed read.
    pub fn receive_failed(&mut self)
        ensures
            *final(self) == (LoraCounters {
                rx_errors: old(self).rx_errors.wrapping_add(1),
                ..*old(self)
            }),
    {
        self.rx_errors = self.rx_errors.wrapping_add(1);
    }

    /// Counts a command for which the queue had no room.
    pub fn command_dropped(&mut self)
        ensures
            *final(self) == (LoraCounters {
                dropped_commands: old(self).dropped_commands.wrapping_add(1),
                ..*old(self)
            }),
    {
        self.dropped_commands = self.dropped_commands.wrapping_add(1);
    }
}

/// What to do about the guard time.
#[derive(Clone, Copy, Debug, PartialEq, Eq, Structural)]
pub enum GuardAction {
    /// Nothing holds the transmission back.
    Proceed,
    /// The guard time is over: look whether there was another reception.
    LookForActivity,
    /// Wait until this time, or for another reception.
    WaitUntil(u64),
}

/// The guard time that keeps a transmission away from a reception.
#[derive(Clone, Copy, Debug, PartialEq, Eq, Structural)]
pub struct RxGuard {
    /// The latest reception that still holds the transmission back.
    pub last_rx: Option<u64>,
    pub guard: u64,
}

impl RxGuard {
    /// The clock can represent the end of the guard time.
    pub open spec fn representable(self) -> bool {
        self.last_rx matches Some(last) ==> last + self.guard <= u64::MAX
    }

    pub open spec fn spec_action(self, now: u64) -> GuardAction {
        match self.last_rx {
            None => GuardAction::Proceed,
            Some(last) => if last + self.guard <= now {
                GuardAction::LookForActivity
            } else {
                GuardAction::WaitUntil((last + self.guard) as u64)
            },
        }
    }

    /// Starts with the latest reception that was not looked at yet, if there is one.
    pub fn new(activity: Option<u64>, guard: u64) -> (state: Self)
        ensures
            state == (RxGuard { last_rx: activity, guard }),
    {
        RxGuard { last_rx: activity, guard }
    }

    pub fn action(&self, now: u64) -> (action: GuardAction)
        requires
            self.representable(),
        ensures
            action == self.spec_action(now),
    {
        match self.last_rx {
            None => GuardAction::Proceed,
            Some(last) => {
                let deadline: u64 = last + self.guard;
                if deadline <= now {
                    GuardAction::LookForActivity
                } else {
                    GuardAction::WaitUntil(deadline)
                }
            },
        }
    }

    /// Takes the newest reception, or none if there was none until the guard time was over.
    pub fn observe(&mut self, activity: Option<u64>)
        ensures
            *final(self) == (RxGuard { last_rx: activity, ..*old(self) }),
    {
        self.last_rx = activity;
    }
}

/// When the next transmission is due after one that was due at `due` and is over at `now`. The
/// schedule keeps its pace unless it has fallen behind.
pub open spec fn spec_next_transmission(
    due: u64,
    now: u64,
    interval: u64,
    source: RequestSource,
) -> int {
    match source {
        RequestSource::Periodic => if due + interval <= now {
            now + interval
        } else {
            due + interval
        },
        RequestSource::TopTrigger => due as int,
    }
}

/// When the next periodic transmission is due. One that was triggered by the apogee comes in
/// between and leaves the schedule alone.
pub fn next_transmission(due: u64, now: u64, interval: u64, source: RequestSource) -> (next: u64)
    requires
        due + interval <= u64::MAX,
        now + interval <= u64::MAX,
    ensures
        next == spec_next_transmission(due, now, interval, source),
{
    match source {
        RequestSource::Periodic => {
            let scheduled: u64 = due + interval;
            if scheduled <= now {
                now + interval
            } else {
                scheduled
            }
        },
        RequestSource::TopTrigger => due,
    }
}

/// The transmission after a run of events, each with its time.
pub open spec fn after_run(start: TxProgress, run: Seq<(TxEvent, u64)>) -> TxProgress
    decreases run.len(),
{
    if run.len() == 0 {
        start
    } else {
        after_run(start, run.drop_last()).after(run.last().0, run.last().1)
    }
}

/// Every event of the run answers what the transmission was waiting for.
pub open spec fn is_run(start: TxProgress, run: Seq<(TxEvent, u64)>) -> bool
    decreases run.len(),
{
    run.len() > 0 ==> {
        &&& is_run(start, run.drop_last())
        &&& after_run(start, run.drop_last()).awaits(run.last().0)
    }
}

/// All bytes that the UART has accepted during a run, in order.
pub open spec fn accepted(start: TxProgress, run: Seq<(TxEvent, u64)>) -> Seq<u8>
    decreases run.len(),
{
    if run.len() == 0 {
        Seq::empty()
    } else {
        let before = after_run(start, run.drop_last());
        match run.last().0 {
            TxEvent::Written(count) => accepted(start, run.drop_last()) + before.bytes.skip(
                before.written as int,
            ).take(count as int),
            _ => accepted(start, run.drop_last()),
        }
    }
}

/// Law: however the UART splits the record, it accepts the bytes in order and none twice, and a
/// transmission that is reported as sent was accepted whole.
pub proof fn law_sent_records_are_written_whole(start: TxProgress, run: Seq<(TxEvent, u64)>)
    requires
        start == begun(start.bytes, start.trace, start.observes_aux_low),
        start.bytes.len() == PAYLOAD_LEN,
        is_run(start, run),
    ensures
        after_run(start, run).bytes == start.bytes,
        after_run(start, run).written <= start.bytes.len(),
        accepted(start, run) == start.bytes.take(after_run(start, run).written as int),
        after_run(start, run).stage is Writing ==> after_run(start, run).written
            < start.bytes.len(),
        (after_run(start, run).stage is Flushing || after_run(start, run).stage is AuxLow
            || after_run(start, run).stage is LastAux || after_run(start, run).stage
            == TxStage::Finished(TxOutcome::Sent)) ==> accepted(start, run) == start.bytes,
        (after_run(start, run).stage is FirstAux || after_run(start, run).stage is RxGuard
            || after_run(start, run).stage is SecondAux) ==> after_run(start, run).written == 0,
    decreases run.len(),
{
    if run.len() == 0 {
        assert(accepted(start, run) =~= start.bytes.take(0));
    } else {
        law_sent_records_are_written_whole(start, run.drop_last());
        let before = after_run(start, run.drop_last());
        if let TxEvent::Written(count) = run.last().0 {
            assert(start.bytes.take(before.written as int) + start.bytes.skip(
                before.written as int,
            ).take(count as int) =~= start.bytes.take(before.written + count));
        }
    }
    assert(start.bytes.take(start.bytes.len() as int) =~= start.bytes);
}

/// How many events a transmission can still take.
pub open spec fn events_left(progress: TxProgress) -> int {
    match progress.stage {
        TxStage::FirstAux => progress.bytes.len() as int + 6,
        TxStage::RxGuard => progress.bytes.len() as int + 5,
        TxStage::SecondAux => progress.bytes.len() as int + 4,
        TxStage::Writing => progress.bytes.len() - progress.written + 3,
        TxStage::Flushing => 3,
        TxStage::AuxLow => 2,
        TxStage::LastAux => 1,
        TxStage::Finished(_) => 0,
    }
}

/// Law: a transmission ends, whatever the modem and the UART do, after a bounded number of steps.
pub proof fn law_transmissions_end(start: TxProgress, run: Seq<(TxEvent, u64)>)
    requires
        start == begun(start.bytes, start.trace, start.observes_aux_low),
        start.bytes.len() == PAYLOAD_LEN,
        is_run(start, run),
    ensures
        run.len() + events_left(after_run(start, run)) <= PAYLOAD_LEN + 6,
        run.len() <= PAYLOAD_LEN + 6,
    decreases run.len(),
{
    law_sent_records_are_written_whole(start, run);
    if run.len() > 0 {
        law_transmissions_end(start, run.drop_last());
        law_sent_records_are_written_whole(start, run.drop_last());
    }
}

/// The events of the run come in the order of time, none before `since`.
pub open spec fn in_order_of_time(run: Seq<(TxEvent, u64)>, since: u64) -> bool {
    &&& forall|i: int| 0 <= i < run.len() ==> since <= (#[trigger] run[i]).1
    &&& forall|i: int, j: int|
        0 <= i <= j < run.len() ==> (#[trigger] run[i]).1 <= (#[trigger] run[j]).1
}

/// Every stamp that the stage calls for is there, in the order of the steps and none after
/// `latest`.
pub open spec fn stamped_up_to(progress: TxProgress, since: u64, latest: u64) -> bool {
    let trace = progress.trace;
    let step = match progress.stage {
        TxStage::FirstAux => 0int,
        TxStage::RxGuard => 1,
        TxStage::SecondAux => 2,
        TxStage::Writing => 3,
        TxStage::Flushing => 4,
        TxStage::AuxLow => 5,
        TxStage::LastAux => 6,
        TxStage::Finished(TxOutcome::Sent) => 7,
        TxStage::Finished(_) => -1,
    };
    &&& step >= 1 ==> trace.t1 is Some && since <= trace.t1->0
    &&& step >= 2 ==> trace.t2 is Some && trace.t1->0 <= trace.t2->0
    &&& step >= 3 ==> trace.t5 is Some && trace.t2->0 <= trace.t5->0
    &&& step >= 4 ==> trace.t6 is Some && trace.t5->0 <= trace.t6->0
    &&& step >= 5 ==> trace.t7 is Some && trace.t6->0 <= trace.t7->0
    &&& step < 6 ==> trace.t8 is None && !trace.aux_low_not_observed || step == -1
    &&& step >= 6 && !progress.observes_aux_low ==> trace.t8 is None
        && !trace.aux_low_not_observed
    &&& step >= 6 && progress.observes_aux_low ==> (trace.t8 is Some
        <==> !trace.aux_low_not_observed)
    &&& step >= 6 && trace.t8 is Some ==> trace.t7->0 <= trace.t8->0 <= latest
    &&& step >= 7 ==> trace.t9 is Some && trace.t7->0 <= trace.t9->0 <= latest
    &&& step >= 7 && trace.t8 is Some ==> trace.t8->0 <= trace.t9->0
    &&& step == 1 ==> trace.t1->0 <= latest
    &&& step == 2 ==> trace.t2->0 <= latest
    &&& step == 3 ==> trace.t5->0 <= latest
    &&& step == 4 ==> trace.t6->0 <= latest
    &&& step >= 5 ==> trace.t7->0 <= latest
}

/// Law: a transmission that was sent has all its time stamps, in the order of its steps, and
/// either saw AUX low or says that it did not.
#[verifier::rlimit(40)]
pub proof fn law_sent_transmissions_are_timed(
    start: TxProgress,
    run: Seq<(TxEvent, u64)>,
    since: u64,
)
    requires
        start == begun(start.bytes, start.trace, start.observes_aux_low),
        start.trace.t8 is None,
        !start.trace.aux_low_not_observed,
        is_run(start, run),
        in_order_of_time(run, since),
    ensures
        stamped_up_to(
            after_run(start, run),
            since,
            if run.len() == 0 {
                since
            } else {
                run.last().1
            },
        ),
        after_run(start, run).observes_aux_low == start.observes_aux_low,
        after_run(start, run).stage is AuxLow ==> start.observes_aux_low,
    decreases run.len(),
{
    if run.len() > 0 {
        let shorter = run.drop_last();
        assert(in_order_of_time(shorter, since)) by {
            assert forall|i: int| 0 <= i < shorter.len() implies since <= (#[trigger] shorter[i]).1
                by {
                assert(shorter[i] == run[i]);
            }
            assert forall|i: int, j: int| 0 <= i <= j < shorter.len() implies (
            #[trigger] shorter[i]).1 <= (#[trigger] shorter[j]).1 by {
                assert(shorter[i] == run[i] && shorter[j] == run[j]);
            }
        }
        law_sent_transmissions_are_timed(start, shorter, since);
        assert(since <= run[run.len() - 1].1);
        if shorter.len() > 0 {
            assert(run[run.len() - 2].1 <= run[run.len() - 1].1);
        }
    }
}

/// Law: a failed transmission moves one counter by one; one that was sent moves none.
pub proof fn law_failures_are_counted_once(counters: LoraCounters, outcome: TxOutcome)
    ensures
        outcome is Sent <==> counters.with_outcome(outcome) == counters,
        outcome is AuxTimedOut ==> counters.with_outcome(outcome).aux_timeouts
            == counters.aux_timeouts.wrapping_add(1) && counters.with_outcome(outcome).tx_errors
            == counters.tx_errors,
        !(outcome is Sent || outcome is AuxTimedOut) ==> counters.with_outcome(outcome).tx_errors
            == counters.tx_errors.wrapping_add(1) && counters.with_outcome(outcome).aux_timeouts
            == counters.aux_timeouts,
        counters.with_outcome(outcome).rx_errors == counters.rx_errors,
        counters.with_outcome(outcome).dropped_commands == counters.dropped_commands,
{
}

/// The latest reception that holds the transmission back after these observations.
pub open spec fn last_rx_after(start: RxGuard, observations: Seq<(Option<u64>, u64)>) -> Option<
    u64,
> {
    if observations.len() == 0 {
        start.last_rx
    } else {
        observations.last().0
    }
}

/// A wait for the guard time, observation by observation, each with its time: while a reception
/// holds the transmission back, either another one, no earlier, is observed, or none when the
/// guard time is over.
pub open spec fn is_guard_wait(start: RxGuard, observations: Seq<(Option<u64>, u64)>) -> bool
    decreases observations.len(),
{
    observations.len() > 0 ==> {
        let before = last_rx_after(start, observations.drop_last());
        let (activity, at) = observations.last();
        &&& is_guard_wait(start, observations.drop_last())
        &&& before is Some
        &&& match activity {
            Some(newer) => before->0 <= newer,
            None => !((RxGuard { last_rx: before, ..start }).spec_action(at) is WaitUntil),
        }
    }
}

/// Law: when the wait is over, the guard time has passed since the reception that started it and
/// since every reception during the wait.
pub proof fn law_receptions_are_guarded(start: RxGuard, observations: Seq<(Option<u64>, u64)>)
    requires
        is_guard_wait(start, observations),
        observations.len() > 0,
        observations.last().0 is None,
    ensures
        start.last_rx is Some,
        start.last_rx->0 + start.guard <= observations.last().1,
        forall|i: int|
            0 <= i < observations.len() && (#[trigger] observations[i]).0 is Some
                ==> observations[i].0->0 + start.guard <= observations.last().1,
{
    let earlier = observations.drop_last();
    lemma_receptions_come_in_order(start, earlier);
    assert forall|i: int|
        0 <= i < observations.len() && (
        #[trigger] observations[i]).0 is Some implies observations[i].0->0 + start.guard
        <= observations.last().1 by {
        assert(observations[i] == earlier[i]);
    }
}

proof fn lemma_receptions_come_in_order(start: RxGuard, observations: Seq<(Option<u64>, u64)>)
    requires
        is_guard_wait(start, observations),
        last_rx_after(start, observations) is Some,
    ensures
        start.last_rx is Some,
        start.last_rx->0 <= last_rx_after(start, observations)->0,
        forall|i: int|
            0 <= i < observations.len() ==> (#[trigger] observations[i]).0 is Some
                && observations[i].0->0 <= last_rx_after(start, observations)->0,
    decreases observations.len(),
{
    if observations.len() > 0 {
        let earlier = observations.drop_last();
        lemma_receptions_come_in_order(start, earlier);
        assert forall|i: int| 0 <= i < observations.len() implies (
        #[trigger] observations[i]).0 is Some && observations[i].0->0 <= last_rx_after(
            start,
            observations,
        )->0 by {
            if i < earlier.len() {
                assert(observations[i] == earlier[i]);
            }
        }
    }
}

/// Law: the next periodic transmission always lies ahead, at most one interval away from a
/// transmission that ended in time, and keeps the pace of the schedule in that case.
pub proof fn law_schedule_looks_ahead(due: u64, now: u64, interval: u64)
    requires
        interval > 0,
    ensures
        spec_next_transmission(due, now, interval, RequestSource::Periodic) > now,
        due <= now ==> spec_next_transmission(due, now, interval, RequestSource::Periodic)
            <= now + interval,
        now < due + interval ==> spec_next_transmission(
            due,
            now,
            interval,
            RequestSource::Periodic,
        ) == due + interval,
{
}

/// Law: which steps a transmission takes, in their order, and what each leaves in the time
/// stamps: its own stamp, and nothing else changes.
pub proof fn law_steps_come_in_order(progress: TxProgress, event: TxEvent, now_us: u64)
    requires
        progress.awaits(event),
    ensures
        ({
            let next = progress.after(event, now_us);
            let trace = progress.trace;
            let at = Some(now_us);
            &&& next.bytes == progress.bytes && next.observes_aux_low == progress.observes_aux_low
            &&& event is AuxHigh && progress.stage is FirstAux ==> next.stage is RxGuard
                && next.trace == (TxTimingTrace { t1: at, ..trace })
            &&& event is GuardOver ==> progress.stage is RxGuard && next.stage is SecondAux
                && next.trace == (TxTimingTrace { t2: at, ..trace })
            &&& event is AuxHigh && progress.stage is SecondAux ==> next.stage is Writing
                && next.trace == (TxTimingTrace { t5: at, ..trace })
            &&& event is Flushed ==> progress.stage is Flushing && next.trace == (TxTimingTrace {
                t7: at,
                ..trace
            })
            &&& event is Flushed && progress.observes_aux_low ==> next.stage is AuxLow
            &&& event is Flushed && !progress.observes_aux_low ==> next.stage is LastAux
            &&& event is AuxLowSeen ==> progress.stage is AuxLow && next.stage is LastAux
                && next.trace == (TxTimingTrace { t8: at, ..trace })
            &&& event is AuxLowMissed ==> progress.stage is AuxLow && next.stage is LastAux
                && next.trace == (TxTimingTrace { aux_low_not_observed: true, ..trace })
            &&& event is AuxHigh && progress.stage is LastAux ==> next.stage == TxStage::Finished(
                TxOutcome::Sent,
            ) && next.trace == (TxTimingTrace { t9: at, ..trace })
            &&& event is AuxHigh ==> progress.stage is FirstAux || progress.stage is SecondAux
                || progress.stage is LastAux
            &&& !(event is Written) ==> next.written == progress.written
        }),
{
}

/// Law: what becomes of a write: nothing accepted ends the transmission, a part leaves the rest to
/// be written, and the last part is stamped and leads to the flush.
pub proof fn law_writes_go_on_until_all_is_accepted(
    progress: TxProgress,
    count: usize,
    now_us: u64,
)
    requires
        progress.awaits(TxEvent::Written(count)),
    ensures
        ({
            let next = progress.after(TxEvent::Written(count), now_us);
            let left = progress.bytes.len() - progress.written;
            &&& progress.stage is Writing && count <= left
            &&& next.written == progress.written + count
            &&& count == 0 ==> next.stage == TxStage::Finished(TxOutcome::WriteStalled)
                && next.trace == progress.trace
            &&& 0 < count < left ==> next.stage is Writing && next.trace == progress.trace
            &&& 0 < count == left ==> next.stage is Flushing && next.trace == (TxTimingTrace {
                t6: Some(now_us),
                ..progress.trace
            })
        }),
{
}

/// Law: a failed step ends the transmission at once, under its own name and without a stamp; a
/// transmission that ended so has this failure as its last event, and one that was sent has none.
pub proof fn law_failures_end_the_transmission(start: TxProgress, run: Seq<(TxEvent, u64)>)
    requires
        start == begun(start.bytes, start.trace, start.observes_aux_low),
        is_run(start, run),
        run.len() > 0,
    ensures
        ({
            let before = after_run(start, run.drop_last());
            let end = after_run(start, run);
            let last = run.last().0;
            &&& end.stage == TxStage::Finished(TxOutcome::AuxTimedOut) <==> last is AuxTimedOut
            &&& end.stage == TxStage::Finished(TxOutcome::WriteFailed) <==> last is WriteFailed
            &&& end.stage == TxStage::Finished(TxOutcome::WriteStalled) <==> last
                == TxEvent::Written(0)
            &&& end.stage == TxStage::Finished(TxOutcome::FlushFailed) <==> last is FlushFailed
            &&& end.stage == TxStage::Finished(TxOutcome::Sent) <==> last is AuxHigh
                && before.stage is LastAux
            &&& end.stage is Finished && end.stage != TxStage::Finished(TxOutcome::Sent)
                ==> end.trace == before.trace
        }),
{
}

/// Law: a transmission in which nothing fails is sent, and its stamps are the times of its steps.
pub proof fn law_undisturbed_transmissions_are_sent(
    bytes: Seq<u8>,
    trace: TxTimingTrace,
    times: Seq<u64>,
    low_seen: bool,
)
    requires
        bytes.len() == PAYLOAD_LEN,
        times.len() == 7,
    ensures
        ({
            let written = begun(bytes, trace, false).after(TxEvent::AuxHigh, times[0]).after(
                TxEvent::GuardOver,
                times[1],
            ).after(TxEvent::AuxHigh, times[2]).after(TxEvent::Written(PAYLOAD_LEN), times[3]);
            let sent = written.after(TxEvent::Flushed, times[4]).after(TxEvent::AuxHigh, times[6]);
            let observed = (TxProgress { observes_aux_low: true, ..written }).after(
                TxEvent::Flushed,
                times[4],
            ).after(
                if low_seen {
                    TxEvent::AuxLowSeen
                } else {
                    TxEvent::AuxLowMissed
                },
                times[5],
            ).after(TxEvent::AuxHigh, times[6]);
            let stamps = TxTimingTrace {
                t1: Some(times[0]),
                t2: Some(times[1]),
                t5: Some(times[2]),
                t6: Some(times[3]),
                t7: Some(times[4]),
                t9: Some(times[6]),
                ..trace
            };
            &&& sent.stage == TxStage::Finished(TxOutcome::Sent)
            &&& sent.trace == stamps
            &&& observed.stage == TxStage::Finished(TxOutcome::Sent)
            &&& low_seen ==> observed.trace == (TxTimingTrace { t8: Some(times[5]), ..stamps })
            &&& !low_seen ==> observed.trace == (TxTimingTrace {
                aux_low_not_observed: true,
                ..stamps
            })
        }),
{
}

/// Law: without a reception nothing is waited for. With one, the wait ends exactly when the guard
/// time since the reception is over.
pub proof fn law_guard_time_is_waited_for(guard: RxGuard, now: u64, later: u64)
    requires
        guard.representable(),
    ensures
        guard.last_rx is None <==> guard.spec_action(now) is Proceed,
        guard.last_rx matches Some(last) ==> {
            &&& guard.spec_action(now) is LookForActivity <==> now - last >= guard.guard
            &&& now - last < guard.guard ==> (guard.spec_action(now) matches GuardAction::WaitUntil(
                end,
            ) && end - last == guard.guard && now < end)
        },
        guard.spec_action(now) is LookForActivity && now <= later ==> guard.spec_action(later)
            is LookForActivity,
{
}

/// Law: a schedule that has fallen behind goes on a whole interval after now, and a transmission
/// that the apogee triggered leaves the schedule where it was.
pub proof fn law_schedule_recovers(due: u64, now: u64, interval: u64)
    ensures
        due + interval <= now ==> spec_next_transmission(
            due,
            now,
            interval,
            RequestSource::Periodic,
        ) - now == interval,
        spec_next_transmission(due, now, interval, RequestSource::TopTrigger) == due,
{
}

} // verus!
