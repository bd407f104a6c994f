//! Timing statistics of the LoRa transmissions, gathered over windows of ten request intervals.

use vstd::prelude::*;

verus! {

/// Number of request intervals in one report.
pub const SAMPLE_INTERVALS: u32 = 10;

/// From one request to the next.
pub const REQUEST_INTERVAL: usize = 0;

/// From the request until AUX was high for the first time.
pub const PRE_AUX_WAIT: usize = 1;

/// From the prepared record until AUX was high for the first time.
pub const INITIAL_AUX_WAIT: usize = 2;

/// The guard time after a reception.
pub const RX_GUARD_WAIT: usize = 3;

/// From the end of the guard time until the write began.
pub const POST_GUARD_AUX_WAIT: usize = 4;

/// Time taken to prepare the record.
pub const PAYLOAD_PREPARE: usize = 5;

/// Time taken by the UART write.
pub const UART_WRITE: usize = 6;

/// Time taken by the UART flush.
pub const UART_FLUSH: usize = 7;

/// From the flush until AUX went low.
pub const AUX_LOW_DELAY: usize = 8;

/// How long AUX stayed low.
pub const AUX_LOW_DURATION: usize = 9;

/// From the flush until AUX was high again.
pub const POST_UART_TO_DONE: usize = 10;

/// From the request until AUX was high again.
pub const TX_TOTAL: usize = 11;

/// From one write to the next.
pub const WRITE_START_INTERVAL: usize = 12;

/// From one completion to the next.
pub const AUX_DONE_INTERVAL: usize = 13;

/// From one completion to the next write.
pub const IDLE_GAP: usize = 14;

/// Number of metrics.
pub const METRIC_COUNT: usize = 15;

/// What asked for the transmission.
#[derive(Clone, Copy, Debug, PartialEq, Eq, Structural)]
pub enum RequestSource {
    Periodic,
    TopTrigger,
}

/// Time stamps of one transmission in microseconds: request (`t0`), first AUX high (`t1`), end
/// of the guard time (`t2`), start (`t3`) and end (`t4`) of the preparation, start (`t5`) and end
/// (`t6`) of the write, end of the flush (`t7`), AUX low (`t8`) and AUX high again (`t9`).
#[derive(Clone, Copy, Debug, PartialEq, Eq, Structural)]
pub struct TxTimingTrace {
    pub t0: u64,
    pub t1: Option<u64>,
    pub t2: Option<u64>,
    pub t3: Option<u64>,
    pub t4: Option<u64>,
    pub t5: Option<u64>,
    pub t6: Option<u64>,
    pub t7: Option<u64>,
    pub t8: Option<u64>,
    pub t9: Option<u64>,
    pub aux_low_not_observed: bool,
    pub source: RequestSource,
}

impl TxTimingTrace {
    /// A trace of which only the request is known.
    pub fn new(t0: u64, source: RequestSource) -> (trace: Self)
        ensures
            trace == (TxTimingTrace {
                t0,
                t1: None,
                t2: None,
                t3: None,
                t4: None,
                t5: None,
                t6: None,
                t7: None,
                t8: None,
                t9: None,
                aux_low_not_observed: false,
                source,
            }),
    {
        TxTimingTrace {
            t0,
            t1: None,
            t2: None,
            t3: None,
            t4: None,
            t5: None,
            t6: None,
            t7: None,
            t8: None,
            t9: None,
            aux_low_not_observed: false,
            source,
        }
    }
}

/// One metric of a report.
#[derive(Clone, Copy, Debug, PartialEq, Eq, Structural)]
pub struct MetricSummary {
    pub count: u32,
    pub min: u64,
    pub max: u64,
    pub average: u64,
}

/// The running statistics of one metric.
#[derive(Clone, Copy, Debug, PartialEq, Eq, Structural)]
pub struct MetricStats {
    pub count: u32,
    pub min: u64,
    pub max: u64,
    pub total: u64,
}

/// The sum, limited to the largest 32-bit value.
pub open spec fn saturating_u32(value: int) -> u32 {
    (if value > u32::MAX {
        u32::MAX as int
    } else {
        value
    }) as u32
}

/// The sum, limited to the largest 64-bit value.
pub open spec fn saturating_u64(value: int) -> u64 {
    (if value > u64::MAX {
        u64::MAX as int
    } else {
        value
    }) as u64
}

impl MetricStats {
    /// The statistics of no samples.
    pub open spec fn empty() -> MetricStats {
        MetricStats { count: 0, min: u64::MAX, max: 0, total: 0 }
    }

    /// The statistics with one more sample.
    pub open spec fn with(self, value: u64) -> MetricStats {
        MetricStats {
            count: saturating_u32(self.count + 1),
            min: if value < self.min {
                value
            } else {
                self.min
            },
            max: if value > self.max {
                value
            } else {
                self.max
            },
            total: saturating_u64(self.total + value),
        }
    }

    /// The statistics with one more sample, if there is one.
    #[verifier::opaque]
    pub open spec fn with_optional(self, value: Option<u64>) -> MetricStats {
        match value {
            Some(value) => self.with(value),
            None => self,
        }
    }

    /// The reported figures; all zero without samples.
    pub open spec fn spec_summary(self) -> MetricSummary {
        if self.count == 0 {
            MetricSummary { count: 0, min: 0, max: 0, average: 0 }
        } else {
            MetricSummary {
                count: self.count,
                min: self.min,
                max: self.max,
                average: (self.total as int / self.count as int) as u64,
            }
        }
    }

    pub fn new() -> (stats: Self)
        ensures
            stats == MetricStats::empty(),
    {
        MetricStats { count: 0, min: u64::MAX, max: 0, total: 0 }
    }

    pub fn record(&mut self, value: u64)
        ensures
            *final(self) == old(self).with(value),
    {
        self.count = self.count.saturating_add(1);
        if value < self.min {
            self.min = value;
        }
        if value > self.max {
            self.max = value;
        }
        self.total = self.total.saturating_add(value);
    }

    pub fn summary(self) -> (summary: MetricSummary)
        ensures
            summary == self.spec_summary(),
    {
        if self.count == 0 {
            return MetricSummary { count: 0, min: 0, max: 0, average: 0 };
        }
        MetricSummary {
            count: self.count,
            min: self.min,
            max: self.max,
            average: self.total / (self.count as u64),
        }
    }
}

/// The figures of one window.
#[derive(Clone, Copy, Debug, PartialEq, Eq)]
pub struct TimingReport {
    pub metrics: [MetricSummary; METRIC_COUNT],
    pub aux_low_not_observed: u32,
    pub periodic_requests: u32,
    pub top_trigger_requests: u32,
    pub idle_gap_invalid: u32,
}

/// Gathers traces and reports once per window.
pub struct TimingCollector {
    metrics: [MetricStats; METRIC_COUNT],
    previous_t0: Option<u64>,
    previous_t5: Option<u64>,
    previous_t9: Option<u64>,
    aux_low_not_observed: u32,
    periodic_requests: u32,
    top_trigger_requests: u32,
    idle_gap_invalid: u32,
}

/// What a collector knows: the statistics of the current window and the latest time stamps.
#[verifier::ext_equal]
pub struct Window {
    pub metrics: Seq<MetricStats>,
    pub previous_t0: Option<u64>,
    pub previous_t5: Option<u64>,
    pub previous_t9: Option<u64>,
    pub aux_low_not_observed: u32,
    pub periodic_requests: u32,
    pub top_trigger_requests: u32,
    pub idle_gap_invalid: u32,
}

/// The time from `earlier` to `later`, if both are known and in this order.
#[verifier::opaque]
pub open spec fn interval(later: Option<u64>, earlier: Option<u64>) -> Option<u64> {
    match (later, earlier) {
        (Some(later), Some(earlier)) => if later >= earlier {
            Some((later - earlier) as u64)
        } else {
            None
        },
        _ => None,
    }
}

impl Window {
    /// A window without samples.
    pub open spec fn cleared(self) -> Window {
        Window {
            metrics: Seq::new(METRIC_COUNT as nat, |i: int| MetricStats::empty()),
            aux_low_not_observed: 0,
            periodic_requests: 0,
            top_trigger_requests: 0,
            idle_gap_invalid: 0,
            ..self
        }
    }

    /// The sample that a trace adds to a metric.
    pub open spec fn measured(self, trace: TxTimingTrace, metric: int) -> Option<u64> {
        if metric == REQUEST_INTERVAL {
            interval(Some(trace.t0), self.previous_t0)
        } else if metric == PRE_AUX_WAIT {
            interval(trace.t1, Some(trace.t0))
        } else if metric == INITIAL_AUX_WAIT {
            interval(trace.t1, trace.t4)
        } else if metric == RX_GUARD_WAIT {
            interval(trace.t2, trace.t1)
        } else if metric == POST_GUARD_AUX_WAIT {
            interval(trace.t5, trace.t2)
        } else if metric == PAYLOAD_PREPARE {
            interval(trace.t4, trace.t3)
        } else if metric == UART_WRITE {
            interval(trace.t6, trace.t5)
        } else if metric == UART_FLUSH {
            interval(trace.t7, trace.t6)
        } else if metric == AUX_LOW_DELAY {
            interval(trace.t8, trace.t7)
        } else if metric == AUX_LOW_DURATION {
            interval(trace.t9, trace.t8)
        } else if metric == POST_UART_TO_DONE {
            interval(trace.t9, trace.t7)
        } else if metric == TX_TOTAL {
            interval(trace.t9, Some(trace.t0))
        } else if metric == WRITE_START_INTERVAL {
            interval(trace.t5, self.previous_t5)
        } else if metric == AUX_DONE_INTERVAL {
            interval(trace.t9, self.previous_t9)
        } else if metric == IDLE_GAP {
            interval(trace.t5, self.previous_t9)
        } else {
            None
        }
    }

    /// Whether the write of a trace began before the previous transmission was done.
    pub open spec fn idle_gap_is_invalid(self, trace: TxTimingTrace) -> bool {
        match (trace.t5, self.previous_t9) {
            (Some(write), Some(done)) => write < done,
            _ => false,
        }
    }

    /// The window with one more trace. The first trace only sets the time stamps that later
    /// intervals start from.
    pub open spec fn with_trace(self, trace: TxTimingTrace) -> Window {
        if self.previous_t0 is None {
            Window {
                previous_t0: Some(trace.t0),
                previous_t5: trace.t5,
                previous_t9: trace.t9,
                ..self
            }
        } else {
            Window {
                metrics: Seq::new(
                    METRIC_COUNT as nat,
                    |i: int| self.metrics[i].with_optional(self.measured(trace, i)),
                ),
                previous_t0: Some(trace.t0),
                previous_t5: if trace.t5 is Some {
                    trace.t5
                } else {
                    self.previous_t5
                },
                previous_t9: if trace.t9 is Some {
                    trace.t9
                } else {
                    self.previous_t9
                },
                aux_low_not_observed: if trace.aux_low_not_observed {
                    saturating_u32(self.aux_low_not_observed + 1)
                } else {
                    self.aux_low_not_observed
                },
                periodic_requests: if trace.source is Periodic {
                    saturating_u32(self.periodic_requests + 1)
                } else {
                    self.periodic_requests
                },
                top_trigger_requests: if trace.source is TopTrigger {
                    saturating_u32(self.top_trigger_requests + 1)
                } else {
                    self.top_trigger_requests
                },
                idle_gap_invalid: if self.idle_gap_is_invalid(trace) {
                    saturating_u32(self.idle_gap_invalid + 1)
                } else {
                    self.idle_gap_invalid
                },
            }
        }
    }

    /// Whether `trace` completes the window.
    pub open spec fn reports_with(self, trace: TxTimingTrace) -> bool {
        self.previous_t0 is Some && self.with_trace(trace).metrics[REQUEST_INTERVAL as int].count
            >= SAMPLE_INTERVALS
    }

    /// The window after `trace`. A completed window starts afresh and keeps only the time stamps.
    pub open spec fn after(self, trace: TxTimingTrace) -> Window {
        if self.reports_with(trace) {
            self.with_trace(trace).cleared()
        } else {
            self.with_trace(trace)
        }
    }
}

/// What a collector knows before the first trace.
pub open spec fn initial_window() -> Window {
    Window {
        metrics: Seq::new(METRIC_COUNT as nat, |i: int| MetricStats::empty()),
        previous_t0: None,
        previous_t5: None,
        previous_t9: None,
        aux_low_not_observed: 0,
        periodic_requests: 0,
        top_trigger_requests: 0,
        idle_gap_invalid: 0,
    }
}

/// What a collector knows after a series of traces.
pub open spec fn window_after(traces: Seq<TxTimingTrace>) -> Window
    decreases traces.len(),
{
    if traces.len() == 0 {
        initial_window()
    } else {
        window_after(traces.drop_last()).after(traces.last())
    }
}

/// The requests come in the order of their time stamps.
pub open spec fn in_time_order(traces: Seq<TxTimingTrace>) -> bool {
    forall|i: int, j: int|
        0 <= i < j < traces.len() ==> (#[trigger] traces[i]).t0 <= (#[trigger] traces[j]).t0
}

/// The statistics of a series of samples.
pub open spec fn stats_of(samples: Seq<u64>) -> MetricStats
    decreases samples.len(),
{
    if samples.len() == 0 {
        MetricStats::empty()
    } else {
        stats_of(samples.drop_last()).with(samples.last())
    }
}

/// The samples of a metric since the window began, when `last` has been added to it.
pub open spec fn samples_with(
    traces: Seq<TxTimingTrace>,
    last: TxTimingTrace,
    metric: int,
) -> Seq<u64>
    decreases traces.len(), 1int,
{
    let before = window_after(traces);
    match before.measured(last, metric) {
        Some(value) if before.previous_t0 is Some => samples_since_report(traces, metric).push(
            value,
        ),
        _ => samples_since_report(traces, metric),
    }
}

/// The samples of a metric since the last report.
pub open spec fn samples_since_report(traces: Seq<TxTimingTrace>, metric: int) -> Seq<u64>
    decreases traces.len(), 0int,
{
    if traces.len() == 0 || window_after(traces.drop_last()).reports_with(traces.last()) {
        Seq::empty()
    } else {
        samples_with(traces.drop_last(), traces.last(), metric)
    }
}

/// The sum of a series of samples.
pub open spec fn sum_of(samples: Seq<u64>) -> int
    decreases samples.len(),
{
    if samples.len() == 0 {
        0
    } else {
        sum_of(samples.drop_last()) + samples.last()
    }
}

/// `report` holds the figures of `window`.
pub open spec fn is_report_of(report: TimingReport, window: Window) -> bool {
    &&& forall|i: int|
        0 <= i < METRIC_COUNT ==> (#[trigger] report.metrics@[i]) == window.metrics[i].spec_summary()
    &&& report.aux_low_not_observed == window.aux_low_not_observed
    &&& report.periodic_requests == window.periodic_requests
    &&& report.top_trigger_requests == window.top_trigger_requests
    &&& report.idle_gap_invalid == window.idle_gap_invalid
}

impl View for TimingCollector {
    type V = Window;

    closed spec fn view(&self) -> Window {
        Window {
            metrics: self.metrics@,
            previous_t0: self.previous_t0,
            previous_t5: self.previous_t5,
            previous_t9: self.previous_t9,
            aux_low_not_observed: self.aux_low_not_observed,
            periodic_requests: self.periodic_requests,
            top_trigger_requests: self.top_trigger_requests,
            idle_gap_invalid: self.idle_gap_invalid,
        }
    }
}

impl TimingCollector {
    pub fn new() -> (collector: Self)
        ensures
            collector@ == initial_window(),
    {
        let empty = MetricStats::new();
        let collector = TimingCollector {
            metrics: [empty; 15],
            previous_t0: None,
            previous_t5: None,
            previous_t9: None,
            aux_low_not_observed: 0,
            periodic_requests: 0,
            top_trigger_requests: 0,
            idle_gap_invalid: 0,
        };
        assert(collector@ =~= initial_window());
        collector
    }

    /// Adds a trace and returns the report of the window that it completes.
    pub fn record(&mut self, trace: TxTimingTrace) -> (report: Option<TimingReport>)
        ensures
            report is Some <==> old(self)@.reports_with(trace),
            report matches Some(report) ==> is_report_of(report, old(self)@.with_trace(trace)),
            final(self)@ == old(self)@.after(trace),
    {
        let ghost before = self@;
        let previous_t0 = self.previous_t0;
        self.previous_t0 = Some(trace.t0);
        if previous_t0.is_none() {
            self.previous_t5 = trace.t5;
            self.previous_t9 = trace.t9;
            return None;
        }
        self.record_samples(trace, previous_t0);
        if let (Some(write), Some(done)) = (trace.t5, self.previous_t9) {
            if write < done {
                self.idle_gap_invalid = self.idle_gap_invalid.saturating_add(1);
            }
        }
        if trace.t5.is_some() {
            self.previous_t5 = trace.t5;
        }
        if trace.t9.is_some() {
            self.previous_t9 = trace.t9;
        }
        if trace.aux_low_not_observed {
            self.aux_low_not_observed = self.aux_low_not_observed.saturating_add(1);
        }
        match trace.source {
            RequestSource::Periodic => {
                self.periodic_requests = self.periodic_requests.saturating_add(1);
            },
            RequestSource::TopTrigger => {
                self.top_trigger_requests = self.top_trigger_requests.saturating_add(1);
            },
        }
        assert(self@ =~= before.with_trace(trace));
        if self.metrics[REQUEST_INTERVAL].count < SAMPLE_INTERVALS {
            return None;
        }
        let report = self.report();
        self.reset_window();
        Some(report)
    }

    fn report(&self) -> (report: TimingReport)
        ensures
            is_report_of(report, self@),
    {
        TimingReport {
            metrics: [
                self.metrics[0].summary(),
                self.metrics[1].summary(),
                self.metrics[2].summary(),
                self.metrics[3].summary(),
                self.metrics[4].summary(),
                self.metrics[5].summary(),
                self.metrics[6].summary(),
                self.metrics[7].summary(),
                self.metrics[8].summary(),
                self.metrics[9].summary(),
                self.metrics[10].summary(),
                self.metrics[11].summary(),
                self.metrics[12].summary(),
                self.metrics[13].summary(),
                self.metrics[14].summary(),
            ],
            aux_low_not_observed: self.aux_low_not_observed,
            periodic_requests: self.periodic_requests,
            top_trigger_requests: self.top_trigger_requests,
            idle_gap_invalid: self.idle_gap_invalid,
        }
    }

    /// Adds the samples of a trace to the metrics.
    fn record_samples(&mut self, trace: TxTimingTrace, previous_t0: Option<u64>)
        ensures
            final(self)@.metrics.len() == METRIC_COUNT,
            forall|i: int|
                0 <= i < METRIC_COUNT ==> (#[trigger] final(self)@.metrics[i])
                    == old(self)@.metrics[i].with_optional(
                    (Window { previous_t0, ..old(self)@ }).measured(trace, i),
                ),
            final(self)@ == (Window { metrics: final(self)@.metrics, ..old(self)@ }),
    {
        let previous_t5 = self.previous_t5;
        let previous_t9 = self.previous_t9;
        self.record_delta(REQUEST_INTERVAL, Some(trace.t0), previous_t0);
        self.record_delta(PRE_AUX_WAIT, trace.t1, Some(trace.t0));
        self.record_delta(INITIAL_AUX_WAIT, trace.t1, trace.t4);
        self.record_delta(RX_GUARD_WAIT, trace.t2, trace.t1);
        self.record_delta(POST_GUARD_AUX_WAIT, trace.t5, trace.t2);
        self.record_delta(PAYLOAD_PREPARE, trace.t4, trace.t3);
        self.record_delta(UART_WRITE, trace.t6, trace.t5);
        self.record_delta(UART_FLUSH, trace.t7, trace.t6);
        self.record_delta(AUX_LOW_DELAY, trace.t8, trace.t7);
        self.record_delta(AUX_LOW_DURATION, trace.t9, trace.t8);
        self.record_delta(POST_UART_TO_DONE, trace.t9, trace.t7);
        self.record_delta(TX_TOTAL, trace.t9, Some(trace.t0));
        self.record_delta(WRITE_START_INTERVAL, trace.t5, previous_t5);
        self.record_delta(AUX_DONE_INTERVAL, trace.t9, previous_t9);
        self.record_delta(IDLE_GAP, trace.t5, previous_t9);
    }

    fn record_delta(&mut self, metric: usize, later: Option<u64>, earlier: Option<u64>)
        requires
            metric < METRIC_COUNT,
        ensures
            final(self)@ == (Window {
                metrics: old(self)@.metrics.update(
                    metric as int,
                    old(self)@.metrics[metric as int].with_optional(interval(later, earlier)),
                ),
                ..old(self)@
            }),
    {
        proof {
            reveal(interval);
            reveal(MetricStats::with_optional);
        }
        if let (Some(later), Some(earlier)) = (later, earlier) {
            if let Some(delta) = later.checked_sub(earlier) {
                let mut stats = self.metrics[metric];
                stats.record(delta);
                self.metrics[metric] = stats;
                return;
            }
        }
        assert(self.metrics@ =~= self.metrics@.update(metric as int, self.metrics@[metric as int]));
    }

    fn reset_window(&mut self)
        ensures
            final(self)@ == old(self)@.cleared(),
    {
        let empty = MetricStats::new();
        self.metrics = [empty; 15];
        self.aux_low_not_observed = 0;
        self.periodic_requests = 0;
        self.top_trigger_requests = 0;
        self.idle_gap_invalid = 0;
        assert(self@ =~= old(self)@.cleared());
    }
}

/// Law: the statistics count the samples, bound them tightly and add them up; count and sum stop
/// at the largest value.
pub proof fn law_statistics_describe_the_samples(samples: Seq<u64>)
    ensures
        stats_of(samples).count == saturating_u32(samples.len() as int),
        stats_of(samples).total == saturating_u64(sum_of(samples)),
        sum_of(samples) >= 0,
        forall|i: int|
            0 <= i < samples.len() ==> stats_of(samples).min <= #[trigger] samples[i]
                <= stats_of(samples).max,
        samples.len() > 0 ==> samples.contains(stats_of(samples).min) && samples.contains(
            stats_of(samples).max,
        ),
    decreases samples.len(),
{
    if samples.len() > 0 {
        let earlier = samples.drop_last();
        law_statistics_describe_the_samples(earlier);
        assert forall|i: int| 0 <= i < samples.len() implies stats_of(samples).min
            <= #[trigger] samples[i] <= stats_of(samples).max by {
            if i < earlier.len() {
                assert(samples[i] == earlier[i]);
            }
        }
        assert(samples[samples.len() - 1] == samples.last());
        if earlier.len() > 0 {
            let low = choose|i: int| 0 <= i < earlier.len() && earlier[i] == stats_of(earlier).min;
            let high = choose|i: int| 0 <= i < earlier.len() && earlier[i] == stats_of(earlier).max;
            assert(samples[low] == earlier[low] && samples[high] == earlier[high]);
        }
    }
}

/// Law: as long as the sum fits, the reported average is the mean rounded down and lies between
/// the smallest and the largest sample.
pub proof fn law_average_lies_within_the_samples(samples: Seq<u64>)
    requires
        0 < samples.len() <= u32::MAX,
        sum_of(samples) <= u64::MAX,
    ensures
        stats_of(samples).spec_summary().average == sum_of(samples) / samples.len() as int,
        stats_of(samples).min <= stats_of(samples).spec_summary().average <= stats_of(samples).max,
{
    law_statistics_describe_the_samples(samples);
    let stats = stats_of(samples);
    lemma_sum_is_bounded(samples, stats.min as int, stats.max as int);
    let count = samples.len() as int;
    let sum = sum_of(samples);
    let min = stats.min as int;
    let max = stats.max as int;
    assert(min <= sum / count <= max) by (nonlinear_arith)
        requires
            count > 0,
            min * count <= sum <= max * count,
    ;
}

proof fn lemma_sum_is_bounded(samples: Seq<u64>, low: int, high: int)
    requires
        forall|i: int| 0 <= i < samples.len() ==> low <= #[trigger] samples[i] <= high,
    ensures
        low * samples.len() <= sum_of(samples) <= high * samples.len(),
    decreases samples.len(),
{
    if samples.len() > 0 {
        let earlier = samples.drop_last();
        assert forall|i: int| 0 <= i < earlier.len() implies low <= #[trigger] earlier[i] <= high by {
            assert(earlier[i] == samples[i]);
        }
        lemma_sum_is_bounded(earlier, low, high);
        let n = earlier.len() as int;
        assert(low * (n + 1) == low * n + low) by (nonlinear_arith);
        assert(high * (n + 1) == high * n + high) by (nonlinear_arith);
        assert(samples.last() == samples[samples.len() - 1]);
    }
}

/// Law: when requests come in the order of their time stamps, the first one only sets the
/// baseline, every tenth interval after it completes a window, and every interval of the window
/// is counted under its source.
pub proof fn law_every_tenth_interval_reports(traces: Seq<TxTimingTrace>, next: TxTimingTrace)
    requires
        in_time_order(traces.push(next)),
    ensures
        window_after(traces).reports_with(next) <==> traces.len() > 0 && traces.len() as int % 10
            == 0,
        traces.len() > 0 ==> window_after(traces).periodic_requests + window_after(
            traces,
        ).top_trigger_requests == (traces.len() - 1) % 10,
{
    lemma_window_counts(traces, next);
    reveal(interval);
    reveal(MetricStats::with_optional);
}

proof fn lemma_window_counts(traces: Seq<TxTimingTrace>, next: TxTimingTrace)
    requires
        in_time_order(traces.push(next)),
    ensures
        window_after(traces).metrics.len() == METRIC_COUNT,
        traces.len() == 0 ==> window_after(traces).previous_t0 is None,
        traces.len() > 0 ==> {
            let window = window_after(traces);
            &&& window.previous_t0 matches Some(t0) && t0 <= next.t0
            &&& window.metrics[REQUEST_INTERVAL as int].count == (traces.len() - 1) % 10
            &&& window.periodic_requests + window.top_trigger_requests == (traces.len() - 1) % 10
        },
    decreases traces.len(),
{
    if traces.len() > 0 {
        let earlier = traces.drop_last();
        let last = traces.last();
        assert(in_time_order(earlier.push(last))) by {
            assert(earlier.push(last) =~= traces);
            assert forall|i: int, j: int| 0 <= i < j < traces.len() implies (#[trigger] traces[i]).t0
                <= (#[trigger] traces[j]).t0 by {
                assert(traces.push(next)[i] == traces[i] && traces.push(next)[j] == traces[j]);
            }
        }
        lemma_window_counts(earlier, last);
        assert(last.t0 <= next.t0) by {
            let all = traces.push(next);
            assert(all[traces.len() - 1] == last && all[traces.len() as int] == next);
        }
        reveal(interval);
        reveal(MetricStats::with_optional);
        let before = window_after(earlier);
        if earlier.len() > 0 {
            assert(before.with_trace(last).metrics[0] == before.metrics[0].with_optional(
                before.measured(last, 0),
            ));
        }
    }
}

/// Law: every metric of a window, and so of a report, describes exactly the samples that were
/// measured since the report before.
pub proof fn law_windows_describe_their_samples(
    traces: Seq<TxTimingTrace>,
    last: TxTimingTrace,
    metric: int,
)
    requires
        0 <= metric < METRIC_COUNT,
    ensures
        window_after(traces).metrics[metric] == stats_of(samples_since_report(traces, metric)),
        window_after(traces).with_trace(last).metrics[metric] == stats_of(
            samples_with(traces, last, metric),
        ),
    decreases traces.len(),
{
    if traces.len() > 0 {
        law_windows_describe_their_samples(traces.drop_last(), traces.last(), metric);
    }
    let before = window_after(traces);
    let samples = samples_since_report(traces, metric);
    reveal(MetricStats::with_optional);
    if before.previous_t0 is Some {
        match before.measured(last, metric) {
            Some(value) => {
                assert(samples.push(value).drop_last() =~= samples);
            },
            None => {},
        }
    }
}

/// `sample` is the time from `earlier` to `later`; there is none where one of them is unknown or
/// they are in the wrong order.
pub open spec fn is_time_between(
    sample: Option<u64>,
    earlier: Option<u64>,
    later: Option<u64>,
) -> bool {
    &&& sample is Some <==> earlier is Some && later is Some && earlier->0 <= later->0
    &&& sample is Some ==> earlier->0 + sample->0 == later->0
}

/// Law: what each metric measures, by its place in the report: from which time stamp to which.
pub proof fn law_what_is_measured(window: Window, trace: TxTimingTrace)
    ensures
        is_time_between(window.measured(trace, 0), window.previous_t0, Some(trace.t0)),
        is_time_between(window.measured(trace, 1), Some(trace.t0), trace.t1),
        is_time_between(window.measured(trace, 2), trace.t4, trace.t1),
        is_time_between(window.measured(trace, 3), trace.t1, trace.t2),
        is_time_between(window.measured(trace, 4), trace.t2, trace.t5),
        is_time_between(window.measured(trace, 5), trace.t3, trace.t4),
        is_time_between(window.measured(trace, 6), trace.t5, trace.t6),
        is_time_between(window.measured(trace, 7), trace.t6, trace.t7),
        is_time_between(window.measured(trace, 8), trace.t7, trace.t8),
        is_time_between(window.measured(trace, 9), trace.t8, trace.t9),
        is_time_between(window.measured(trace, 10), trace.t7, trace.t9),
        is_time_between(window.measured(trace, 11), Some(trace.t0), trace.t9),
        is_time_between(window.measured(trace, 12), window.previous_t5, trace.t5),
        is_time_between(window.measured(trace, 13), window.previous_t9, trace.t9),
        is_time_between(window.measured(trace, 14), window.previous_t9, trace.t5),
{
    reveal(interval);
}

/// Law: the waits and the UART times of a transmission that went through all its steps in order
/// add up to its total time.
pub proof fn law_times_add_up(window: Window, trace: TxTimingTrace)
    requires
        trace.t1 is Some && trace.t2 is Some && trace.t5 is Some && trace.t6 is Some && trace.t7
            is Some && trace.t9 is Some,
        trace.t0 <= trace.t1->0 <= trace.t2->0 <= trace.t5->0 <= trace.t6->0 <= trace.t7->0
            <= trace.t9->0,
    ensures
        window.measured(trace, TX_TOTAL as int)->0 == window.measured(
            trace,
            PRE_AUX_WAIT as int,
        )->0 + window.measured(trace, RX_GUARD_WAIT as int)->0 + window.measured(
            trace,
            POST_GUARD_AUX_WAIT as int,
        )->0 + window.measured(trace, UART_WRITE as int)->0 + window.measured(
            trace,
            UART_FLUSH as int,
        )->0 + window.measured(trace, POST_UART_TO_DONE as int)->0,
        trace.t8 is Some && trace.t7->0 <= trace.t8->0 <= trace.t9->0 ==> window.measured(
            trace,
            POST_UART_TO_DONE as int,
        )->0 == window.measured(trace, AUX_LOW_DELAY as int)->0 + window.measured(
            trace,
            AUX_LOW_DURATION as int,
        )->0,
{
    reveal(interval);
}

/// Law: after the first trace every one is counted, under its source, and moreover where AUX was
/// not seen low and where its write began before the previous transmission was done. The first
/// trace counts nowhere.
pub proof fn law_traces_are_counted(window: Window, trace: TxTimingTrace)
    requires
        window.periodic_requests < u32::MAX,
        window.top_trigger_requests < u32::MAX,
        window.aux_low_not_observed < u32::MAX,
        window.idle_gap_invalid < u32::MAX,
    ensures
        ({
            let next = window.with_trace(trace);
            let started = window.previous_t0 is Some;
            &&& next.periodic_requests - window.periodic_requests == (if started && trace.source
                is Periodic {
                1int
            } else {
                0
            })
            &&& next.top_trigger_requests - window.top_trigger_requests == (if started
                && trace.source is TopTrigger {
                1int
            } else {
                0
            })
            &&& next.aux_low_not_observed - window.aux_low_not_observed == (if started
                && trace.aux_low_not_observed {
                1int
            } else {
                0
            })
            &&& next.idle_gap_invalid - window.idle_gap_invalid == (if started && trace.t5 is Some
                && window.previous_t9 is Some && trace.t5->0 < window.previous_t9->0 {
                1int
            } else {
                0
            })
            &&& !started ==> next.metrics == window.metrics
        }),
{
}

/// The last start of a write that the traces know.
pub open spec fn last_write(traces: Seq<TxTimingTrace>) -> Option<u64>
    decreases traces.len(),
{
    if traces.len() == 0 {
        None
    } else if traces.last().t5 is Some {
        traces.last().t5
    } else {
        last_write(traces.drop_last())
    }
}

/// The last completion that the traces know.
pub open spec fn last_completion(traces: Seq<TxTimingTrace>) -> Option<u64>
    decreases traces.len(),
{
    if traces.len() == 0 {
        None
    } else if traces.last().t9 is Some {
        traces.last().t9
    } else {
        last_completion(traces.drop_last())
    }
}

/// Law: intervals between transmissions start from the last request, the last known write and the
/// last known completion, also across reports.
pub proof fn law_intervals_reach_back(traces: Seq<TxTimingTrace>)
    ensures
        window_after(traces).previous_t0 == (if traces.len() == 0 {
            None
        } else {
            Some(traces.last().t0)
        }),
        window_after(traces).previous_t5 == last_write(traces),
        window_after(traces).previous_t9 == last_completion(traces),
    decreases traces.len(),
{
    if traces.len() > 0 {
        law_intervals_reach_back(traces.drop_last());
    }
}

/// Law: a report closes its window: everything starts again from nothing, and only the time
/// stamps stay.
pub proof fn law_reports_close_the_window(window: Window, trace: TxTimingTrace, metric: int)
    requires
        window.reports_with(trace),
        0 <= metric < METRIC_COUNT,
    ensures
        window.after(trace).metrics[metric] == stats_of(Seq::empty()),
        window.after(trace).periodic_requests == 0,
        window.after(trace).top_trigger_requests == 0,
        window.after(trace).aux_low_not_observed == 0,
        window.after(trace).idle_gap_invalid == 0,
        window.after(trace).previous_t0 == Some(trace.t0),
{
}

/// Law: a report shows, for every metric, how many samples there were, the smallest, the largest
/// and the mean, all zero where there were none, and the four counts of its window.
pub proof fn law_reports_show_the_samples(
    report: TimingReport,
    window: Window,
    metric: int,
    samples: Seq<u64>,
)
    requires
        is_report_of(report, window),
        0 <= metric < METRIC_COUNT,
        window.metrics[metric] == stats_of(samples),
        samples.len() <= u32::MAX,
        sum_of(samples) <= u64::MAX,
    ensures
        ({
            let figures = report.metrics@[metric];
            &&& figures.count == samples.len()
            &&& samples.len() == 0 ==> figures.min == 0 && figures.max == 0 && figures.average == 0
            &&& samples.len() > 0 ==> samples.contains(figures.min) && samples.contains(figures.max)
            &&& forall|i: int|
                0 <= i < samples.len() ==> figures.min <= #[trigger] samples[i] <= figures.max
            &&& samples.len() > 0 ==> figures.average == sum_of(samples) / samples.len() as int
        }),
        report.aux_low_not_observed == window.aux_low_not_observed,
        report.periodic_requests == window.periodic_requests,
        report.top_trigger_requests == window.top_trigger_requests,
        report.idle_gap_invalid == window.idle_gap_invalid,
{
    law_statistics_describe_the_samples(samples);
    if samples.len() > 0 {
        law_average_lies_within_the_samples(samples);
    }
    assert(report.metrics@[metric] == window.metrics[metric].spec_summary());
}

} // verus!
