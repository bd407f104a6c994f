//! Recording telemetry on the SD card: rows are gathered in memory, written when the memory is
//! full and flushed once per second and when recording stops.

use vstd::prelude::*;

use crate::constants::{BUF_SIZE, SD_FLUSH_INTERVAL_SECS};
use crate::csv::{csv_row, line_bytes};
use crate::payload::Payload;

verus! {

/// Number of ticks after which a card that could not be opened is tried again.
pub const REOPEN_INTERVAL_TICKS: u32 = 10;

/// Whether it is time to try again to open the card, this many ticks after it failed. A missing
/// card never stops the log for good.
pub fn reopen_due(ticks_since_failure: u32) -> (due: bool)
    ensures
        due == (ticks_since_failure >= REOPEN_INTERVAL_TICKS),
{
    ticks_since_failure >= REOPEN_INTERVAL_TICKS
}

/// What is to be done with the card.
#[derive(Clone, Copy, Debug, PartialEq, Eq, Structural)]
pub enum SdAction {
    /// Nothing until the next tick.
    Wait,
    /// Write the buffered bytes.
    Write,
    /// Flush what was written.
    Flush,
}

enum Stage {
    Idle,
    RowWrite(heapless::String<256>),
    FlushWrite(bool),
    Flush,
}

/// Gathers rows for the card.
pub struct SdLog {
    buffer: [u8; BUF_SIZE],
    len: usize,
    stage: Stage,
    logging: bool,
    stop_flush_pending: bool,
    needs_flush: bool,
    last_flush_us: u64,
    bytes_since_flush: u64,
    has_error: bool,
    write_errors: u32,
    dropped_rows: u32,
}

/// What the log waits for.
#[verifier::ext_equal]
pub enum LogStage {
    Idle,
    /// The buffer is being written to make room for this row.
    RowWrite(Seq<u8>),
    /// The buffer is being written before a flush, which is due by the clock or not.
    FlushWrite(bool),
    Flush,
}

/// A log: the buffered bytes, what it waits for, whether rows are recorded, and what happened.
#[verifier::ext_equal]
pub struct LogState {
    pub buffered: Seq<u8>,
    pub stage: LogStage,
    pub logging: bool,
    /// Recording has stopped and not everything is known to be on the card.
    pub stop_flush_pending: bool,
    /// Something was written and not flushed yet.
    pub needs_flush: bool,
    pub last_flush_us: u64,
    pub bytes_since_flush: u64,
    /// An operation on the card failed, and no success has made up for it yet.
    pub has_error: bool,
    pub write_errors: u32,
    pub dropped_rows: u32,
}

impl View for SdLog {
    type V = LogState;

    closed spec fn view(&self) -> LogState {
        LogState {
            buffered: self.buffer@.take(self.len as int),
            stage: match self.stage {
                Stage::Idle => LogStage::Idle,
                Stage::RowWrite(line) => LogStage::RowWrite(crate::csv::text_of(line)),
                Stage::FlushWrite(due) => LogStage::FlushWrite(due),
                Stage::Flush => LogStage::Flush,
            },
            logging: self.logging,
            stop_flush_pending: self.stop_flush_pending,
            needs_flush: self.needs_flush,
            last_flush_us: self.last_flush_us,
            bytes_since_flush: self.bytes_since_flush,
            has_error: self.has_error,
            write_errors: self.write_errors,
            dropped_rows: self.dropped_rows,
        }
    }
}

impl LogState {
    /// Rows reach the card.
    pub open spec fn active(self) -> bool {
        self.logging && !self.has_error
    }

    /// There is room for a row.
    pub open spec fn has_room_for(self, row: Seq<u8>) -> bool {
        self.buffered.len() + row.len() <= BUF_SIZE
    }

    /// With a row buffered, or dropped for want of room.
    pub open spec fn with_row(self, row: Seq<u8>) -> LogState {
        if self.has_room_for(row) {
            LogState { buffered: self.buffered + row, ..self }
        } else {
            LogState { dropped_rows: self.dropped_rows.wrapping_add(1), ..self }
        }
    }

    /// A flush is due by the clock.
    pub open spec fn flush_due(self, now_us: u64) -> bool {
        self.logging && now_us - self.last_flush_us >= SD_FLUSH_INTERVAL_SECS * 1_000_000
    }

    /// The choice that follows the row of a tick: write before a flush, flush, or neither.
    pub open spec fn flushing_if_due(self, now_us: u64) -> LogState {
        let due = self.flush_due(now_us);
        if !due && !self.stop_flush_pending {
            LogState { stage: LogStage::Idle, ..self }
        } else if self.buffered.len() > 0 {
            LogState { stage: LogStage::FlushWrite(due), ..self }
        } else {
            self.flushing_after_write(due, now_us)
        }
    }

    /// The choice that follows the write before a flush.
    pub open spec fn flushing_after_write(self, due: bool, now_us: u64) -> LogState {
        if self.needs_flush || (self.stop_flush_pending && self.buffered.len() == 0) {
            LogState { stage: LogStage::Flush, ..self }
        } else if due {
            LogState { stage: LogStage::Idle, last_flush_us: now_us, ..self }
        } else {
            LogState { stage: LogStage::Idle, ..self }
        }
    }

    /// With a failed operation on the card.
    pub open spec fn failed(self) -> LogState {
        LogState { has_error: true, write_errors: self.write_errors.wrapping_add(1), ..self }
    }

    /// After an attempt to write the buffer. What could not be written stays buffered.
    pub open spec fn after_write(self, ok: bool) -> LogState {
        if ok {
            LogState {
                buffered: Seq::empty(),
                needs_flush: true,
                bytes_since_flush: self.bytes_since_flush.saturating_add(
                    self.buffered.len() as u64,
                ),
                has_error: false,
                ..self
            }
        } else {
            self.failed()
        }
    }

    /// After an attempt to flush. A flush makes up for a failure unless bytes are still buffered:
    /// those that the card refused have not been written by it.
    pub open spec fn after_flush(self, ok: bool, now_us: u64) -> LogState {
        if ok {
            LogState {
                stage: LogStage::Idle,
                needs_flush: false,
                bytes_since_flush: 0,
                last_flush_us: now_us,
                has_error: self.has_error && self.buffered.len() > 0,
                stop_flush_pending: self.stop_flush_pending && self.buffered.len() > 0,
                ..self
            }
        } else {
            LogState { stage: LogStage::Idle, ..self.failed() }
        }
    }

    /// With the request to record or not taken into account.
    pub open spec fn requested(self, logging: bool) -> LogState {
        LogState {
            logging,
            stop_flush_pending: if logging && !self.logging {
                false
            } else if !logging && self.logging {
                true
            } else {
                self.stop_flush_pending
            },
            ..self
        }
    }

    /// After a tick.
    pub open spec fn after_tick(self, now_us: u64, logging: bool, payload: Payload) -> LogState {
        let row = crate::csv::row((now_us / 1000) as u64, payload);
        let next = self.requested(logging);
        if !logging {
            next.flushing_if_due(now_us)
        } else if !next.has_room_for(row) && next.buffered.len() > 0 {
            LogState { stage: LogStage::RowWrite(row), ..next }
        } else {
            next.with_row(row).flushing_if_due(now_us)
        }
    }

    /// After the end of a write.
    pub open spec fn after_write_stage(self, ok: bool, now_us: u64) -> LogState {
        match self.stage {
            LogStage::RowWrite(row) => self.after_write(ok).with_row(row).flushing_if_due(now_us),
            LogStage::FlushWrite(due) => self.after_write(ok).flushing_after_write(due, now_us),
            _ => self,
        }
    }
}

impl SdLog {
    #[verifier::type_invariant]
    spec fn within_the_buffer(self) -> bool {
        self.len <= BUF_SIZE
    }

    /// An empty log. The first flush is due one interval after `now_us`.
    pub fn new(now_us: u64) -> (log: Self)
        ensures
            log@ == (LogState {
                buffered: Seq::empty(),
                stage: LogStage::Idle,
                logging: false,
                stop_flush_pending: false,
                needs_flush: false,
                last_flush_us: now_us,
                bytes_since_flush: 0,
                has_error: false,
                write_errors: 0,
                dropped_rows: 0,
            }),
    {
        let log = SdLog {
            buffer: [0; BUF_SIZE],
            len: 0,
            stage: Stage::Idle,
            logging: false,
            stop_flush_pending: false,
            needs_flush: false,
            last_flush_us: now_us,
            bytes_since_flush: 0,
            has_error: false,
            write_errors: 0,
            dropped_rows: 0,
        };
        assert(log@.buffered =~= Seq::<u8>::empty());
        log
    }

    /// What is to be done with the card.
    pub fn action(&self) -> (action: SdAction)
        ensures
            action == (match self@.stage {
                LogStage::Idle => SdAction::Wait,
                LogStage::RowWrite(_) => SdAction::Write,
                LogStage::FlushWrite(_) => SdAction::Write,
                LogStage::Flush => SdAction::Flush,
            }),
    {
        match self.stage {
            Stage::Idle => SdAction::Wait,
            Stage::RowWrite(_) | Stage::FlushWrite(_) => SdAction::Write,
            Stage::Flush => SdAction::Flush,
        }
    }

    /// The bytes to write.
    pub fn buffered(&self) -> (bytes: &[u8])
        ensures
            bytes@ == self@.buffered,
    {
        proof {
            use_type_invariant(self);
        }
        let all: &[u8] = self.buffer.as_slice();
        let bytes: &[u8] = vstd::slice::slice_subrange(all, 0, self.len);
        assert(bytes@ =~= self@.buffered);
        bytes
    }

    /// Whether rows are recorded and reach the card.
    pub fn is_active(&self) -> (active: bool)
        ensures
            active == self@.active(),
    {
        self.logging && !self.has_error
    }

    /// Whether an operation on the card failed and no success has made up for it yet.
    pub fn has_error(&self) -> (error: bool)
        ensures
            error == self@.has_error,
    {
        self.has_error
    }

    pub fn write_error_count(&self) -> (count: u32)
        ensures
            count == self@.write_errors,
    {
        self.write_errors
    }

    pub fn dropped_row_count(&self) -> (count: u32)
        ensures
            count == self@.dropped_rows,
    {
        self.dropped_rows
    }

    /// Whether there are bytes that have not been written.
    pub fn has_unflushed_data(&self) -> (unflushed: bool)
        ensures
            unflushed == (self@.buffered.len() > 0),
    {
        proof {
            use_type_invariant(self);
        }
        self.len > 0
    }

    /// Bytes written since the last flush.
    pub fn bytes_since_flush(&self) -> (count: u64)
        ensures
            count == self@.bytes_since_flush,
    {
        self.bytes_since_flush
    }

    /// Takes note that the card or the file could not be opened.
    pub fn card_failed(&mut self)
        ensures
            final(self)@ == old(self)@.failed(),
    {
        proof {
            use_type_invariant(&*self);
        }
        self.has_error = true;
        self.write_errors = self.write_errors.wrapping_add(1);
    }

    /// Takes over the request to record or not, adds a row if there is one to record, and
    /// decides what to do with the card.
    pub fn tick(&mut self, now_us: u64, logging: bool, payload: &Payload)
        requires
            old(self)@.stage is Idle,
        ensures
            final(self)@ == old(self)@.after_tick(now_us, logging, *payload),
    {
        proof {
            use_type_invariant(&*self);
        }
        if logging && !self.logging {
            self.stop_flush_pending = false;
        } else if !logging && self.logging {
            self.stop_flush_pending = true;
        }
        self.logging = logging;
        if logging {
            let line = csv_row(now_us / 1000, payload);
            let len: usize = line_bytes(&line).len();
            if self.len > 0 && !self.has_room(len) {
                self.stage = Stage::RowWrite(line);
                return;
            }
            self.append(&line);
        }
        self.flush_if_due(now_us);
    }

    /// Takes the result of the write.
    pub fn write_done(&mut self, ok: bool, now_us: u64)
        requires
            old(self)@.stage is RowWrite || old(self)@.stage is FlushWrite,
        ensures
            final(self)@ == old(self)@.after_write_stage(ok, now_us),
    {
        proof {
            use_type_invariant(&*self);
        }
        let mut stage = Stage::Idle;
        core::mem::swap(&mut stage, &mut self.stage);
        if ok {
            let written: u64 = self.len as u64;
            self.bytes_since_flush = self.bytes_since_flush.saturating_add(written);
            self.len = 0;
            assert(self@.buffered =~= Seq::<u8>::empty());
            self.needs_flush = true;
            self.has_error = false;
        } else {
            self.has_error = true;
            self.write_errors = self.write_errors.wrapping_add(1);
        }
        match stage {
            Stage::RowWrite(line) => {
                self.append(&line);
                self.flush_if_due(now_us);
            },
            Stage::FlushWrite(due) => {
                self.flush_after_write(due, now_us);
            },
            _ => {},
        }
    }

    /// Takes the result of the flush.
    pub fn flush_done(&mut self, ok: bool, now_us: u64)
        requires
            old(self)@.stage is Flush,
        ensures
            final(self)@ == old(self)@.after_flush(ok, now_us),
    {
        proof {
            use_type_invariant(&*self);
        }
        self.stage = Stage::Idle;
        if ok {
            self.needs_flush = false;
            self.bytes_since_flush = 0;
            self.last_flush_us = now_us;
            if self.len == 0 {
                self.has_error = false;
                self.stop_flush_pending = false;
            }
        } else {
            self.has_error = true;
            self.write_errors = self.write_errors.wrapping_add(1);
        }
    }

    fn has_room(&self, len: usize) -> (room: bool)
        ensures
            room == (self@.buffered.len() + len <= BUF_SIZE),
    {
        proof {
            use_type_invariant(self);
        }
        len <= BUF_SIZE && self.len <= BUF_SIZE - len
    }

    fn append(&mut self, line: &heapless::String<256>)
        ensures
            final(self)@ == old(self)@.with_row(crate::csv::text_of(*line)),
    {
        proof {
            use_type_invariant(&*self);
        }
        let bytes = line_bytes(line);
        if self.has_room(bytes.len()) {
            let start: usize = self.len;
            let mut index: usize = 0;
            while index < bytes.len()
                invariant
                    index <= bytes@.len(),
                    start + bytes@.len() <= BUF_SIZE,
                    self.len == start + index,
                    start == old(self)@.buffered.len(),
                    self@ == (LogState {
                        buffered: old(self)@.buffered + bytes@.take(index as int),
                        ..old(self)@
                    }),
                decreases bytes@.len() - index,
            {
                let ghost before = self@.buffered;
                let at: usize = self.len;
                self.buffer[at] = bytes[index];
                self.len = at + 1;
                index = index + 1;
                assert(self@.buffered =~= before.push(bytes@[index - 1]));
                assert(bytes@.take(index as int) =~= bytes@.take(index - 1).push(
                    bytes@[index - 1],
                ));
                assert(self@.buffered =~= old(self)@.buffered + bytes@.take(index as int));
            }
            assert(bytes@.take(bytes@.len() as int) =~= bytes@);
        } else {
            self.dropped_rows = self.dropped_rows.wrapping_add(1);
        }
    }

    fn flush_if_due(&mut self, now_us: u64)
        ensures
            final(self)@ == old(self)@.flushing_if_due(now_us),
    {
        proof {
            use_type_invariant(&*self);
        }
        let due = self.logging && now_us.saturating_sub(self.last_flush_us)
            >= SD_FLUSH_INTERVAL_SECS * 1_000_000;
        if !due && !self.stop_flush_pending {
            self.stage = Stage::Idle;
        } else if self.len > 0 {
            self.stage = Stage::FlushWrite(due);
        } else {
            self.flush_after_write(due, now_us);
        }
    }

    fn flush_after_write(&mut self, due: bool, now_us: u64)
        ensures
            final(self)@ == old(self)@.flushing_after_write(due, now_us),
    {
        proof {
            use_type_invariant(&*self);
        }
        if self.needs_flush || (self.stop_flush_pending && self.len == 0) {
            self.stage = Stage::Flush;
        } else {
            self.stage = Stage::Idle;
            if due {
                self.last_flush_us = now_us;
            }
        }
    }
}

/// Something that happens to a log.
pub enum LogEvent {
    Tick { now_us: u64, logging: bool, payload: Payload },
    WriteDone { ok: bool, now_us: u64 },
    FlushDone { ok: bool, now_us: u64 },
}

impl LogState {
    /// The event fits what the log waits for.
    pub open spec fn awaits(self, event: LogEvent) -> bool {
        match event {
            LogEvent::Tick { .. } => self.stage is Idle,
            LogEvent::WriteDone { .. } => self.stage is RowWrite || self.stage is FlushWrite,
            LogEvent::FlushDone { .. } => self.stage is Flush,
        }
    }

    /// The log after an event.
    pub open spec fn after(self, event: LogEvent) -> LogState {
        match event {
            LogEvent::Tick { now_us, logging, payload } => self.after_tick(
                now_us,
                logging,
                payload,
            ),
            LogEvent::WriteDone { ok, now_us } => self.after_write_stage(ok, now_us),
            LogEvent::FlushDone { ok, now_us } => self.after_flush(ok, now_us),
        }
    }

    /// What an event brings onto the card.
    pub open spec fn written_by(self, event: LogEvent) -> Seq<u8> {
        match event {
            LogEvent::WriteDone { ok: true, .. } => self.buffered,
            _ => Seq::empty(),
        }
    }

    /// The row that an event settles: it is kept or dropped with this event.
    pub open spec fn settled_row(self, event: LogEvent) -> Option<Seq<u8>> {
        match event {
            LogEvent::Tick { now_us, logging, payload } => if logging && !(self.after(
                event,
            ).stage is RowWrite) {
                Some(crate::csv::row((now_us / 1000) as u64, payload))
            } else {
                None
            },
            LogEvent::WriteDone { .. } => match self.stage {
                LogStage::RowWrite(row) => Some(row),
                _ => None,
            },
            LogEvent::FlushDone { .. } => None,
        }
    }

    /// The bytes that are buffered when the row of an event is settled.
    pub open spec fn held_for_row(self, event: LogEvent) -> Seq<u8> {
        match event {
            LogEvent::WriteDone { ok: true, .. } => Seq::empty(),
            _ => self.buffered,
        }
    }

    /// The row of the event is dropped.
    pub open spec fn drops_row(self, event: LogEvent) -> bool {
        self.settled_row(event) matches Some(row) && self.held_for_row(event).len() + row.len()
            > BUF_SIZE
    }

    /// The row that an event adds to those that are kept.
    pub open spec fn kept_row(self, event: LogEvent) -> Seq<u8> {
        match self.settled_row(event) {
            Some(row) => if self.drops_row(event) {
                Seq::empty()
            } else {
                row
            },
            None => Seq::empty(),
        }
    }
}

/// The log after a run of events.
pub open spec fn after_run(start: LogState, run: Seq<LogEvent>) -> LogState
    decreases run.len(),
{
    if run.len() == 0 {
        start
    } else {
        after_run(start, run.drop_last()).after(run.last())
    }
}

/// Every event of the run fits what the log waited for.
pub open spec fn is_run(start: LogState, run: Seq<LogEvent>) -> bool
    decreases run.len(),
{
    run.len() > 0 ==> is_run(start, run.drop_last()) && after_run(start, run.drop_last()).awaits(
        run.last(),
    )
}

/// What a run brings onto the card.
pub open spec fn on_card(start: LogState, run: Seq<LogEvent>) -> Seq<u8>
    decreases run.len(),
{
    if run.len() == 0 {
        Seq::empty()
    } else {
        on_card(start, run.drop_last()) + after_run(start, run.drop_last()).written_by(run.last())
    }
}

/// The rows that are kept during a run, one after the other.
pub open spec fn kept_rows(start: LogState, run: Seq<LogEvent>) -> Seq<u8>
    decreases run.len(),
{
    if run.len() == 0 {
        Seq::empty()
    } else {
        kept_rows(start, run.drop_last()) + after_run(start, run.drop_last()).kept_row(run.last())
    }
}

/// Number of rows that are dropped during a run.
pub open spec fn dropped_rows(start: LogState, run: Seq<LogEvent>) -> nat
    decreases run.len(),
{
    if run.len() == 0 {
        0
    } else {
        dropped_rows(start, run.drop_last()) + if after_run(start, run.drop_last()).drops_row(
            run.last(),
        ) {
            1nat
        } else {
            0
        }
    }
}

proof fn lemma_one_event(log: LogState, event: LogEvent)
    requires
        log.awaits(event),
    ensures
        log.after(event).buffered == log.held_for_row(event) + log.kept_row(event),
        log.after(event).dropped_rows == (if log.drops_row(event) {
            log.dropped_rows.wrapping_add(1)
        } else {
            log.dropped_rows
        }),
{
    assert(log.held_for_row(event) + Seq::<u8>::empty() =~= log.held_for_row(event));
}

/// Law: nothing is lost on the way to the card and nothing changes its place: what is on the card,
/// followed by what is still buffered, is what the kept rows spell, however the operations on
/// the card turn out.
pub proof fn law_kept_rows_reach_the_card_in_order(start: LogState, run: Seq<LogEvent>)
    requires
        is_run(start, run),
    ensures
        on_card(start, run) + after_run(start, run).buffered == start.buffered + kept_rows(
            start,
            run,
        ),
    decreases run.len(),
{
    if run.len() == 0 {
        assert(on_card(start, run) + start.buffered =~= start.buffered + kept_rows(start, run));
    } else {
        let before = after_run(start, run.drop_last());
        let event = run.last();
        law_kept_rows_reach_the_card_in_order(start, run.drop_last());
        lemma_one_event(before, event);
        assert(before.written_by(event) + before.held_for_row(event) =~= before.buffered);
        assert(on_card(start, run) + after_run(start, run).buffered =~= (on_card(
            start,
            run.drop_last(),
        ) + before.buffered) + before.kept_row(event));
        assert((start.buffered + kept_rows(start, run.drop_last())) + before.kept_row(event)
            =~= start.buffered + kept_rows(start, run));
    }
}

/// Law: every dropped row is counted, up to the range of the counter.
pub proof fn law_dropped_rows_are_counted(start: LogState, run: Seq<LogEvent>)
    requires
        is_run(start, run),
        start.dropped_rows + dropped_rows(start, run) <= u32::MAX,
    ensures
        after_run(start, run).dropped_rows == start.dropped_rows + dropped_rows(start, run),
    decreases run.len(),
{
    if run.len() > 0 {
        law_dropped_rows_are_counted(start, run.drop_last());
        lemma_one_event(after_run(start, run.drop_last()), run.last());
    }
}

/// Law: the memory for the rows is never exceeded.
pub proof fn law_buffer_is_bounded(start: LogState, run: Seq<LogEvent>)
    requires
        is_run(start, run),
        start.buffered.len() <= BUF_SIZE,
    ensures
        after_run(start, run).buffered.len() <= BUF_SIZE,
    decreases run.len(),
{
    if run.len() > 0 {
        law_buffer_is_bounded(start, run.drop_last());
        lemma_one_event(after_run(start, run.drop_last()), run.last());
    }
}

/// The row that waits for room is a row of the log.
pub open spec fn waiting_row_fits(log: LogState) -> bool {
    log.stage matches LogStage::RowWrite(row) ==> row.len() <= crate::csv::MAX_ROW_LEN
}

/// Law: a row is dropped only when the card refused the bytes that stood in its way.
pub proof fn law_rows_are_dropped_only_after_a_failed_write(
    start: LogState,
    run: Seq<LogEvent>,
    event: LogEvent,
)
    requires
        start.stage is Idle,
        is_run(start, run),
        after_run(start, run).awaits(event),
        after_run(start, run).drops_row(event),
    ensures
        event matches LogEvent::WriteDone { ok, .. } && !ok,
{
    lemma_waiting_rows_fit(start, run);
    if let LogEvent::Tick { now_us, logging, payload } = event {
        crate::csv::law_rows_fit((now_us / 1000) as u64, payload);
    }
}

proof fn lemma_waiting_rows_fit(start: LogState, run: Seq<LogEvent>)
    requires
        start.stage is Idle,
    ensures
        waiting_row_fits(after_run(start, run)),
    decreases run.len(),
{
    if run.len() > 0 {
        lemma_waiting_rows_fit(start, run.drop_last());
        if let LogEvent::Tick { now_us, logging, payload } = run.last() {
            crate::csv::law_rows_fit((now_us / 1000) as u64, payload);
        }
    }
}

/// Law: when recording stops and the card works, everything buffered is written and flushed and
/// nothing remains to be done.
pub proof fn law_stopping_empties_the_log(
    log: LogState,
    payload: Payload,
    tick_us: u64,
    write_us: u64,
    flush_us: u64,
)
    requires
        log.stage is Idle,
        log.logging,
    ensures
        ({
            let stopped = log.after_tick(tick_us, false, payload);
            let written = if log.buffered.len() > 0 {
                stopped.after_write_stage(true, write_us)
            } else {
                stopped
            };
            let flushed = written.after_flush(true, flush_us);
            &&& log.buffered.len() > 0 ==> stopped.stage is FlushWrite && stopped.buffered
                == log.buffered
            &&& written.stage is Flush
            &&& flushed.stage is Idle
            &&& flushed.buffered.len() == 0
            &&& !flushed.needs_flush
            &&& !flushed.stop_flush_pending
        }),
{
}

/// Law: a failed operation on the card ends the active state and is counted, and no buffered byte
/// is lost by it.
pub proof fn law_failures_are_visible(log: LogState, now_us: u64)
    requires
        log.stage is RowWrite || log.stage is FlushWrite || log.stage is Flush,
    ensures
        !(log.stage is Flush) ==> {
            let after = log.after_write_stage(false, now_us);
            &&& !after.active() && after.has_error
            &&& after.write_errors == log.write_errors.wrapping_add(1)
            &&& log.buffered.len() <= after.buffered.len() && after.buffered.take(
                log.buffered.len() as int,
            ) == log.buffered
        },
        log.stage is Flush ==> {
            let after = log.after_flush(false, now_us);
            &&& !after.active() && after.has_error
            &&& after.write_errors == log.write_errors.wrapping_add(1)
            &&& after.buffered == log.buffered
            &&& after.needs_flush == log.needs_flush
            &&& after.stop_flush_pending == log.stop_flush_pending
        },
{
    if !(log.stage is Flush) {
        let after = log.after_write_stage(false, now_us);
        assert(after.buffered.take(log.buffered.len() as int) =~= log.buffered);
    }
}

/// Bytes that the card refused are buffered still, and the log shows it.
pub open spec fn holds_refused_bytes(log: LogState) -> bool {
    log.has_error && log.buffered.len() > 0
}

proof fn lemma_writes_have_bytes(start: LogState, run: Seq<LogEvent>)
    requires
        start.stage is Idle,
        is_run(start, run),
    ensures
        after_run(start, run).stage is RowWrite || after_run(start, run).stage is FlushWrite
            ==> after_run(start, run).buffered.len() > 0,
    decreases run.len(),
{
    if run.len() > 0 {
        lemma_writes_have_bytes(start, run.drop_last());
    }
}

/// Law: once the card has refused a write, the log holds the refused bytes and is not active
/// until a write succeeds, whatever is flushed meanwhile.
pub proof fn law_refused_bytes_keep_the_log_inactive(
    start: LogState,
    run: Seq<LogEvent>,
    refused: int,
)
    requires
        start.stage is Idle,
        is_run(start, run),
        0 <= refused < run.len(),
        run[refused] matches LogEvent::WriteDone { ok, .. } && !ok,
        forall|i: int|
            refused < i < run.len() ==> !(#[trigger] run[i] matches LogEvent::WriteDone { ok, .. }
                && ok),
    ensures
        holds_refused_bytes(after_run(start, run)),
        !after_run(start, run).active(),
    decreases run.len(),
{
    let earlier = run.drop_last();
    if refused == earlier.len() {
        lemma_writes_have_bytes(start, earlier);
        law_failures_are_visible(after_run(start, earlier), match run.last() {
            LogEvent::WriteDone { now_us, .. } => now_us,
            _ => 0,
        });
    } else {
        assert(earlier[refused] == run[refused]);
        assert forall|i: int| refused < i < earlier.len() implies !(
        #[trigger] earlier[i] matches LogEvent::WriteDone { ok, .. } && ok) by {
            assert(earlier[i] == run[i]);
        }
        law_refused_bytes_keep_the_log_inactive(start, earlier, refused);
        assert(!(run[run.len() - 1] matches LogEvent::WriteDone { ok, .. } && ok));
    }
}

/// How many operations on the card can follow before the next tick.
pub open spec fn operations_left(log: LogState) -> int {
    match log.stage {
        LogStage::Idle => 0,
        LogStage::RowWrite(_) => 3,
        LogStage::FlushWrite(_) => 2,
        LogStage::Flush => 1,
    }
}

/// Law: a tick leads to three operations on the card at most, whether they succeed or not.
pub proof fn law_operations_end(log: LogState, ok: bool, now_us: u64)
    ensures
        log.stage is RowWrite || log.stage is FlushWrite ==> operations_left(
            log.after_write_stage(ok, now_us),
        ) < operations_left(log),
        log.stage is Flush ==> operations_left(log.after_flush(ok, now_us)) == 0,
        0 <= operations_left(log) <= 3,
{
}

/// Law: a tick records the record as it is then, in milliseconds: at once where the row fits, and
/// otherwise after the buffered bytes were written. Without the request nothing is recorded.
pub proof fn law_ticks_record_the_row(log: LogState, now_us: u64, payload: Payload)
    requires
        log.stage is Idle,
    ensures
        ({
            let row = crate::csv::row((now_us / 1000) as u64, payload);
            let recorded = log.after_tick(now_us, true, payload);
            let fits = log.buffered.len() + row.len() <= BUF_SIZE;
            &&& recorded.logging
            &&& fits ==> recorded.buffered == log.buffered + row && !(recorded.stage is RowWrite)
            &&& !fits && log.buffered.len() > 0 ==> recorded.buffered == log.buffered
                && recorded.stage == LogStage::RowWrite(row)
            &&& recorded.dropped_rows == log.dropped_rows && recorded.write_errors
                == log.write_errors && recorded.has_error == log.has_error
        }),
        ({
            let idle = log.after_tick(now_us, false, payload);
            &&& !idle.logging
            &&& idle.buffered == log.buffered && !(idle.stage is RowWrite)
            &&& idle.dropped_rows == log.dropped_rows && idle.write_errors == log.write_errors
                && idle.has_error == log.has_error
        }),
{
    crate::csv::law_rows_fit((now_us / 1000) as u64, payload);
}

/// Law: while rows are recorded the card is used once per second and not earlier, unless the
/// buffer is full; without recording it is left alone, unless the end of a recording is still to
/// be brought onto it.
pub proof fn law_card_is_used_once_per_second(log: LogState, now_us: u64, payload: Payload)
    requires
        log.stage is Idle,
        !log.stop_flush_pending,
    ensures
        ({
            let row = crate::csv::row((now_us / 1000) as u64, payload);
            let recorded = log.after_tick(now_us, true, payload);
            log.buffered.len() + row.len() <= BUF_SIZE ==> {
                &&& now_us - log.last_flush_us < 1_000_000 ==> recorded.stage is Idle
                &&& now_us - log.last_flush_us >= 1_000_000 ==> recorded.stage
                    == LogStage::FlushWrite(true)
                &&& recorded.last_flush_us == log.last_flush_us
            }
        }),
        !log.logging ==> log.after_tick(now_us, false, payload) == log,
{
    crate::csv::law_rows_fit((now_us / 1000) as u64, payload);
}

/// Law: the end of a recording is to be brought onto the card until it is there, and the start of
/// another recording takes its place.
pub proof fn law_stop_is_remembered(log: LogState, now_us: u64, logging: bool, payload: Payload)
    requires
        log.stage is Idle,
    ensures
        ({
            let next = log.after_tick(now_us, logging, payload);
            &&& log.logging && !logging ==> next.stop_flush_pending
            &&& !log.logging && logging ==> !next.stop_flush_pending
            &&& log.logging == logging ==> next.stop_flush_pending == log.stop_flush_pending
            &&& !logging && next.stop_flush_pending && log.buffered.len() > 0 ==> next.stage
                is FlushWrite
            &&& !logging && next.stop_flush_pending && log.buffered.len() == 0 ==> next.stage
                is Flush
        }),
{
}

/// Law: a successful write empties the buffer, counts the bytes, makes up for an earlier failure
/// and calls for a flush: at once where it was made for one. The row that waited for room is then
/// the first in the buffer.
pub proof fn law_writes_empty_the_buffer(log: LogState, now_us: u64)
    requires
        log.stage is RowWrite || log.stage is FlushWrite,
        log.bytes_since_flush + log.buffered.len() <= u64::MAX,
    ensures
        ({
            let next = log.after_write_stage(true, now_us);
            &&& next.needs_flush
            &&& !next.has_error
            &&& next.active() <==> log.logging
            &&& next.bytes_since_flush == log.bytes_since_flush + log.buffered.len()
            &&& next.write_errors == log.write_errors
            &&& next.last_flush_us == log.last_flush_us
            &&& log.stage is FlushWrite ==> next.stage is Flush && next.buffered.len() == 0
            &&& log.stage matches LogStage::RowWrite(row) ==> 0 < row.len() <= BUF_SIZE ==> {
                &&& next.buffered == row
                &&& log.logging && now_us - log.last_flush_us >= 1_000_000 ==> next.stage
                    == LogStage::FlushWrite(true)
                &&& now_us - log.last_flush_us < 1_000_000 && !log.stop_flush_pending
                    ==> next.stage is Idle
            }
        }),
{
    if let LogStage::RowWrite(row) = log.stage {
        assert(Seq::<u8>::empty() + row =~= row);
    }
}

/// Law: a failed write before a flush leaves the buffer as it was; what was written earlier is
/// flushed all the same, and otherwise a flush that was due by the clock is due again a second
/// later.
pub proof fn law_failed_writes_keep_the_buffer(log: LogState, due: bool, now_us: u64)
    requires
        log.stage == LogStage::FlushWrite(due),
        log.buffered.len() > 0,
    ensures
        ({
            let next = log.after_write_stage(false, now_us);
            &&& next.buffered == log.buffered
            &&& next.needs_flush == log.needs_flush
            &&& next.bytes_since_flush == log.bytes_since_flush
            &&& log.needs_flush ==> next.stage is Flush && next.last_flush_us == log.last_flush_us
            &&& !log.needs_flush ==> next.stage is Idle
            &&& !log.needs_flush && due ==> next.last_flush_us == now_us
            &&& !log.needs_flush && !due ==> next.last_flush_us == log.last_flush_us
        }),
{
}

/// Law: a successful flush is the start of another second, nothing is unflushed after it, and it
/// makes up for a failure exactly where no refused bytes are left.
pub proof fn law_flushes_start_another_second(log: LogState, now_us: u64)
    requires
        log.stage is Flush,
    ensures
        ({
            let next = log.after_flush(true, now_us);
            &&& next.stage is Idle
            &&& next.last_flush_us == now_us
            &&& next.bytes_since_flush == 0
            &&& !next.needs_flush
            &&& next.buffered == log.buffered
            &&& next.logging == log.logging
            &&& log.buffered.len() == 0 ==> !next.has_error && !next.stop_flush_pending
            &&& log.buffered.len() > 0 ==> next.has_error == log.has_error
                && next.stop_flush_pending == log.stop_flush_pending
            &&& next.write_errors == log.write_errors && next.dropped_rows == log.dropped_rows
        }),
{
}

} // verus!
