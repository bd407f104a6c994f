//! The round-trip trial of the radio link: numbered downlinks, the responses to them, and the
//! statistics of both.
//!
//! A response carries a command, the number of the downlink that it answers, and the exclusive or
//! of both. All of it has to arrive within a fixed time of its first byte.

use vstd::prelude::*;

use crate::can::command::GroundCommand;
use crate::payload::{Payload, PAYLOAD_LEN};

verus! {

/// Number of trials between two summaries.
pub const SUMMARY_INTERVAL: u64 = 100;

/// Length of a response.
pub const RESPONSE_LEN: usize = 3;

/// Longest time from the first to the last byte of a response, in microseconds.
pub const RESPONSE_WINDOW_US: u64 = 20_000;

/// Something that the radio link reports.
#[derive(Clone, Copy, Debug, PartialEq, Eq, Structural)]
pub enum TestEvent {
    AuxFall { at_us: u64 },
    AuxRise { at_us: u64 },
    UplinkValid { command: u8, sequence: u8, first_us: u64, last_us: u64 },
    ChecksumError,
    LengthError,
    UnknownCommand,
}

/// One trial: a downlink, what AUX did and the response.
#[derive(Clone, Copy, Debug, PartialEq, Eq, Structural)]
pub struct TestRecord {
    pub dl_seq: u8,
    pub dl_schedule_us: u64,
    pub dl_uart_start_us: u64,
    pub dl_uart_end_us: u64,
    pub dl_aux_fall_us: Option<u64>,
    pub dl_aux_rise_us: Option<u64>,
    pub ul_command: Option<u8>,
    pub ul_seq: Option<u8>,
    pub ul_first_us: Option<u64>,
    pub ul_last_us: Option<u64>,
    pub next_dl_schedule_us: u64,
    pub tx_ok: bool,
}

impl TestRecord {
    /// A downlink without anything seen of AUX or of a response.
    pub open spec fn fresh(
        dl_seq: u8,
        dl_schedule_us: u64,
        dl_uart_start_us: u64,
        dl_uart_end_us: u64,
        next_dl_schedule_us: u64,
        tx_ok: bool,
    ) -> TestRecord {
        TestRecord {
            dl_seq,
            dl_schedule_us,
            dl_uart_start_us,
            dl_uart_end_us,
            dl_aux_fall_us: None,
            dl_aux_rise_us: None,
            ul_command: None,
            ul_seq: None,
            ul_first_us: None,
            ul_last_us: None,
            next_dl_schedule_us,
            tx_ok,
        }
    }

    pub fn new(
        dl_seq: u8,
        dl_schedule_us: u64,
        dl_uart_start_us: u64,
        dl_uart_end_us: u64,
        next_dl_schedule_us: u64,
        tx_ok: bool,
    ) -> (record: Self)
        ensures
            record == TestRecord::fresh(
                dl_seq,
                dl_schedule_us,
                dl_uart_start_us,
                dl_uart_end_us,
                next_dl_schedule_us,
                tx_ok,
            ),
    {
        TestRecord {
            dl_seq,
            dl_schedule_us,
            dl_uart_start_us,
            dl_uart_end_us,
            dl_aux_fall_us: None,
            dl_aux_rise_us: None,
            ul_command: None,
            ul_seq: None,
            ul_first_us: None,
            ul_last_us: None,
            next_dl_schedule_us,
            tx_ok,
        }
    }

    /// The time lies between the start of this downlink and the schedule of the next.
    pub open spec fn covers(self, at_us: u64) -> bool {
        self.dl_uart_start_us <= at_us < self.next_dl_schedule_us
    }
}

/// An entry for the statistics.
#[derive(Clone, Copy, Debug, PartialEq, Eq, Structural)]
pub enum LogEvent {
    Record(TestRecord),
    ChecksumError,
    LengthError,
    UnknownCommand,
    SequenceMissing(u32),
    SequenceDuplicate,
}

/// The telemetry record of a trial: fixed values with the number of the downlink as status.
pub open spec fn is_trial_payload(payload: Payload, sequence: u8) -> bool {
    &&& payload.add_h == 0 && payload.add_l == 0 && payload.chnnl == 4
    &&& payload.header1 == 0xaa
    &&& payload.status == sequence
    &&& payload.gnss_lat == 0x1234_5678 && payload.gnss_long == -0x1234_5678
    &&& payload.gnss_height == 123
    &&& payload.angle_speed@ == seq![1i16, -2i16, 3i16]
    &&& payload.acceleration@ == seq![100i16, -200i16, 300i16]
    &&& payload.integrated_angle@ == seq![10i16, 20i16, 30i16]
    &&& payload.air_pressure@ == seq![0x11u8, 0x22u8, 0x33u8]
    &&& payload.air_speed == 0x44
    &&& payload.fin_angle == -5
}

/// The downlink with number `sequence`.
pub fn build_downlink(sequence: u8) -> (bytes: [u8; PAYLOAD_LEN])
    ensures
        exists|payload: Payload| #[trigger]
            is_trial_payload(payload, sequence) && bytes@ == payload.sealed().wire(),
{
    let mut payload = Payload::new();
    payload.status = sequence;
    payload.gnss_lat = 0x1234_5678;
    payload.gnss_long = -0x1234_5678;
    payload.gnss_height = 123;
    payload.angle_speed = [1, -2, 3];
    payload.acceleration = [100, -200, 300];
    payload.integrated_angle = [10, 20, 30];
    payload.air_pressure = [0x11, 0x22, 0x33];
    payload.air_speed = 0x44;
    payload.fin_angle = -5;
    assert(payload.angle_speed@ =~= seq![1i16, -2i16, 3i16]);
    assert(payload.acceleration@ =~= seq![100i16, -200i16, 300i16]);
    assert(payload.integrated_angle@ =~= seq![10i16, 20i16, 30i16]);
    assert(payload.air_pressure@ =~= seq![0x11u8, 0x22u8, 0x33u8]);
    assert(is_trial_payload(payload, sequence));
    payload.prepare_downlink()
}

/// What handing a downlink to the modem waits for.
#[derive(Clone, Copy, Debug, PartialEq, Eq, Structural)]
pub enum WriteStage {
    /// The UART is to accept the rest.
    Writing,
    Flushing,
    /// It is over, with success or not.
    Finished(bool),
}

/// What the UART did.
#[derive(Clone, Copy, Debug, PartialEq, Eq, Structural)]
pub enum UartEvent {
    /// It accepted this many of the remaining bytes.
    Written(usize),
    Flushed,
    Failed,
}

/// Hands a downlink to the modem, piece by piece.
pub struct DownlinkWriter {
    bytes: [u8; PAYLOAD_LEN],
    written: usize,
    stage: WriteStage,
}

/// A downlink on its way: its bytes, how many the UART has accepted, and what is awaited.
#[verifier::ext_equal]
pub struct WriteProgress {
    pub bytes: Seq<u8>,
    pub written: nat,
    pub stage: WriteStage,
}

impl WriteProgress {
    /// The event answers what is awaited, and a write accepts no more than it was given.
    pub open spec fn awaits(self, event: UartEvent) -> bool {
        match self.stage {
            WriteStage::Writing => event is Failed || (event matches UartEvent::Written(count)
                && count <= self.bytes.len() - self.written),
            WriteStage::Flushing => event is Failed || event is Flushed,
            WriteStage::Finished(_) => false,
        }
    }

    /// The downlink after an event. A write that makes no progress is a failure.
    pub open spec fn after(self, event: UartEvent) -> WriteProgress {
        match event {
            UartEvent::Written(count) => WriteProgress {
                written: self.written + count as nat,
                stage: if count == 0 {
                    WriteStage::Finished(false)
                } else if self.written + count < self.bytes.len() {
                    WriteStage::Writing
                } else {
                    WriteStage::Flushing
                },
                ..self
            },
            UartEvent::Flushed => WriteProgress { stage: WriteStage::Finished(true), ..self },
            UartEvent::Failed => WriteProgress { stage: WriteStage::Finished(false), ..self },
        }
    }
}

impl View for DownlinkWriter {
    type V = WriteProgress;

    closed spec fn view(&self) -> WriteProgress {
        WriteProgress { bytes: self.bytes@, written: self.written as nat, stage: self.stage }
    }
}

impl DownlinkWriter {
    #[verifier::type_invariant]
    spec fn accepted_no_more_than_given(self) -> bool {
        self.written <= PAYLOAD_LEN
    }

    pub fn new(bytes: [u8; PAYLOAD_LEN]) -> (writer: Self)
        ensures
            writer@ == (WriteProgress {
                bytes: bytes@,
                written: 0,
                stage: WriteStage::Writing,
            }),
    {
        DownlinkWriter { bytes, written: 0, stage: WriteStage::Writing }
    }

    /// What is awaited.
    pub fn stage(&self) -> (stage: WriteStage)
        ensures
            stage == self@.stage,
    {
        self.stage
    }

    /// The bytes that the UART has not accepted yet.
    pub fn remaining(&self) -> (rest: &[u8])
        ensures
            rest@ == self@.bytes.skip(self@.written as int),
    {
        proof {
            use_type_invariant(self);
        }
        let all: &[u8] = self.bytes.as_slice();
        let rest: &[u8] = vstd::slice::slice_subrange(all, self.written, PAYLOAD_LEN);
        assert(rest@ =~= self@.bytes.skip(self@.written as int));
        rest
    }

    /// Takes what the UART did.
    pub fn step(&mut self, event: UartEvent)
        requires
            old(self)@.awaits(event),
        ensures
            final(self)@ == old(self)@.after(event),
    {
        proof {
            use_type_invariant(&*self);
        }
        match event {
            UartEvent::Written(count) => {
                self.written = self.written + count;
                self.stage = if count == 0 {
                    WriteStage::Finished(false)
                } else if self.written < PAYLOAD_LEN {
                    WriteStage::Writing
                } else {
                    WriteStage::Flushing
                };
            },
            UartEvent::Flushed => {
                self.stage = WriteStage::Finished(true);
            },
            UartEvent::Failed => {
                self.stage = WriteStage::Finished(false);
            },
        }
    }
}

/// Collects the bytes of a response.
pub struct ResponseBuffer {
    frame: [u8; RESPONSE_LEN],
    len: usize,
    first_us: u64,
}

/// A response under way: its bytes so far and when the first one came.
#[verifier::ext_equal]
pub struct PartialResponse {
    pub bytes: Seq<u8>,
    pub first_us: u64,
}

/// What a complete response reports.
pub open spec fn response_event(bytes: Seq<u8>, first_us: u64, last_us: u64) -> TestEvent {
    if bytes[2] != bytes[0] ^ bytes[1] {
        TestEvent::ChecksumError
    } else if GroundCommand::spec_decode_legacy(bytes[0]) is None {
        TestEvent::UnknownCommand
    } else {
        TestEvent::UplinkValid { command: bytes[0], sequence: bytes[1], first_us, last_us }
    }
}

impl PartialResponse {
    /// A response has begun, and its time is over.
    pub open spec fn late(self, now_us: u64) -> bool {
        self.bytes.len() > 0 && now_us - self.first_us > RESPONSE_WINDOW_US
    }

    /// The event that one more byte leads to: that of a response that is complete, or that of
    /// one that came too late.
    pub open spec fn event_of(self, byte: u8, now_us: u64) -> Option<TestEvent> {
        if self.late(now_us) {
            Some(TestEvent::LengthError)
        } else if self.bytes.len() + 1 == RESPONSE_LEN {
            Some(response_event(self.bytes.push(byte), self.first_us, now_us))
        } else {
            None
        }
    }

    /// With one more byte. After a response that came too late it is the first of another one.
    pub open spec fn with_byte(self, byte: u8, now_us: u64) -> PartialResponse {
        if self.late(now_us) {
            PartialResponse { bytes: seq![byte], first_us: now_us }
        } else {
            PartialResponse {
                bytes: if self.bytes.len() + 1 == RESPONSE_LEN {
                    Seq::empty()
                } else {
                    self.bytes.push(byte)
                },
                first_us: if self.bytes.len() == 0 {
                    now_us
                } else {
                    self.first_us
                },
            }
        }
    }
}

impl View for ResponseBuffer {
    type V = PartialResponse;

    closed spec fn view(&self) -> PartialResponse {
        PartialResponse { bytes: self.frame@.take(self.len as int), first_us: self.first_us }
    }
}

impl ResponseBuffer {
    #[verifier::type_invariant]
    spec fn incomplete(self) -> bool {
        self.len < RESPONSE_LEN
    }

    pub fn new() -> (buffer: Self)
        ensures
            buffer@ == (PartialResponse { bytes: Seq::empty(), first_us: 0 }),
    {
        let buffer = ResponseBuffer { frame: [0, 0, 0], len: 0, first_us: 0 };
        assert(buffer@.bytes =~= Seq::<u8>::empty());
        buffer
    }

    /// Whether a response has begun.
    pub fn is_waiting(&self) -> (waiting: bool)
        ensures
            waiting == (self@.bytes.len() > 0),
    {
        proof {
            use_type_invariant(self);
        }
        self.len > 0
    }

    /// The time until which the rest of a response that has begun must arrive. It ends with the
    /// range of the clock at the latest.
    pub fn deadline(&self) -> (deadline: Option<u64>)
        ensures
            deadline is Some <==> self@.bytes.len() > 0,
            deadline matches Some(at_us) ==> at_us == (if self@.first_us + RESPONSE_WINDOW_US
                <= u64::MAX {
                self@.first_us + RESPONSE_WINDOW_US
            } else {
                u64::MAX as int
            }),
    {
        proof {
            use_type_invariant(self);
        }
        if self.len > 0 {
            Some(self.first_us.saturating_add(RESPONSE_WINDOW_US))
        } else {
            None
        }
    }

    /// Takes the next byte and reports a response that it completes, or one that it comes too
    /// late for.
    pub fn byte_received(&mut self, byte: u8, now_us: u64) -> (event: Option<TestEvent>)
        ensures
            event == old(self)@.event_of(byte, now_us),
            final(self)@ == old(self)@.with_byte(byte, now_us),
    {
        proof {
            use_type_invariant(&*self);
        }
        if self.len > 0 && now_us.saturating_sub(self.first_us) > RESPONSE_WINDOW_US {
            self.frame[0] = byte;
            self.len = 1;
            self.first_us = now_us;
            assert(self@.bytes =~= seq![byte]);
            return Some(TestEvent::LengthError);
        }
        if self.len == 0 {
            self.first_us = now_us;
        }
        let len: usize = self.len;
        self.frame[len] = byte;
        assert(self.frame@.take(len + 1) =~= old(self)@.bytes.push(byte));
        if len + 1 < RESPONSE_LEN {
            self.len = len + 1;
            return None;
        }
        self.len = 0;
        assert(self@.bytes =~= Seq::<u8>::empty());
        assert(self.frame@.take(len + 1) =~= self.frame@);
        let command: u8 = self.frame[0];
        let sequence: u8 = self.frame[1];
        let checksum: u8 = self.frame[2];
        if checksum != command ^ sequence {
            return Some(TestEvent::ChecksumError);
        }
        match GroundCommand::decode_legacy(command) {
            None => Some(TestEvent::UnknownCommand),
            Some(_) => Some(
                TestEvent::UplinkValid {
                    command,
                    sequence,
                    first_us: self.first_us,
                    last_us: now_us,
                },
            ),
        }
    }

    /// Gives up an incomplete response because its time is over or a byte could not be read.
    pub fn interrupted(&mut self) -> (event: Option<TestEvent>)
        ensures
            event == (if old(self)@.bytes.len() > 0 {
                Some(TestEvent::LengthError)
            } else {
                None
            }),
            final(self)@ == (PartialResponse { bytes: Seq::empty(), ..old(self)@ }),
    {
        proof {
            use_type_invariant(&*self);
        }
        let waiting = self.len > 0;
        self.len = 0;
        assert(self@.bytes =~= Seq::<u8>::empty());
        if waiting {
            Some(TestEvent::LengthError)
        } else {
            None
        }
    }
}

/// Smallest, largest and mean value of a quantity.
#[derive(Clone, Copy, Debug, PartialEq, Eq, Structural)]
pub struct Aggregate {
    pub count: u64,
    pub min: u64,
    pub max: u64,
    pub sum: u128,
}

impl Aggregate {
    pub open spec fn empty() -> Aggregate {
        Aggregate { count: 0, min: u64::MAX, max: 0, sum: 0 }
    }

    pub open spec fn with(self, value: u64) -> Aggregate {
        Aggregate {
            count: self.count.saturating_add(1),
            min: if value < self.min {
                value
            } else {
                self.min
            },
            max: if value > self.max {
                value
            } else {
                self.max
            },
            sum: self.sum.saturating_add(value as u128),
        }
    }

    pub open spec fn with_optional(self, value: Option<u64>) -> Aggregate {
        match value {
            Some(value) => self.with(value),
            None => self,
        }
    }

    pub open spec fn spec_min_or_zero(self) -> u64 {
        if self.count == 0 {
            0
        } else {
            self.min
        }
    }

    pub open spec fn spec_average(self) -> u64 {
        if self.count == 0 {
            0
        } else {
            (self.sum as int / self.count as int) as u64
        }
    }

    pub fn new() -> (aggregate: Self)
        ensures
            aggregate == Aggregate::empty(),
    {
        Aggregate { count: 0, min: u64::MAX, max: 0, sum: 0 }
    }

    pub fn add(&mut self, value: u64)
        ensures
            *final(self) == old(self).with(value),
    {
        self.count = self.count.saturating_add(1);
        if value < self.min {
            self.min = value;
        }
        if value > self.max {
            self.max = value;
        }
        self.sum = self.sum.saturating_add(value as u128);
    }

    pub fn min_or_zero(&self) -> (min: u64)
        ensures
            min == self.spec_min_or_zero(),
    {
        if self.count == 0 {
            0
        } else {
            self.min
        }
    }

    pub fn average(&self) -> (average: u64)
        ensures
            average == self.spec_average(),
    {
        if self.count == 0 {
            0
        } else {
            (self.sum / (self.count as u128)) as u64
        }
    }
}

/// What is derived from one trial.
#[derive(Clone, Copy, Debug, PartialEq, Eq, Structural)]
pub struct TrialFigures {
    pub ul_received: bool,
    pub uart_tx_duration_us: u64,
    /// From the start of the downlink to the end of the response.
    pub command_rx_offset_us: Option<u64>,
    /// From the end of the response to the schedule of the next downlink.
    pub guard_us: Option<u64>,
    pub schedule_lateness_us: u64,
    pub aux_low_us: Option<u64>,
}

/// The difference, zero if it would be negative.
pub open spec fn difference(later: u64, earlier: u64) -> u64 {
    if later >= earlier {
        (later - earlier) as u64
    } else {
        0
    }
}

impl TestRecord {
    pub open spec fn spec_figures(self) -> TrialFigures {
        TrialFigures {
            ul_received: self.ul_last_us is Some,
            uart_tx_duration_us: difference(self.dl_uart_end_us, self.dl_uart_start_us),
            command_rx_offset_us: match self.ul_last_us {
                Some(at) => Some(difference(at, self.dl_uart_start_us)),
                None => None,
            },
            guard_us: match self.ul_last_us {
                Some(at) => Some(difference(self.next_dl_schedule_us, at)),
                None => None,
            },
            schedule_lateness_us: difference(self.dl_uart_start_us, self.dl_schedule_us),
            aux_low_us: match (self.dl_aux_fall_us, self.dl_aux_rise_us) {
                (Some(fall), Some(rise)) => if rise >= fall {
                    Some((rise - fall) as u64)
                } else {
                    None
                },
                _ => None,
            },
        }
    }

    /// Derives the figures of the trial.
    pub fn figures(&self) -> (figures: TrialFigures)
        ensures
            figures == self.spec_figures(),
    {
        TrialFigures {
            ul_received: self.ul_last_us.is_some(),
            uart_tx_duration_us: self.dl_uart_end_us.saturating_sub(self.dl_uart_start_us),
            command_rx_offset_us: match self.ul_last_us {
                Some(at) => Some(at.saturating_sub(self.dl_uart_start_us)),
                None => None,
            },
            guard_us: match self.ul_last_us {
                Some(at) => Some(self.next_dl_schedule_us.saturating_sub(at)),
                None => None,
            },
            schedule_lateness_us: self.dl_uart_start_us.saturating_sub(self.dl_schedule_us),
            aux_low_us: match (self.dl_aux_fall_us, self.dl_aux_rise_us) {
                (Some(fall), Some(rise)) if rise >= fall => Some(rise - fall),
                _ => None,
            },
        }
    }
}

/// The value, or zero if there is none.
pub open spec fn or_zero(value: Option<u64>) -> u64 {
    match value {
        Some(value) => value,
        None => 0,
    }
}

fn value_or_zero(value: Option<u64>) -> (result: u64)
    ensures
        result == or_zero(value),
{
    match value {
        Some(value) => value,
        None => 0,
    }
}

/// One if it holds, else zero.
pub open spec fn as_number(condition: bool) -> u64 {
    if condition {
        1
    } else {
        0
    }
}

fn number_of(condition: bool) -> (number: u64)
    ensures
        number == as_number(condition),
{
    if condition {
        1
    } else {
        0
    }
}

impl TestRecord {
    /// The reported columns. What was not seen is reported as zero.
    pub open spec fn spec_columns(self) -> Seq<u64> {
        let figures = self.spec_figures();
        seq![
            self.dl_seq as u64,
            self.dl_schedule_us,
            self.dl_uart_start_us,
            self.dl_uart_end_us,
            or_zero(self.dl_aux_fall_us),
            or_zero(self.dl_aux_rise_us),
            as_number(figures.ul_received),
            match self.ul_command {
                Some(command) => command as u64,
                None => 0,
            },
            match self.ul_seq {
                Some(sequence) => sequence as u64,
                None => 0,
            },
            or_zero(self.ul_first_us),
            or_zero(self.ul_last_us),
            self.next_dl_schedule_us,
            figures.uart_tx_duration_us,
            or_zero(figures.command_rx_offset_us),
            or_zero(figures.guard_us),
            figures.schedule_lateness_us,
            as_number(figures.ul_received),
            as_number(self.tx_ok),
        ]
    }

    /// The columns of the trial: number, schedule, start and end of the downlink, fall and rise of
    /// AUX, whether there was a response, its command, number, first and last byte, the next
    /// schedule, duration of the downlink, offset and guard time of the response, lateness,
    /// whether the response was sound, and whether the downlink was.
    pub fn columns(&self) -> (columns: [u64; 18])
        ensures
            columns@ == self.spec_columns(),
    {
        let figures = self.figures();
        let columns: [u64; 18] = [
            self.dl_seq as u64,
            self.dl_schedule_us,
            self.dl_uart_start_us,
            self.dl_uart_end_us,
            value_or_zero(self.dl_aux_fall_us),
            value_or_zero(self.dl_aux_rise_us),
            number_of(figures.ul_received),
            match self.ul_command {
                Some(command) => command as u64,
                None => 0,
            },
            match self.ul_seq {
                Some(sequence) => sequence as u64,
                None => 0,
            },
            value_or_zero(self.ul_first_us),
            value_or_zero(self.ul_last_us),
            self.next_dl_schedule_us,
            figures.uart_tx_duration_us,
            value_or_zero(figures.command_rx_offset_us),
            value_or_zero(figures.guard_us),
            figures.schedule_lateness_us,
            number_of(figures.ul_received),
            number_of(self.tx_ok),
        ];
        assert(columns@ =~= self.spec_columns());
        columns
    }
}

/// The statistics of all trials so far.
#[derive(Clone, Copy, Debug, PartialEq, Eq, Structural)]
pub struct TrialStatistics {
    pub downlinks: u64,
    pub received: u64,
    pub checksum_errors: u64,
    pub length_errors: u64,
    pub unknown_commands: u64,
    pub sequence_missing: u64,
    pub sequence_duplicates: u64,
    pub rx_offset: Aggregate,
    pub guard: Aggregate,
    pub aux_low: Aggregate,
    pub max_lateness_us: u64,
}

/// The reported summary.
#[derive(Clone, Copy, Debug, PartialEq, Eq, Structural)]
pub struct TrialSummary {
    pub statistics: TrialStatistics,
    pub not_received: u64,
    /// Share of downlinks that were answered, in ten-thousandths.
    pub success_basis_points: u64,
}

impl TrialStatistics {
    pub open spec fn empty() -> TrialStatistics {
        TrialStatistics {
            downlinks: 0,
            received: 0,
            checksum_errors: 0,
            length_errors: 0,
            unknown_commands: 0,
            sequence_missing: 0,
            sequence_duplicates: 0,
            rx_offset: Aggregate::empty(),
            guard: Aggregate::empty(),
            aux_low: Aggregate::empty(),
            max_lateness_us: 0,
        }
    }

    /// With one more trial.
    pub open spec fn with_trial(self, record: TestRecord) -> TrialStatistics {
        let figures = record.spec_figures();
        TrialStatistics {
            downlinks: self.downlinks.saturating_add(1),
            received: if figures.ul_received {
                self.received.saturating_add(1)
            } else {
                self.received
            },
            rx_offset: self.rx_offset.with_optional(figures.command_rx_offset_us),
            guard: self.guard.with_optional(figures.guard_us),
            aux_low: self.aux_low.with_optional(figures.aux_low_us),
            max_lateness_us: if figures.schedule_lateness_us > self.max_lateness_us {
                figures.schedule_lateness_us
            } else {
                self.max_lateness_us
            },
            ..self
        }
    }

    /// With one more entry.
    pub open spec fn with_event(self, event: LogEvent) -> TrialStatistics {
        match event {
            LogEvent::Record(record) => self.with_trial(record),
            LogEvent::ChecksumError => TrialStatistics {
                checksum_errors: self.checksum_errors.saturating_add(1),
                ..self
            },
            LogEvent::LengthError => TrialStatistics {
                length_errors: self.length_errors.saturating_add(1),
                ..self
            },
            LogEvent::UnknownCommand => TrialStatistics {
                unknown_commands: self.unknown_commands.saturating_add(1),
                ..self
            },
            LogEvent::SequenceMissing(count) => TrialStatistics {
                sequence_missing: self.sequence_missing.saturating_add(count as u64),
                ..self
            },
            LogEvent::SequenceDuplicate => TrialStatistics {
                sequence_duplicates: self.sequence_duplicates.saturating_add(1),
                ..self
            },
        }
    }

    pub open spec fn spec_summary(self) -> TrialSummary {
        let scaled = if self.received * 10_000 <= u64::MAX {
            self.received * 10_000
        } else {
            u64::MAX as int
        };
        TrialSummary {
            statistics: self,
            not_received: difference(self.downlinks, self.received),
            success_basis_points: (scaled / self.downlinks as int) as u64,
        }
    }

    /// The entry completes a block of trials.
    pub open spec fn summary_due(self, event: LogEvent) -> bool {
        event is Record && self.with_event(event).downlinks % SUMMARY_INTERVAL == 0
    }

    pub fn new() -> (statistics: Self)
        ensures
            statistics == TrialStatistics::empty(),
    {
        TrialStatistics {
            downlinks: 0,
            received: 0,
            checksum_errors: 0,
            length_errors: 0,
            unknown_commands: 0,
            sequence_missing: 0,
            sequence_duplicates: 0,
            rx_offset: Aggregate::new(),
            guard: Aggregate::new(),
            aux_low: Aggregate::new(),
            max_lateness_us: 0,
        }
    }

    /// Takes an entry and returns a summary after every hundredth trial.
    pub fn record(&mut self, event: LogEvent) -> (summary: Option<TrialSummary>)
        ensures
            *final(self) == old(self).with_event(event),
            summary == (if old(self).summary_due(event) {
                Some(old(self).with_event(event).spec_summary())
            } else {
                None
            }),
    {
        match event {
            LogEvent::ChecksumError => {
                self.checksum_errors = self.checksum_errors.saturating_add(1);
                None
            },
            LogEvent::LengthError => {
                self.length_errors = self.length_errors.saturating_add(1);
                None
            },
            LogEvent::UnknownCommand => {
                self.unknown_commands = self.unknown_commands.saturating_add(1);
                None
            },
            LogEvent::SequenceMissing(count) => {
                self.sequence_missing = self.sequence_missing.saturating_add(count as u64);
                None
            },
            LogEvent::SequenceDuplicate => {
                self.sequence_duplicates = self.sequence_duplicates.saturating_add(1);
                None
            },
            LogEvent::Record(record) => {
                self.record_trial(record);
                if self.downlinks % SUMMARY_INTERVAL == 0 {
                    Some(self.summary())
                } else {
                    None
                }
            },
        }
    }

    fn record_trial(&mut self, record: TestRecord)
        ensures
            *final(self) == old(self).with_trial(record),
            final(self).downlinks > 0,
    {
        let figures = record.figures();
        self.downlinks = self.downlinks.saturating_add(1);
        if figures.schedule_lateness_us > self.max_lateness_us {
            self.max_lateness_us = figures.schedule_lateness_us;
        }
        if let Some(value) = figures.command_rx_offset_us {
            self.received = self.received.saturating_add(1);
            self.rx_offset.add(value);
        }
        if let Some(value) = figures.guard_us {
            self.guard.add(value);
        }
        if let Some(value) = figures.aux_low_us {
            self.aux_low.add(value);
        }
    }

    /// The summary of the trials so far.
    pub fn summary(&self) -> (summary: TrialSummary)
        requires
            self.downlinks > 0,
        ensures
            summary == self.spec_summary(),
    {
        let scaled: u64 = if self.received <= u64::MAX / 10_000 {
            self.received * 10_000
        } else {
            u64::MAX
        };
        TrialSummary {
            statistics: *self,
            not_received: self.downlinks.saturating_sub(self.received),
            success_basis_points: scaled / self.downlinks,
        }
    }
}

impl TrialSummary {
    pub open spec fn spec_columns(self) -> Seq<u64> {
        let statistics = self.statistics;
        seq![
            statistics.downlinks,
            statistics.received,
            self.not_received,
            statistics.checksum_errors,
            statistics.length_errors,
            statistics.unknown_commands,
            self.success_basis_points,
            statistics.rx_offset.spec_min_or_zero(),
            statistics.rx_offset.max,
            statistics.rx_offset.spec_average(),
            statistics.guard.spec_min_or_zero(),
            statistics.guard.max,
            statistics.guard.spec_average(),
            statistics.max_lateness_us,
            statistics.aux_low.spec_min_or_zero(),
            statistics.aux_low.max,
            statistics.aux_low.spec_average(),
            statistics.sequence_missing,
            statistics.sequence_duplicates,
        ]
    }

    /// The columns of the summary: downlinks, responses and downlinks without one, checksum
    /// errors, length errors, unknown commands, success; smallest, largest and mean offset of the
    /// responses, the same of the guard time; largest lateness; smallest, largest and mean time
    /// of AUX low; missing and repeated numbers.
    pub fn columns(&self) -> (columns: [u64; 19])
        ensures
            columns@ == self.spec_columns(),
    {
        let statistics = &self.statistics;
        let columns: [u64; 19] = [
            statistics.downlinks,
            statistics.received,
            self.not_received,
            statistics.checksum_errors,
            statistics.length_errors,
            statistics.unknown_commands,
            self.success_basis_points,
            statistics.rx_offset.min_or_zero(),
            statistics.rx_offset.max,
            statistics.rx_offset.average(),
            statistics.guard.min_or_zero(),
            statistics.guard.max,
            statistics.guard.average(),
            statistics.max_lateness_us,
            statistics.aux_low.min_or_zero(),
            statistics.aux_low.max,
            statistics.aux_low.average(),
            statistics.sequence_missing,
            statistics.sequence_duplicates,
        ];
        assert(columns@ =~= self.spec_columns());
        columns
    }
}

/// The state of the trial.
#[derive(Clone, Copy, Debug, PartialEq, Eq, Structural)]
pub struct RoundtripTrial {
    /// Number of the next downlink.
    pub sequence: u8,
    /// The downlink under way.
    pub active: Option<TestRecord>,
    pub aux_is_low: bool,
    pub last_aux_fall_us: Option<u64>,
    pub last_rx_sequence: Option<u8>,
}

impl RoundtripTrial {
    /// The state after an event.
    pub open spec fn after(self, event: TestEvent) -> RoundtripTrial {
        match event {
            TestEvent::AuxFall { at_us } => RoundtripTrial {
                aux_is_low: true,
                last_aux_fall_us: Some(at_us),
                active: match self.active {
                    Some(record) => Some(
                        if record.covers(at_us) {
                            TestRecord { dl_aux_fall_us: Some(at_us), ..record }
                        } else {
                            record
                        },
                    ),
                    None => None,
                },
                ..self
            },
            TestEvent::AuxRise { at_us } => RoundtripTrial {
                aux_is_low: false,
                active: match self.active {
                    Some(record) => Some(
                        if record.covers(at_us) {
                            TestRecord { dl_aux_rise_us: Some(at_us), ..record }
                        } else {
                            record
                        },
                    ),
                    None => None,
                },
                ..self
            },
            TestEvent::UplinkValid { command, sequence, first_us, last_us } => RoundtripTrial {
                last_rx_sequence: Some(sequence),
                active: match self.active {
                    Some(record) => Some(
                        if sequence == record.dl_seq && record.ul_last_us is None {
                            TestRecord {
                                ul_command: Some(command),
                                ul_seq: Some(sequence),
                                ul_first_us: Some(first_us),
                                ul_last_us: Some(last_us),
                                ..record
                            }
                        } else {
                            record
                        },
                    ),
                    None => None,
                },
                ..self
            },
            _ => self,
        }
    }

    /// The entry that an event makes in the log. Response numbers go round after 255: one that
    /// repeats the previous one is a duplicate, and those that were passed over are missing.
    pub open spec fn log_of(self, event: TestEvent) -> Option<LogEvent> {
        match event {
            TestEvent::AuxFall { .. } => None,
            TestEvent::AuxRise { .. } => None,
            TestEvent::ChecksumError => Some(LogEvent::ChecksumError),
            TestEvent::LengthError => Some(LogEvent::LengthError),
            TestEvent::UnknownCommand => Some(LogEvent::UnknownCommand),
            TestEvent::UplinkValid { sequence, .. } => match self.last_rx_sequence {
                None => None,
                Some(previous) => {
                    let advance = (sequence - previous) % 256;
                    if advance == 0 {
                        Some(LogEvent::SequenceDuplicate)
                    } else if advance == 1 {
                        None
                    } else {
                        Some(LogEvent::SequenceMissing((advance - 1) as u32))
                    }
                },
            },
        }
    }

    /// The state once the next downlink is on its way.
    pub open spec fn after_downlink(
        self,
        schedule_us: u64,
        next_schedule_us: u64,
        start_us: u64,
        end_us: u64,
        tx_ok: bool,
    ) -> RoundtripTrial {
        let record = TestRecord::fresh(
            self.sequence,
            schedule_us,
            start_us,
            end_us,
            next_schedule_us,
            tx_ok,
        );
        RoundtripTrial {
            sequence: self.sequence.wrapping_add(1),
            active: Some(
                if self.aux_is_low {
                    TestRecord { dl_aux_fall_us: self.last_aux_fall_us, ..record }
                } else {
                    record
                },
            ),
            ..self
        }
    }

    pub fn new() -> (trial: Self)
        ensures
            trial == (RoundtripTrial {
                sequence: 0,
                active: None,
                aux_is_low: false,
                last_aux_fall_us: None,
                last_rx_sequence: None,
            }),
    {
        RoundtripTrial {
            sequence: 0,
            active: None,
            aux_is_low: false,
            last_aux_fall_us: None,
            last_rx_sequence: None,
        }
    }

    /// Ends the downlink under way, if there is one, and returns it for the log.
    pub fn take_finished(&mut self) -> (event: Option<LogEvent>)
        ensures
            *final(self) == (RoundtripTrial { active: None, ..*old(self) }),
            event == (match old(self).active {
                Some(record) => Some(LogEvent::Record(record)),
                None => None,
            }),
    {
        let finished = self.active;
        self.active = None;
        match finished {
            Some(record) => Some(LogEvent::Record(record)),
            None => None,
        }
    }

    /// Takes note of a downlink that was handed to the modem.
    pub fn downlink_sent(
        &mut self,
        schedule_us: u64,
        next_schedule_us: u64,
        start_us: u64,
        end_us: u64,
        tx_ok: bool,
    )
        ensures
            *final(self) == old(self).after_downlink(
                schedule_us,
                next_schedule_us,
                start_us,
                end_us,
                tx_ok,
            ),
    {
        let mut record = TestRecord::new(
            self.sequence,
            schedule_us,
            start_us,
            end_us,
            next_schedule_us,
            tx_ok,
        );
        if self.aux_is_low {
            record.dl_aux_fall_us = self.last_aux_fall_us;
        }
        self.active = Some(record);
        self.sequence = self.sequence.wrapping_add(1);
    }

    /// Takes an event and returns the entry that it makes in the log.
    pub fn handle_event(&mut self, event: TestEvent) -> (entry: Option<LogEvent>)
        ensures
            *final(self) == old(self).after(event),
            entry == old(self).log_of(event),
    {
        match event {
            TestEvent::AuxFall { at_us } => {
                self.aux_is_low = true;
                self.last_aux_fall_us = Some(at_us);
                if let Some(record) = self.active {
                    if at_us >= record.dl_uart_start_us && at_us < record.next_dl_schedule_us {
                        let mut record = record;
                        record.dl_aux_fall_us = Some(at_us);
                        self.active = Some(record);
                    }
                }
                None
            },
            TestEvent::AuxRise { at_us } => {
                self.aux_is_low = false;
                if let Some(record) = self.active {
                    if at_us >= record.dl_uart_start_us && at_us < record.next_dl_schedule_us {
                        let mut record = record;
                        record.dl_aux_rise_us = Some(at_us);
                        self.active = Some(record);
                    }
                }
                None
            },
            TestEvent::ChecksumError => Some(LogEvent::ChecksumError),
            TestEvent::LengthError => Some(LogEvent::LengthError),
            TestEvent::UnknownCommand => Some(LogEvent::UnknownCommand),
            TestEvent::UplinkValid { command, sequence, first_us, last_us } => {
                let entry = match self.last_rx_sequence {
                    None => None,
                    Some(previous) => {
                        let advance: u8 = sequence.wrapping_sub(previous);
                        if advance == 0 {
                            Some(LogEvent::SequenceDuplicate)
                        } else if advance > 1 {
                            Some(LogEvent::SequenceMissing((advance - 1) as u32))
                        } else {
                            None
                        }
                    },
                };
                self.last_rx_sequence = Some(sequence);
                if let Some(record) = self.active {
                    if sequence == record.dl_seq && record.ul_last_us.is_none() {
                        let mut record = record;
                        record.ul_command = Some(command);
                        record.ul_seq = Some(sequence);
                        record.ul_first_us = Some(first_us);
                        record.ul_last_us = Some(last_us);
                        self.active = Some(record);
                    }
                }
                entry
            },
        }
    }
}

/// Law: a downlink shows its number at the place of the status byte and checks out.
pub proof fn law_downlinks_carry_their_number(payload: Payload, sequence: u8)
    requires
        is_trial_payload(payload, sequence),
    ensures
        payload.sealed().wire().len() == PAYLOAD_LEN,
        payload.sealed().wire()[4] == sequence,
        crate::payload::xor_all(payload.sealed().wire().subrange(3, PAYLOAD_LEN as int)) == 0,
{
    crate::payload::law_wire_layout(payload.sealed());
    crate::payload::law_sealed_record_checks_out(payload);
}

/// The downlink after a run of UART events.
pub open spec fn after_writes(start: WriteProgress, run: Seq<UartEvent>) -> WriteProgress
    decreases run.len(),
{
    if run.len() == 0 {
        start
    } else {
        after_writes(start, run.drop_last()).after(run.last())
    }
}

/// Every event of the run answers what was awaited.
pub open spec fn is_write_run(start: WriteProgress, run: Seq<UartEvent>) -> bool
    decreases run.len(),
{
    run.len() > 0 ==> is_write_run(start, run.drop_last()) && after_writes(
        start,
        run.drop_last(),
    ).awaits(run.last())
}

/// All bytes that the UART has accepted during a run, in order.
pub open spec fn accepted_bytes(start: WriteProgress, run: Seq<UartEvent>) -> Seq<u8>
    decreases run.len(),
{
    if run.len() == 0 {
        Seq::empty()
    } else {
        let before = after_writes(start, run.drop_last());
        match run.last() {
            UartEvent::Written(count) => accepted_bytes(start, run.drop_last())
                + before.bytes.skip(before.written as int).take(count as int),
            _ => accepted_bytes(start, run.drop_last()),
        }
    }
}

/// Law: however the UART splits a downlink, it accepts the bytes in order and none twice; one
/// that counts as sent was accepted whole; and it is over after a bounded number of steps.
pub proof fn law_sent_downlinks_are_written_whole(start: WriteProgress, run: Seq<UartEvent>)
    requires
        start.written == 0,
        start.stage is Writing,
        start.bytes.len() == PAYLOAD_LEN,
        is_write_run(start, run),
    ensures
        after_writes(start, run).bytes == start.bytes,
        after_writes(start, run).written <= start.bytes.len(),
        accepted_bytes(start, run) == start.bytes.take(after_writes(start, run).written as int),
        after_writes(start, run).stage is Writing ==> after_writes(start, run).written
            < start.bytes.len(),
        after_writes(start, run).stage is Flushing || after_writes(start, run).stage
            == WriteStage::Finished(true) ==> accepted_bytes(start, run) == start.bytes,
        run.len() + (match after_writes(start, run).stage {
            WriteStage::Writing => PAYLOAD_LEN - after_writes(start, run).written + 1,
            WriteStage::Flushing => 1,
            WriteStage::Finished(_) => 0,
        }) <= PAYLOAD_LEN + 1,
    decreases run.len(),
{
    if run.len() == 0 {
        assert(accepted_bytes(start, run) =~= start.bytes.take(0));
    } else {
        law_sent_downlinks_are_written_whole(start, run.drop_last());
        let before = after_writes(start, run.drop_last());
        if let UartEvent::Written(count) = run.last() {
            assert(start.bytes.take(before.written as int) + start.bytes.skip(
                before.written as int,
            ).take(count as int) =~= start.bytes.take(before.written + count));
        }
    }
    assert(start.bytes.take(start.bytes.len() as int) =~= start.bytes);
}

/// Law: a response that begins when none is under way is judged once. If a byte comes later than
/// the window after the first one, that is a length error, the bytes so far are dropped and the
/// late byte begins another response. Otherwise the third byte decides: a wrong checksum, an
/// unknown command, or a valid response with the times of its first and last byte.
pub proof fn law_responses_are_judged_by_window_and_checksum(
    response: PartialResponse,
    command: u8,
    sequence: u8,
    checksum: u8,
    first_us: u64,
    second_us: u64,
    last_us: u64,
)
    requires
        response.bytes.len() == 0,
    ensures
        ({
            let one = response.with_byte(command, first_us);
            let two = one.with_byte(sequence, second_us);
            &&& response.event_of(command, first_us) is None
            &&& second_us - first_us > RESPONSE_WINDOW_US ==> {
                &&& one.event_of(sequence, second_us) == Some(TestEvent::LengthError)
                &&& two == (PartialResponse { bytes: seq![sequence], first_us: second_us })
            }
            &&& second_us - first_us <= RESPONSE_WINDOW_US ==> {
                &&& one.event_of(sequence, second_us) is None
                &&& last_us - first_us > RESPONSE_WINDOW_US ==> {
                    &&& two.event_of(checksum, last_us) == Some(TestEvent::LengthError)
                    &&& two.with_byte(checksum, last_us) == (PartialResponse {
                        bytes: seq![checksum],
                        first_us: last_us,
                    })
                }
                &&& last_us - first_us <= RESPONSE_WINDOW_US ==> {
                    &&& two.event_of(checksum, last_us) == Some(
                        if checksum != command ^ sequence {
                            TestEvent::ChecksumError
                        } else if GroundCommand::spec_decode_legacy(command) is None {
                            TestEvent::UnknownCommand
                        } else {
                            TestEvent::UplinkValid { command, sequence, first_us, last_us }
                        },
                    )
                    &&& two.with_byte(checksum, last_us).bytes.len() == 0
                }
            }
        }),
{
    let one = response.with_byte(command, first_us);
    assert(one.bytes =~= seq![command]);
    if second_us - first_us <= RESPONSE_WINDOW_US {
        let two = one.with_byte(sequence, second_us);
        assert(two.bytes =~= seq![command, sequence]);
        assert(two.bytes.push(checksum) =~= seq![command, sequence, checksum]);
    }
}

/// The response under way after these bytes, each with the time of its arrival.
pub open spec fn after_arrivals(
    start: PartialResponse,
    arrivals: Seq<(u8, u64)>,
) -> PartialResponse
    decreases arrivals.len(),
{
    if arrivals.len() == 0 {
        start
    } else {
        after_arrivals(start, arrivals.drop_last()).with_byte(arrivals.last().0, arrivals.last().1)
    }
}

/// Law: whatever arrives, a report other than a length error stands for the last three bytes,
/// and all of them arrived within the window of the first. A length error is reported only when
/// the window of the response under way is over.
pub proof fn law_reported_responses_lie_within_the_window(
    start: PartialResponse,
    arrivals: Seq<(u8, u64)>,
    byte: u8,
    now_us: u64,
)
    requires
        start.bytes.len() == 0,
    ensures
        ({
            let count = arrivals.len() as int;
            let pending = after_arrivals(start, arrivals);
            match pending.event_of(byte, now_us) {
                None => true,
                Some(TestEvent::LengthError) => 1 <= pending.bytes.len() <= count && now_us
                    - arrivals[count - pending.bytes.len()].1 > RESPONSE_WINDOW_US,
                Some(event) => {
                    &&& count >= 2
                    &&& arrivals[count - 1].1 - arrivals[count - 2].1 <= RESPONSE_WINDOW_US
                    &&& now_us - arrivals[count - 2].1 <= RESPONSE_WINDOW_US
                    &&& event == response_event(
                        seq![arrivals[count - 2].0, arrivals[count - 1].0, byte],
                        arrivals[count - 2].1,
                        now_us,
                    )
                },
            }
        }),
{
    let count = arrivals.len() as int;
    let pending = after_arrivals(start, arrivals);
    lemma_pending_bytes_are_the_latest(start, arrivals);
    if pending.bytes.len() == 2 {
        assert(pending.bytes.push(byte) =~= seq![
            arrivals[count - 2].0,
            arrivals[count - 1].0,
            byte,
        ]);
    }
}

proof fn lemma_pending_bytes_are_the_latest(start: PartialResponse, arrivals: Seq<(u8, u64)>)
    requires
        start.bytes.len() == 0,
    ensures
        ({
            let count = arrivals.len() as int;
            let pending = after_arrivals(start, arrivals);
            &&& pending.bytes.len() < RESPONSE_LEN
            &&& pending.bytes.len() <= count
            &&& pending.bytes.len() > 0 ==> pending.first_us == arrivals[count
                - pending.bytes.len()].1
            &&& pending.bytes.len() == 1 ==> pending.bytes[0] == arrivals[count - 1].0
            &&& pending.bytes.len() == 2 ==> {
                &&& pending.bytes[0] == arrivals[count - 2].0
                &&& pending.bytes[1] == arrivals[count - 1].0
                &&& arrivals[count - 1].1 - arrivals[count - 2].1 <= RESPONSE_WINDOW_US
            }
        }),
    decreases arrivals.len(),
{
    if arrivals.len() > 0 {
        lemma_pending_bytes_are_the_latest(start, arrivals.drop_last());
    }
}

/// A response that a record shows answers its own downlink.
pub open spec fn response_belongs(record: TestRecord) -> bool {
    &&& record.ul_last_us is Some <==> record.ul_seq is Some
    &&& record.ul_last_us is Some <==> record.ul_command is Some
    &&& record.ul_last_us is Some <==> record.ul_first_us is Some
    &&& record.ul_seq is Some ==> record.ul_seq == Some(record.dl_seq)
    &&& record.dl_aux_rise_us matches Some(at_us) ==> record.covers(at_us)
}

/// Law: whatever is received, a record shows a response only if it carries the number of its own
/// downlink, and the first such response stays.
pub proof fn law_responses_belong_to_their_downlink(trial: RoundtripTrial, event: TestEvent)
    requires
        trial.active matches Some(record) ==> response_belongs(record),
    ensures
        trial.after(event).active is Some <==> trial.active is Some,
        trial.after(event).active matches Some(record) ==> response_belongs(record)
            && record.dl_seq == trial.active->0.dl_seq && (trial.active->0.ul_last_us is Some
            ==> record.ul_last_us == trial.active->0.ul_last_us && record.ul_command
            == trial.active->0.ul_command),
        trial.after(event).sequence == trial.sequence,
{
}

/// Law: a fresh downlink shows no response, and downlinks are numbered one after the other.
pub proof fn law_downlinks_are_numbered_in_order(
    trial: RoundtripTrial,
    schedule_us: u64,
    next_schedule_us: u64,
    start_us: u64,
    end_us: u64,
    tx_ok: bool,
)
    ensures
        ({
            let after = trial.after_downlink(
                schedule_us,
                next_schedule_us,
                start_us,
                end_us,
                tx_ok,
            );
            &&& after.active matches Some(record) && response_belongs(record) && record.dl_seq
                == trial.sequence && record.ul_last_us is None
            &&& after.sequence == (trial.sequence + 1) % 256
        }),
{
}

/// What is logged when the response with number `current` arrives after the one with number
/// `previous`, both counted without going round.
pub open spec fn logged_between(trial: RoundtripTrial, previous: int, current: int) -> Option<
    LogEvent,
> {
    (RoundtripTrial { last_rx_sequence: Some((previous % 256) as u8), ..trial }).log_of(
        TestEvent::UplinkValid {
            command: 0,
            sequence: (current % 256) as u8,
            first_us: 0,
            last_us: 0,
        },
    )
}

/// How many responses are reported missing while responses with these numbers arrive, after one
/// with the first number.
pub open spec fn reported_missing(trial: RoundtripTrial, numbers: Seq<int>) -> int
    decreases numbers.len(),
{
    if numbers.len() <= 1 {
        0
    } else {
        let before = numbers.drop_last();
        reported_missing(trial, before) + match logged_between(
            trial,
            before.last(),
            numbers.last(),
        ) {
            Some(LogEvent::SequenceMissing(count)) => count as int,
            _ => 0,
        }
    }
}

proof fn lemma_numbers_go_round(previous: int, current: int)
    requires
        1 <= current - previous <= 255,
    ensures
        (current % 256 - previous % 256) % 256 == current - previous,
{
    vstd::arithmetic::div_mod::lemma_sub_mod_noop(current, previous, 256);
    vstd::arithmetic::div_mod::lemma_small_mod((current - previous) as nat, 256);
}

proof fn lemma_one_arrival(trial: RoundtripTrial, previous: int, current: int)
    requires
        1 <= current - previous <= 255,
    ensures
        logged_between(trial, previous, current) == (if current - previous == 1 {
            None
        } else {
            Some(LogEvent::SequenceMissing((current - previous - 1) as u32))
        }),
{
    lemma_numbers_go_round(previous, current);
}

/// Law: as long as no more than 254 responses in a row are lost, exactly the lost ones are
/// reported missing, although the numbers go round.
pub proof fn law_lost_responses_are_reported(trial: RoundtripTrial, numbers: Seq<int>)
    requires
        numbers.len() >= 1,
        forall|i: int|
            0 < i < numbers.len() ==> 1 <= #[trigger] numbers[i] - numbers[i - 1] <= 255,
    ensures
        reported_missing(trial, numbers) == numbers.last() - numbers[0] - (numbers.len() - 1),
    decreases numbers.len(),
{
    if numbers.len() > 1 {
        let before = numbers.drop_last();
        assert forall|i: int| 0 < i < before.len() implies 1 <= #[trigger] before[i] - before[i - 1]
            <= 255 by {
            assert(before[i] == numbers[i] && before[i - 1] == numbers[i - 1]);
        }
        law_lost_responses_are_reported(trial, before);
        assert(before.last() == numbers[numbers.len() - 2]);
        assert(numbers.last() == numbers[numbers.len() - 1]);
        lemma_one_arrival(trial, before.last(), numbers.last());
    }
}

/// The aggregate of these values.
pub open spec fn aggregate_of(values: Seq<u64>) -> Aggregate
    decreases values.len(),
{
    if values.len() == 0 {
        Aggregate::empty()
    } else {
        aggregate_of(values.drop_last()).with(values.last())
    }
}

/// Law: an aggregate counts the values, bounds them by values among them, and sums them up, up to
/// the range of the count.
#[verifier::rlimit(40)]
pub proof fn law_aggregates_describe_the_values(values: Seq<u64>)
    requires
        values.len() <= u64::MAX,
    ensures
        aggregate_of(values).count == values.len(),
        aggregate_of(values).sum == crate::lora_timing::sum_of(values),
        0 <= crate::lora_timing::sum_of(values) <= values.len() * u64::MAX,
        forall|i: int|
            0 <= i < values.len() ==> aggregate_of(values).min <= #[trigger] values[i]
                <= aggregate_of(values).max,
        values.len() > 0 ==> values.contains(aggregate_of(values).min) && values.contains(
            aggregate_of(values).max,
        ),
    decreases values.len(),
{
    if values.len() > 0 {
        let before = values.drop_last();
        law_aggregates_describe_the_values(before);
        assert(crate::lora_timing::sum_of(values) <= values.len() * u64::MAX) by (nonlinear_arith)
            requires
                crate::lora_timing::sum_of(values) == crate::lora_timing::sum_of(before) + values.last(),
                crate::lora_timing::sum_of(before) <= before.len() * u64::MAX,
                values.len() == before.len() + 1,
        ;
        assert(values.len() * u64::MAX <= u64::MAX * u64::MAX) by (nonlinear_arith)
            requires
                values.len() <= u64::MAX,
        ;
        let aggregate = aggregate_of(values);
        assert forall|i: int| 0 <= i < values.len() implies aggregate.min <= #[trigger] values[i]
            <= aggregate.max by {
            if i < before.len() {
                assert(values[i] == before[i]);
            }
        }
        assert(values[values.len() - 1] == values.last());
        if before.len() > 0 {
            let smallest = choose|i: int| 0 <= i < before.len() && before[i] == aggregate_of(
                before,
            ).min;
            let largest = choose|i: int| 0 <= i < before.len() && before[i] == aggregate_of(
                before,
            ).max;
            assert(values[smallest] == before[smallest] && values[largest] == before[largest]);
        }
    }
}

/// Law: the mean lies between the smallest and the largest value.
#[verifier::rlimit(40)]
pub proof fn law_average_lies_between_the_extremes(values: Seq<u64>)
    requires
        0 < values.len() <= u64::MAX,
    ensures
        aggregate_of(values).spec_average() == crate::lora_timing::sum_of(values) / values.len() as int,
        aggregate_of(values).min <= aggregate_of(values).spec_average()
            <= aggregate_of(values).max,
{
    law_aggregates_describe_the_values(values);
    let aggregate = aggregate_of(values);
    let count = values.len() as int;
    let sum = crate::lora_timing::sum_of(values);
    lemma_sum_between(values, aggregate.min, aggregate.max);
    assert(aggregate.min as int <= sum / count <= aggregate.max as int) by (nonlinear_arith)
        requires
            count > 0,
            count * aggregate.min <= sum <= count * aggregate.max,
    ;
}

proof fn lemma_sum_between(values: Seq<u64>, low: u64, high: u64)
    requires
        forall|i: int| 0 <= i < values.len() ==> low <= #[trigger] values[i] <= high,
    ensures
        values.len() * low <= crate::lora_timing::sum_of(values) <= values.len() * high,
    decreases values.len(),
{
    if values.len() > 0 {
        let before = values.drop_last();
        assert forall|i: int| 0 <= i < before.len() implies low <= #[trigger] before[i]
            <= high by {
            assert(before[i] == values[i]);
        }
        lemma_sum_between(before, low, high);
        assert(low <= values[values.len() - 1] <= high);
        assert(values.len() * low == before.len() * low + low && values.len() * high == before.len()
            * high + high) by (nonlinear_arith)
            requires
                values.len() == before.len() + 1,
        ;
    }
}

/// The statistics after these entries.
pub open spec fn statistics_of(entries: Seq<LogEvent>) -> TrialStatistics
    decreases entries.len(),
{
    if entries.len() == 0 {
        TrialStatistics::empty()
    } else {
        statistics_of(entries.drop_last()).with_event(entries.last())
    }
}

/// Number of trials among these entries that the predicate picks.
pub open spec fn trials_among(entries: Seq<LogEvent>, answered_only: bool) -> nat
    decreases entries.len(),
{
    if entries.len() == 0 {
        0
    } else {
        trials_among(entries.drop_last(), answered_only) + match entries.last() {
            LogEvent::Record(record) => if answered_only && record.ul_last_us is None {
                0nat
            } else {
                1
            },
            _ => 0,
        }
    }
}

/// Law: the statistics count every downlink and every answered downlink; the share of answered
/// downlinks is exact and never above the whole.
pub proof fn law_success_is_the_share_of_answered_downlinks(entries: Seq<LogEvent>)
    requires
        entries.len() * 10_000 <= u64::MAX,
    ensures
        statistics_of(entries).downlinks == trials_among(entries, false),
        statistics_of(entries).received == trials_among(entries, true),
        statistics_of(entries).rx_offset.count == trials_among(entries, true),
        statistics_of(entries).guard.count == trials_among(entries, true),
        trials_among(entries, true) <= trials_among(entries, false) <= entries.len(),
        trials_among(entries, false) > 0 ==> {
            let summary = statistics_of(entries).spec_summary();
            &&& summary.success_basis_points == trials_among(entries, true) * 10_000 / trials_among(
                entries,
                false,
            )
            &&& summary.success_basis_points <= 10_000
            &&& summary.not_received == trials_among(entries, false) - trials_among(entries, true)
        },
    decreases entries.len(),
{
    lemma_counts(entries);
    let answered = trials_among(entries, true) as int;
    let all = trials_among(entries, false) as int;
    if all > 0 {
        assert(0 <= answered * 10_000 / all <= 10_000) by (nonlinear_arith)
            requires
                0 <= answered <= all,
                all > 0,
        ;
    }
}

proof fn lemma_counts(entries: Seq<LogEvent>)
    requires
        entries.len() <= u64::MAX,
    ensures
        statistics_of(entries).downlinks == trials_among(entries, false),
        statistics_of(entries).received == trials_among(entries, true),
        statistics_of(entries).rx_offset.count == trials_among(entries, true),
        statistics_of(entries).guard.count == trials_among(entries, true),
        trials_among(entries, true) <= trials_among(entries, false) <= entries.len(),
    decreases entries.len(),
{
    if entries.len() > 0 {
        lemma_counts(entries.drop_last());
    }
}

/// Law: a summary comes with every hundredth trial and at no other entry.
pub proof fn law_summaries_come_every_hundred_trials(entries: Seq<LogEvent>, entry: LogEvent)
    requires
        entries.len() < u64::MAX,
    ensures
        statistics_of(entries).summary_due(entry) <==> entry is Record && (trials_among(
            entries,
            false,
        ) + 1) % 100 == 0,
{
    lemma_counts(entries);
}

/// Law: a response is late when more than twenty milliseconds have passed since its first byte.
pub proof fn law_responses_have_twenty_milliseconds(response: PartialResponse, now_us: u64)
    ensures
        response.late(now_us) <==> response.bytes.len() > 0 && now_us - response.first_us > 20_000,
{
}

/// Law: handing over a downlink succeeds with the flush and fails with an error or a write that
/// accepts nothing, and with nothing else.
pub proof fn law_how_a_downlink_ends(progress: WriteProgress, event: UartEvent)
    requires
        progress.awaits(event),
    ensures
        progress.after(event).bytes == progress.bytes,
        progress.after(event).stage == WriteStage::Finished(true) <==> event is Flushed,
        progress.after(event).stage == WriteStage::Finished(false) <==> event is Failed || event
            == UartEvent::Written(0),
        event is Flushed ==> progress.stage is Flushing,
        event matches UartEvent::Written(count) ==> progress.stage is Writing && progress.after(
            event,
        ).written == progress.written + count && (progress.after(event).stage is Flushing <==> count
            > 0 && progress.written + count == progress.bytes.len()),
        !(event is Written) ==> progress.after(event).written == progress.written,
{
}

/// `time` is how long `later` comes after `earlier`, zero where it does not.
pub open spec fn is_delay(time: u64, earlier: u64, later: u64) -> bool {
    &&& earlier <= later ==> earlier + time == later
    &&& later < earlier ==> time == 0
}

/// Law: the figures of a trial: how long the UART took, how late the downlink was, how long after
/// its start the response ended and how long before the next one, and how long AUX was low.
pub proof fn law_figures_of_a_trial(record: TestRecord)
    ensures
        ({
            let figures = record.spec_figures();
            &&& is_delay(
                figures.uart_tx_duration_us,
                record.dl_uart_start_us,
                record.dl_uart_end_us,
            )
            &&& is_delay(
                figures.schedule_lateness_us,
                record.dl_schedule_us,
                record.dl_uart_start_us,
            )
            &&& figures.ul_received <==> record.ul_last_us is Some
            &&& figures.command_rx_offset_us is Some <==> record.ul_last_us is Some
            &&& figures.guard_us is Some <==> record.ul_last_us is Some
            &&& record.ul_last_us matches Some(last) ==> is_delay(
                figures.command_rx_offset_us->0,
                record.dl_uart_start_us,
                last,
            ) && is_delay(figures.guard_us->0, last, record.next_dl_schedule_us)
            &&& figures.aux_low_us is Some <==> record.dl_aux_fall_us is Some
                && record.dl_aux_rise_us is Some && record.dl_aux_fall_us->0
                <= record.dl_aux_rise_us->0
            &&& figures.aux_low_us matches Some(low) ==> record.dl_aux_fall_us->0 + low
                == record.dl_aux_rise_us->0
        }),
{
}

/// Law: a response within the interval of its downlink splits that interval into its offset and
/// its guard time.
pub proof fn law_offset_and_guard_fill_the_interval(record: TestRecord, last: u64)
    requires
        record.ul_last_us == Some(last),
        record.dl_uart_start_us <= last <= record.next_dl_schedule_us,
    ensures
        record.spec_figures().command_rx_offset_us->0 + record.spec_figures().guard_us->0
            == record.next_dl_schedule_us - record.dl_uart_start_us,
{
}

/// Law: what stands in which column of a trial.
pub proof fn law_columns_of_a_trial(record: TestRecord)
    ensures
        ({
            let columns = record.spec_columns();
            let figures = record.spec_figures();
            &&& columns.len() == 18
            &&& columns[0] == record.dl_seq
            &&& columns[1] == record.dl_schedule_us
            &&& columns[2] == record.dl_uart_start_us
            &&& columns[3] == record.dl_uart_end_us
            &&& columns[4] == (if record.dl_aux_fall_us is Some {
                record.dl_aux_fall_us->0
            } else {
                0
            })
            &&& columns[5] == (if record.dl_aux_rise_us is Some {
                record.dl_aux_rise_us->0
            } else {
                0
            })
            &&& columns[6] == (if record.ul_last_us is Some {
                1u64
            } else {
                0
            })
            &&& record.ul_command is Some ==> columns[7] == record.ul_command->0
            &&& record.ul_command is None ==> columns[7] == 0
            &&& record.ul_seq is Some ==> columns[8] == record.ul_seq->0
            &&& record.ul_seq is None ==> columns[8] == 0
            &&& columns[9] == (if record.ul_first_us is Some {
                record.ul_first_us->0
            } else {
                0
            })
            &&& columns[10] == (if record.ul_last_us is Some {
                record.ul_last_us->0
            } else {
                0
            })
            &&& columns[11] == record.next_dl_schedule_us
            &&& is_delay(columns[12], columns[2], columns[3])
            &&& record.ul_last_us is Some ==> is_delay(columns[13], columns[2], columns[10])
                && is_delay(columns[14], columns[10], columns[11])
            &&& record.ul_last_us is None ==> columns[13] == 0 && columns[14] == 0
            &&& is_delay(columns[15], columns[1], columns[2])
            &&& columns[16] == columns[6]
            &&& columns[17] == (if record.tx_ok {
                1u64
            } else {
                0
            })
        }),
{
}

/// Law: what stands in which column of a summary.
pub proof fn law_columns_of_a_summary(statistics: TrialStatistics)
    requires
        statistics.downlinks > 0,
    ensures
        ({
            let summary = statistics.spec_summary();
            let columns = summary.spec_columns();
            &&& columns.len() == 19
            &&& columns[0] == statistics.downlinks
            &&& columns[1] == statistics.received
            &&& is_delay(columns[2], statistics.received, statistics.downlinks)
            &&& columns[3] == statistics.checksum_errors
            &&& columns[4] == statistics.length_errors
            &&& columns[5] == statistics.unknown_commands
            &&& columns[6] == summary.success_basis_points
            &&& columns[8] == statistics.rx_offset.max
            &&& columns[11] == statistics.guard.max
            &&& columns[13] == statistics.max_lateness_us
            &&& columns[15] == statistics.aux_low.max
            &&& columns[17] == statistics.sequence_missing
            &&& columns[18] == statistics.sequence_duplicates
        }),
{
}

/// `low` and `mean` are the smallest value and the mean, rounded down; both are zero without
/// values.
pub open spec fn shows_low_and_mean(low: u64, mean: u64, values: Seq<u64>) -> bool {
    &&& values.len() == 0 ==> low == 0 && mean == 0
    &&& values.len() > 0 ==> values.contains(low)
    &&& forall|i: int| 0 <= i < values.len() ==> low <= #[trigger] values[i]
    &&& values.len() > 0 ==> mean == crate::lora_timing::sum_of(values) / values.len() as int
}

/// Law: a summary shows the smallest value and the mean of the offsets, of the guard times and of
/// the times of AUX low.
#[verifier::rlimit(40)]
pub proof fn law_summaries_show_low_and_mean(
    summary: TrialSummary,
    offsets: Seq<u64>,
    guards: Seq<u64>,
    lows: Seq<u64>,
)
    requires
        summary.statistics.rx_offset == aggregate_of(offsets),
        summary.statistics.guard == aggregate_of(guards),
        summary.statistics.aux_low == aggregate_of(lows),
        offsets.len() <= u64::MAX,
        guards.len() <= u64::MAX,
        lows.len() <= u64::MAX,
    ensures
        shows_low_and_mean(summary.spec_columns()[7], summary.spec_columns()[9], offsets),
        shows_low_and_mean(summary.spec_columns()[10], summary.spec_columns()[12], guards),
        shows_low_and_mean(summary.spec_columns()[14], summary.spec_columns()[16], lows),
{
    lemma_low_and_mean(offsets);
    lemma_low_and_mean(guards);
    lemma_low_and_mean(lows);
}

proof fn lemma_low_and_mean(values: Seq<u64>)
    requires
        values.len() <= u64::MAX,
    ensures
        shows_low_and_mean(
            aggregate_of(values).spec_min_or_zero(),
            aggregate_of(values).spec_average(),
            values,
        ),
{
    law_aggregates_describe_the_values(values);
    if values.len() > 0 {
        law_average_lies_between_the_extremes(values);
    }
}

/// The offsets of the responses among these entries, in order.
pub open spec fn offsets_among(entries: Seq<LogEvent>) -> Seq<u64>
    decreases entries.len(),
{
    if entries.len() == 0 {
        Seq::empty()
    } else {
        let before = offsets_among(entries.drop_last());
        match entries.last() {
            LogEvent::Record(record) => match record.spec_figures().command_rx_offset_us {
                Some(offset) => before.push(offset),
                None => before,
            },
            _ => before,
        }
    }
}

/// The guard times of the responses among these entries, in order.
pub open spec fn guards_among(entries: Seq<LogEvent>) -> Seq<u64>
    decreases entries.len(),
{
    if entries.len() == 0 {
        Seq::empty()
    } else {
        let before = guards_among(entries.drop_last());
        match entries.last() {
            LogEvent::Record(record) => match record.spec_figures().guard_us {
                Some(guard) => before.push(guard),
                None => before,
            },
            _ => before,
        }
    }
}

/// The times of AUX low among these entries, in order.
pub open spec fn aux_lows_among(entries: Seq<LogEvent>) -> Seq<u64>
    decreases entries.len(),
{
    if entries.len() == 0 {
        Seq::empty()
    } else {
        let before = aux_lows_among(entries.drop_last());
        match entries.last() {
            LogEvent::Record(record) => match record.spec_figures().aux_low_us {
                Some(low) => before.push(low),
                None => before,
            },
            _ => before,
        }
    }
}

/// Law: the statistics describe the offsets, the guard times and the times of AUX low of all
/// trials so far.
pub proof fn law_statistics_describe_the_trials(entries: Seq<LogEvent>)
    ensures
        statistics_of(entries).rx_offset == aggregate_of(offsets_among(entries)),
        statistics_of(entries).guard == aggregate_of(guards_among(entries)),
        statistics_of(entries).aux_low == aggregate_of(aux_lows_among(entries)),
    decreases entries.len(),
{
    if entries.len() > 0 {
        let earlier = entries.drop_last();
        law_statistics_describe_the_trials(earlier);
        if let LogEvent::Record(record) = entries.last() {
            let figures = record.spec_figures();
            if let Some(offset) = figures.command_rx_offset_us {
                assert(offsets_among(earlier).push(offset).drop_last() =~= offsets_among(earlier));
            }
            if let Some(guard) = figures.guard_us {
                assert(guards_among(earlier).push(guard).drop_last() =~= guards_among(earlier));
            }
            if let Some(low) = figures.aux_low_us {
                assert(aux_lows_among(earlier).push(low).drop_last() =~= aux_lows_among(earlier));
            }
        }
    }
}

/// Law: the reported lateness is that of the latest downlink: none was later, and one was as late,
/// unless all were in time.
pub proof fn law_lateness_is_that_of_the_latest(entries: Seq<LogEvent>)
    ensures
        forall|i: int|
            0 <= i < entries.len() ==> (#[trigger] entries[i] matches LogEvent::Record(record)
                ==> record.spec_figures().schedule_lateness_us <= statistics_of(
                entries,
            ).max_lateness_us),
        statistics_of(entries).max_lateness_us == 0 || exists|i: int|
            0 <= i < entries.len() && (#[trigger] entries[i] matches LogEvent::Record(record)
                && record.spec_figures().schedule_lateness_us == statistics_of(
                entries,
            ).max_lateness_us),
    decreases entries.len(),
{
    if entries.len() > 0 {
        let earlier = entries.drop_last();
        let before = statistics_of(earlier).max_lateness_us;
        let after = statistics_of(entries).max_lateness_us;
        law_lateness_is_that_of_the_latest(earlier);
        assert forall|i: int| 0 <= i < entries.len() implies (
        #[trigger] entries[i] matches LogEvent::Record(record)
            ==> record.spec_figures().schedule_lateness_us <= after) by {
            if i < earlier.len() {
                assert(earlier[i] == entries[i]);
            }
        }
        if after == before && before != 0 {
            let i = choose|i: int|
                0 <= i < earlier.len() && (#[trigger] earlier[i] matches LogEvent::Record(record)
                    && record.spec_figures().schedule_lateness_us == before);
            assert(entries[i] == earlier[i]);
        } else if after != before {
            assert(entries[entries.len() - 1] == entries.last());
        }
    }
}

/// Number of checksum errors among these entries.
pub open spec fn checksum_errors_among(entries: Seq<LogEvent>) -> nat
    decreases entries.len(),
{
    if entries.len() == 0 {
        0
    } else {
        checksum_errors_among(entries.drop_last()) + if entries.last() is ChecksumError {
            1nat
        } else {
            0
        }
    }
}

/// Number of length errors among these entries.
pub open spec fn length_errors_among(entries: Seq<LogEvent>) -> nat
    decreases entries.len(),
{
    if entries.len() == 0 {
        0
    } else {
        length_errors_among(entries.drop_last()) + if entries.last() is LengthError {
            1nat
        } else {
            0
        }
    }
}

/// Number of unknown commands among these entries.
pub open spec fn unknown_commands_among(entries: Seq<LogEvent>) -> nat
    decreases entries.len(),
{
    if entries.len() == 0 {
        0
    } else {
        unknown_commands_among(entries.drop_last()) + if entries.last() is UnknownCommand {
            1nat
        } else {
            0
        }
    }
}

/// Number of repeated response numbers among these entries.
pub open spec fn duplicates_among(entries: Seq<LogEvent>) -> nat
    decreases entries.len(),
{
    if entries.len() == 0 {
        0
    } else {
        duplicates_among(entries.drop_last()) + if entries.last() is SequenceDuplicate {
            1nat
        } else {
            0
        }
    }
}

/// How many responses these entries report missing.
pub open spec fn missing_among(entries: Seq<LogEvent>) -> nat
    decreases entries.len(),
{
    if entries.len() == 0 {
        0
    } else {
        missing_among(entries.drop_last()) + match entries.last() {
            LogEvent::SequenceMissing(count) => count as nat,
            _ => 0,
        }
    }
}

/// Law: every kind of error has a count of its own, and missing responses are added up.
pub proof fn law_errors_are_counted_by_kind(entries: Seq<LogEvent>)
    requires
        entries.len() <= u64::MAX,
        missing_among(entries) <= u64::MAX,
    ensures
        statistics_of(entries).checksum_errors == checksum_errors_among(entries),
        statistics_of(entries).length_errors == length_errors_among(entries),
        statistics_of(entries).unknown_commands == unknown_commands_among(entries),
        statistics_of(entries).sequence_duplicates == duplicates_among(entries),
        statistics_of(entries).sequence_missing == missing_among(entries),
        checksum_errors_among(entries) <= entries.len(),
        length_errors_among(entries) <= entries.len(),
        unknown_commands_among(entries) <= entries.len(),
        duplicates_among(entries) <= entries.len(),
    decreases entries.len(),
{
    if entries.len() > 0 {
        law_errors_are_counted_by_kind(entries.drop_last());
    }
}

/// Law: what an event makes in the log: errors under their names, a repeated number as a
/// duplicate, the following number and the very first response nothing, and AUX nothing.
pub proof fn law_what_is_logged(
    trial: RoundtripTrial,
    command: u8,
    sequence: u8,
    first_us: u64,
    last_us: u64,
)
    ensures
        trial.log_of(TestEvent::ChecksumError) == Some(LogEvent::ChecksumError),
        trial.log_of(TestEvent::LengthError) == Some(LogEvent::LengthError),
        trial.log_of(TestEvent::UnknownCommand) == Some(LogEvent::UnknownCommand),
        trial.log_of(TestEvent::AuxFall { at_us: first_us }) is None,
        trial.log_of(TestEvent::AuxRise { at_us: first_us }) is None,
        trial.after(TestEvent::ChecksumError) == trial,
        trial.after(TestEvent::LengthError) == trial,
        trial.after(TestEvent::UnknownCommand) == trial,
        ({
            let entry = trial.log_of(
                TestEvent::UplinkValid { command, sequence, first_us, last_us },
            );
            &&& trial.last_rx_sequence is None ==> entry is None
            &&& entry == Some(LogEvent::SequenceDuplicate) <==> trial.last_rx_sequence == Some(
                sequence,
            )
            &&& trial.last_rx_sequence matches Some(previous) ==> (entry is None <==> sequence
                == (previous + 1) % 256)
            &&& trial.after(
                TestEvent::UplinkValid { command, sequence, first_us, last_us },
            ).last_rx_sequence == Some(sequence)
        }),
{
}

/// Law: the first response with the number of the downlink under way is what its record shows,
/// with its command and its times; any other leaves the record alone.
pub proof fn law_first_response_is_recorded(
    trial: RoundtripTrial,
    record: TestRecord,
    command: u8,
    sequence: u8,
    first_us: u64,
    last_us: u64,
)
    requires
        trial.active == Some(record),
    ensures
        ({
            let after = trial.after(
                TestEvent::UplinkValid { command, sequence, first_us, last_us },
            );
            &&& sequence == record.dl_seq && record.ul_last_us is None ==> after.active == Some(
                TestRecord {
                    ul_command: Some(command),
                    ul_seq: Some(sequence),
                    ul_first_us: Some(first_us),
                    ul_last_us: Some(last_us),
                    ..record
                },
            )
            &&& sequence != record.dl_seq || record.ul_last_us is Some ==> after.active == Some(
                record,
            )
            &&& after.aux_is_low == trial.aux_is_low && after.last_aux_fall_us
                == trial.last_aux_fall_us && after.sequence == trial.sequence
        }),
{
}

/// Law: a fall and a rise of AUX between the start of a downlink and the schedule of the next
/// belong to its record; outside they leave it alone. The level and the last fall are known in
/// either case.
pub proof fn law_aux_edges_belong_to_the_downlink(
    trial: RoundtripTrial,
    record: TestRecord,
    at_us: u64,
)
    requires
        trial.active == Some(record),
    ensures
        ({
            let fallen = trial.after(TestEvent::AuxFall { at_us });
            let risen = trial.after(TestEvent::AuxRise { at_us });
            let inside = record.dl_uart_start_us <= at_us && at_us < record.next_dl_schedule_us;
            &&& fallen.aux_is_low && fallen.last_aux_fall_us == Some(at_us)
            &&& !risen.aux_is_low && risen.last_aux_fall_us == trial.last_aux_fall_us
            &&& inside ==> fallen.active == Some(
                TestRecord { dl_aux_fall_us: Some(at_us), ..record },
            )
            &&& inside ==> risen.active == Some(
                TestRecord { dl_aux_rise_us: Some(at_us), ..record },
            )
            &&& !inside ==> fallen.active == Some(record) && risen.active == Some(record)
            &&& fallen.last_rx_sequence == trial.last_rx_sequence && risen.last_rx_sequence
                == trial.last_rx_sequence
        }),
{
}

/// Law: the record of a downlink shows its times and whether it was sent, and begins with the
/// last fall of AUX where AUX is low already.
pub proof fn law_downlinks_are_recorded(
    trial: RoundtripTrial,
    schedule_us: u64,
    next_schedule_us: u64,
    start_us: u64,
    end_us: u64,
    tx_ok: bool,
)
    ensures
        ({
            let after = trial.after_downlink(
                schedule_us,
                next_schedule_us,
                start_us,
                end_us,
                tx_ok,
            );
            &&& after.active matches Some(record) && record.dl_schedule_us == schedule_us
                && record.next_dl_schedule_us == next_schedule_us && record.dl_uart_start_us
                == start_us && record.dl_uart_end_us == end_us && record.tx_ok == tx_ok
                && record.dl_aux_rise_us is None && record.dl_aux_fall_us == (
            if trial.aux_is_low {
                trial.last_aux_fall_us
            } else {
                None
            })
            &&& after.aux_is_low == trial.aux_is_low && after.last_aux_fall_us
                == trial.last_aux_fall_us && after.last_rx_sequence == trial.last_rx_sequence
        }),
{
}

/// Law: two downlinks differ in their number and their checksum only.
pub proof fn law_downlinks_differ_in_their_number(a: Payload, b: Payload, i: u8, j: u8, at: int)
    requires
        is_trial_payload(a, i),
        is_trial_payload(b, j),
        0 <= at < 38,
        at != 4,
    ensures
        a.sealed().wire()[at] == b.sealed().wire()[at],
{
    crate::payload::law_same_values_give_same_bytes(a.sealed(), b.sealed(), at);
}

/// Law: the bytes of a downlink, but for its number and its checksum, are the same known values.
pub proof fn law_downlinks_have_known_bytes(payload: Payload, sequence: u8)
    requires
        is_trial_payload(payload, sequence),
    ensures
        ({
            let wire = payload.sealed().wire();
            &&& wire[0] == 0 && wire[1] == 0 && wire[2] == 4 && wire[3] == 0xaa
            &&& wire[5] + 0x100 * wire[6] + 0x1_0000 * wire[7] + 0x100_0000 * wire[8] == 0x1234_5678
            &&& wire[9] + 0x100 * wire[10] + 0x1_0000 * wire[11] + 0x100_0000 * wire[12]
                == 0x1_0000_0000 - 0x1234_5678
            &&& wire[13] + 0x100 * wire[14] == 123
            &&& wire[15] + 0x100 * wire[16] == 1
            &&& wire[17] + 0x100 * wire[18] == 0x1_0000 - 2
            &&& wire[19] + 0x100 * wire[20] == 3
            &&& wire[21] + 0x100 * wire[22] == 100
            &&& wire[23] + 0x100 * wire[24] == 0x1_0000 - 200
            &&& wire[25] + 0x100 * wire[26] == 300
            &&& wire[27] + 0x100 * wire[28] == 10
            &&& wire[29] + 0x100 * wire[30] == 20
            &&& wire[31] + 0x100 * wire[32] == 30
            &&& wire[33] == 0x11 && wire[34] == 0x22 && wire[35] == 0x33
            &&& wire[36] == 0x44
            &&& wire[37] == 0x100 - 5
        }),
{
    let sealed = payload.sealed();
    crate::payload::law_fields_read_back(sealed);
}

} // verus!
