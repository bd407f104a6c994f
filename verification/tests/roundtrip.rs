use c99l_comboard::payload::PAYLOAD_LEN;
use c99l_comboard::roundtrip::{
    build_downlink, Aggregate, DownlinkWriter, LogEvent, ResponseBuffer, RoundtripTrial, TestEvent,
    TestRecord, TrialFigures, TrialStatistics, UartEvent, WriteStage, RESPONSE_WINDOW_US,
};

#[test]
fn downlink_carries_its_number_as_status() {
    let bytes = build_downlink(0x5a);
    assert_eq!(bytes.len(), PAYLOAD_LEN);
    assert_eq!(&bytes[..5], &[0, 0, 4, 0xaa, 0x5a]);
    assert_eq!(&bytes[5..13], &[0x78, 0x56, 0x34, 0x12, 0x88, 0xa9, 0xcb, 0xed]);
    assert_eq!(&bytes[13..21], &[123, 0, 1, 0, 0xfe, 0xff, 3, 0]);
    assert_eq!(&bytes[33..38], &[0x11, 0x22, 0x33, 0x44, 0xfb]);
    assert_eq!(bytes[3..].iter().fold(0, |sum, byte| sum ^ byte), 0);
}

#[test]
fn response_is_reported_with_its_times() {
    let mut buffer = ResponseBuffer::new();
    assert!(!buffer.is_waiting());
    assert_eq!(buffer.byte_received(b's', 10), None);
    assert!(buffer.is_waiting());
    assert_eq!(buffer.byte_received(9, 20), None);
    assert_eq!(
        buffer.byte_received(b's' ^ 9, 30),
        Some(TestEvent::UplinkValid {
            command: b's',
            sequence: 9,
            first_us: 10,
            last_us: 30
        })
    );
    assert!(!buffer.is_waiting());
}

#[test]
fn damaged_responses_are_told_apart() {
    let mut buffer = ResponseBuffer::new();
    buffer.byte_received(b's', 1);
    buffer.byte_received(9, 2);
    assert_eq!(buffer.byte_received(0, 3), Some(TestEvent::ChecksumError));
    buffer.byte_received(b'x', 4);
    buffer.byte_received(9, 5);
    assert_eq!(
        buffer.byte_received(b'x' ^ 9, 6),
        Some(TestEvent::UnknownCommand)
    );
    assert_eq!(buffer.interrupted(), None);
    buffer.byte_received(b's', 7);
    assert_eq!(buffer.interrupted(), Some(TestEvent::LengthError));
    assert!(!buffer.is_waiting());
}

#[test]
fn aggregate_describes_its_values() {
    let mut aggregate = Aggregate::new();
    assert_eq!(aggregate.min_or_zero(), 0);
    assert_eq!(aggregate.average(), 0);
    for value in [10, 4, 7, 8] {
        aggregate.add(value);
    }
    assert_eq!(aggregate.count, 4);
    assert_eq!(aggregate.min_or_zero(), 4);
    assert_eq!(aggregate.max, 10);
    assert_eq!(aggregate.average(), 7);
}

#[test]
fn trial_follows_downlink_aux_and_response() {
    let mut trial = RoundtripTrial::new();
    assert_eq!(trial.take_finished(), None);
    trial.downlink_sent(1000, 2000, 1010, 1050, true);
    trial.handle_event(TestEvent::AuxFall { at_us: 1020 });
    trial.handle_event(TestEvent::AuxRise { at_us: 1300 });
    trial.handle_event(TestEvent::AuxFall { at_us: 2000 });
    assert_eq!(
        trial.handle_event(TestEvent::UplinkValid {
            command: b's',
            sequence: 0,
            first_us: 1500,
            last_us: 1600
        }),
        None
    );
    let record = match trial.take_finished() {
        Some(LogEvent::Record(record)) => record,
        other => panic!("no record: {:?}", other),
    };
    let mut expected = TestRecord::new(0, 1000, 1010, 1050, 2000, true);
    expected.dl_aux_fall_us = Some(1020);
    expected.dl_aux_rise_us = Some(1300);
    expected.ul_command = Some(b's');
    expected.ul_seq = Some(0);
    expected.ul_first_us = Some(1500);
    expected.ul_last_us = Some(1600);
    assert_eq!(record, expected);
    assert_eq!(
        record.figures(),
        TrialFigures {
            ul_received: true,
            uart_tx_duration_us: 40,
            command_rx_offset_us: Some(590),
            guard_us: Some(400),
            schedule_lateness_us: 10,
            aux_low_us: Some(280)
        }
    );
    assert_eq!(
        record.columns(),
        [0, 1000, 1010, 1050, 1020, 1300, 1, 115, 0, 1500, 1600, 2000, 40, 590, 400, 10, 1, 1]
    );
    // AUX is low when the next downlink goes out.
    trial.downlink_sent(2000, 3000, 2010, 2050, false);
    let record = trial.active.unwrap();
    assert_eq!(record.dl_seq, 1);
    assert_eq!(record.dl_aux_fall_us, Some(2000));
    assert!(!record.tx_ok);
}

#[test]
fn foreign_and_repeated_responses_are_not_attached() {
    let mut trial = RoundtripTrial::new();
    trial.downlink_sent(0, 100, 1, 2, true);
    let response = |sequence, last_us| TestEvent::UplinkValid {
        command: b'q',
        sequence,
        first_us: 10,
        last_us,
    };
    trial.handle_event(response(7, 20));
    assert_eq!(trial.active.unwrap().ul_last_us, None);
    trial.handle_event(response(0, 30));
    trial.handle_event(response(0, 40));
    assert_eq!(trial.active.unwrap().ul_last_us, Some(30));
}

#[test]
fn lost_and_repeated_numbers_are_logged() {
    let mut trial = RoundtripTrial::new();
    let mut arrive = |sequence| {
        trial.handle_event(TestEvent::UplinkValid {
            command: b'q',
            sequence,
            first_us: 0,
            last_us: 0,
        })
    };
    assert_eq!(arrive(254), None);
    assert_eq!(arrive(255), None);
    assert_eq!(arrive(0), None);
    assert_eq!(arrive(0), Some(LogEvent::SequenceDuplicate));
    assert_eq!(arrive(4), Some(LogEvent::SequenceMissing(3)));
    assert_eq!(arrive(3), Some(LogEvent::SequenceMissing(254)));
}

#[test]
fn errors_pass_from_the_link_to_the_log() {
    let mut trial = RoundtripTrial::new();
    assert_eq!(
        trial.handle_event(TestEvent::ChecksumError),
        Some(LogEvent::ChecksumError)
    );
    assert_eq!(
        trial.handle_event(TestEvent::LengthError),
        Some(LogEvent::LengthError)
    );
    assert_eq!(
        trial.handle_event(TestEvent::UnknownCommand),
        Some(LogEvent::UnknownCommand)
    );
}

#[test]
fn summary_comes_every_hundred_trials() {
    let mut statistics = TrialStatistics::new();
    statistics.record(LogEvent::ChecksumError);
    statistics.record(LogEvent::LengthError);
    statistics.record(LogEvent::UnknownCommand);
    statistics.record(LogEvent::SequenceMissing(5));
    statistics.record(LogEvent::SequenceDuplicate);
    for trial in 1..=100u64 {
        let mut record = TestRecord::new(0, 1000, 1000 + trial, 2000, 5000, true);
        if trial % 4 == 0 {
            record.ul_last_us = Some(3000);
        }
        record.dl_aux_fall_us = Some(100);
        record.dl_aux_rise_us = Some(if trial == 1 { 50 } else { 100 + trial });
        let summary = statistics.record(LogEvent::Record(record));
        assert_eq!(summary.is_some(), trial == 100);
        if let Some(summary) = summary {
            assert_eq!(summary.statistics, statistics);
            assert_eq!(summary.not_received, 75);
            assert_eq!(summary.success_basis_points, 2500);
            assert_eq!(
                summary.columns(),
                [
                    100, 25, 75, 1, 1, 1, 2500, 1900, 1996, 1948, 2000, 2000, 2000, 100, 2, 100,
                    51, 5, 1
                ]
            );
        }
    }
    assert_eq!(statistics.downlinks, 100);
    assert_eq!(statistics.received, 25);
    assert_eq!(statistics.checksum_errors, 1);
    assert_eq!(statistics.length_errors, 1);
    assert_eq!(statistics.unknown_commands, 1);
    assert_eq!(statistics.sequence_missing, 5);
    assert_eq!(statistics.sequence_duplicates, 1);
    assert_eq!(statistics.max_lateness_us, 100);
    assert_eq!(statistics.rx_offset.min_or_zero(), 1900);
    assert_eq!(statistics.rx_offset.max, 1996);
    assert_eq!(statistics.rx_offset.average(), 1948);
    assert_eq!(statistics.guard.average(), 2000);
    assert_eq!(statistics.aux_low.count, 99);
    assert_eq!(statistics.aux_low.max, 100);
}

#[test]
fn response_outside_the_window_is_a_length_error() {
    let mut buffer = ResponseBuffer::new();
    assert_eq!(buffer.deadline(), None);
    assert_eq!(buffer.byte_received(b's', 0), None);
    assert_eq!(buffer.deadline(), Some(20_000));
    assert_eq!(buffer.byte_received(8, 15_000), None);
    assert_eq!(buffer.deadline(), Some(20_000));
    assert_eq!(
        buffer.byte_received(b's' ^ 8, 30_000),
        Some(TestEvent::LengthError)
    );
    // The late byte begins another response.
    assert_eq!(buffer.deadline(), Some(50_000));
    assert_eq!(buffer.byte_received(1, 31_000), None);
    assert_eq!(
        buffer.byte_received(b's' ^ 8 ^ 1, 32_000),
        Some(TestEvent::UnknownCommand)
    );
}

#[test]
fn second_byte_can_be_late_too() {
    let mut buffer = ResponseBuffer::new();
    buffer.byte_received(b's', 1_000);
    assert_eq!(
        buffer.byte_received(b'q', 21_001),
        Some(TestEvent::LengthError)
    );
    assert!(buffer.is_waiting());
    assert_eq!(buffer.byte_received(7, 21_002), None);
    assert_eq!(
        buffer.byte_received(b'q' ^ 7, 21_001 + RESPONSE_WINDOW_US),
        Some(TestEvent::UplinkValid {
            command: b'q',
            sequence: 7,
            first_us: 21_001,
            last_us: 41_001
        })
    );
}

#[test]
fn deadline_stays_in_the_range_of_the_clock() {
    let mut buffer = ResponseBuffer::new();
    buffer.byte_received(b's', u64::MAX - 1);
    assert_eq!(buffer.deadline(), Some(u64::MAX));
    assert_eq!(buffer.interrupted(), Some(TestEvent::LengthError));
    assert_eq!(buffer.deadline(), None);
}

#[test]
fn downlink_is_written_in_pieces_and_flushed() {
    let bytes = build_downlink(3);
    let mut writer = DownlinkWriter::new(bytes);
    let mut sent = Vec::new();
    for count in [1, 20, 18] {
        assert_eq!(writer.stage(), WriteStage::Writing);
        sent.extend_from_slice(&writer.remaining()[..count]);
        writer.step(UartEvent::Written(count));
    }
    assert_eq!(sent, bytes);
    assert!(writer.remaining().is_empty());
    assert_eq!(writer.stage(), WriteStage::Flushing);
    writer.step(UartEvent::Flushed);
    assert_eq!(writer.stage(), WriteStage::Finished(true));
}

#[test]
fn downlink_fails_without_progress_or_on_an_error() {
    for events in [
        vec![UartEvent::Written(0)],
        vec![UartEvent::Failed],
        vec![UartEvent::Written(5), UartEvent::Written(0)],
        vec![UartEvent::Written(39), UartEvent::Failed],
    ] {
        let mut writer = DownlinkWriter::new(build_downlink(0));
        for event in events {
            writer.step(event);
        }
        assert_eq!(writer.stage(), WriteStage::Finished(false));
    }
}
