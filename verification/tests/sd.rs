use c99l_comboard::csv::{csv_header, csv_row};
use c99l_comboard::payload::Payload;
use c99l_comboard::sd_log::{reopen_due, SdAction, SdLog};
use c99l_comboard::sd_time::{civil_time, CivilTime, FatTimestamp};

fn sample() -> Payload {
    let mut payload = Payload::new();
    payload.status = 255;
    payload.gnss_lat = i32::MIN;
    payload.gnss_long = i32::MAX;
    payload.gnss_height = -7;
    payload.angle_speed = [0, -32768, 32767];
    payload.acceleration = [1, 10, 100];
    payload.integrated_angle = [-1, -10, -100];
    payload.air_pressure = [0, 9, 200];
    payload.air_speed = 42;
    payload.fin_angle = -128;
    payload
}

#[test]
fn row_holds_every_column_in_decimal() {
    let row = csv_row(1234567, &sample());
    assert_eq!(
        row.as_str(),
        "1234567,255,-2147483648,2147483647,-7,0,-32768,32767,1,10,100,-1,-10,-100,0,9,200,42,-128\n"
    );
}

#[test]
fn widest_row_fits() {
    let mut payload = sample();
    payload.gnss_long = i32::MIN;
    payload.gnss_height = i16::MIN;
    payload.angle_speed = [i16::MIN; 3];
    payload.acceleration = [i16::MIN; 3];
    payload.integrated_angle = [i16::MIN; 3];
    payload.air_pressure = [255; 3];
    payload.air_speed = 255;
    let row = csv_row(u64::MAX, &payload);
    assert_eq!(row.len(), 140);
    assert!(row.as_str().starts_with("18446744073709551615,255,"));
}

#[test]
fn header_names_every_column() {
    let header = csv_header();
    let row = csv_row(0, &Payload::new());
    assert!(header.starts_with("Time_ms,Status,Lat,Long,Height10m,"));
    assert!(header.ends_with(",AirSpeed,FinAngle\n"));
    assert_eq!(header.split(',').count(), 19);
    assert_eq!(row.split(',').count(), 19);
}

#[test]
fn clock_readings_become_dates() {
    assert_eq!(
        civil_time(1_700_000_000_000_000),
        CivilTime {
            year: 2023,
            month: 11,
            day: 14,
            hour: 22,
            minute: 13,
            second: 20
        }
    );
    assert_eq!(
        FatTimestamp::get_timestamp(1_700_000_000_000_000),
        FatTimestamp {
            year_since_1970: 53,
            zero_indexed_month: 10,
            zero_indexed_day: 13,
            hours: 22,
            minutes: 13,
            seconds: 20
        }
    );
    // 29 February 2000, 23:59:59.999999.
    assert_eq!(
        civil_time(951_868_799_999_999),
        CivilTime {
            year: 2000,
            month: 2,
            day: 29,
            hour: 23,
            minute: 59,
            second: 59
        }
    );
}

#[test]
fn unset_clock_starts_at_the_epoch() {
    let epoch = FatTimestamp {
        year_since_1970: 0,
        zero_indexed_month: 0,
        zero_indexed_day: 0,
        hours: 0,
        minutes: 0,
        seconds: 0,
    };
    assert_eq!(FatTimestamp::get_timestamp(0), epoch);
    assert_eq!(FatTimestamp::get_timestamp(999_999), epoch);
    // Out of range counts as the epoch.
    assert_eq!(FatTimestamp::get_timestamp(i64::MAX as u64), epoch);
    assert_eq!(FatTimestamp::get_timestamp(1 << 63), epoch);
}

#[test]
fn range_of_the_conversion_is_exact() {
    let latest = civil_time(253_402_207_200_000_000);
    assert_eq!((latest.year, latest.month, latest.day), (9999, 12, 30));
    assert_eq!((latest.hour, latest.minute, latest.second), (22, 0, 0));
    assert_eq!(civil_time(253_402_207_200_000_001).year, 1970);
    let earliest = civil_time((-377_705_023_201_000_000i64) as u64);
    assert_eq!((earliest.year, earliest.month, earliest.day), (-9999, 1, 2));
    assert_eq!((earliest.hour, earliest.minute, earliest.second), (1, 59, 59));
    assert_eq!(civil_time((-377_705_023_201_000_001i64) as u64).year, 1970);
}

#[test]
fn upper_half_of_the_clock_lies_before_the_epoch() {
    assert_eq!(
        FatTimestamp::get_timestamp(u64::MAX),
        FatTimestamp {
            year_since_1970: 1,
            zero_indexed_month: 11,
            zero_indexed_day: 30,
            hours: 23,
            minutes: 59,
            seconds: 59
        }
    );
}

#[test]
fn years_are_taken_modulo_256() {
    let civil = CivilTime {
        year: 2230,
        month: 1,
        day: 1,
        hour: 0,
        minute: 0,
        second: 0,
    };
    assert_eq!(FatTimestamp::from_civil(civil).year_since_1970, 4);
}

#[test]
fn rows_are_flushed_once_per_second() {
    let payload = Payload::new();
    let mut log = SdLog::new(0);
    log.tick(100_000, true, &payload);
    assert_eq!(log.action(), SdAction::Wait);
    assert!(log.is_active());
    assert!(log.has_unflushed_data());
    let first = csv_row(100, &payload);
    assert_eq!(log.buffered(), first.as_bytes());

    log.tick(1_000_000, true, &payload);
    assert_eq!(log.action(), SdAction::Write);
    let mut expected = first.as_bytes().to_vec();
    expected.extend_from_slice(csv_row(1000, &payload).as_bytes());
    assert_eq!(log.buffered(), expected);
    log.write_done(true, 1_001_000);
    assert_eq!(log.action(), SdAction::Flush);
    assert_eq!(log.bytes_since_flush(), expected.len() as u64);
    assert!(!log.has_unflushed_data());
    log.flush_done(true, 1_002_000);
    assert_eq!(log.action(), SdAction::Wait);
    assert_eq!(log.bytes_since_flush(), 0);

    log.tick(2_001_000, true, &payload);
    assert_eq!(log.action(), SdAction::Wait);
    log.tick(2_002_000, true, &payload);
    assert_eq!(log.action(), SdAction::Write);
}

#[test]
fn stopping_writes_and_flushes_everything() {
    let payload = Payload::new();
    let mut log = SdLog::new(0);
    log.tick(100_000, true, &payload);
    log.tick(200_000, false, &payload);
    assert!(!log.is_active());
    assert_eq!(log.action(), SdAction::Write);
    log.write_done(true, 200_000);
    assert_eq!(log.action(), SdAction::Flush);
    log.flush_done(false, 200_000);
    assert_eq!(log.write_error_count(), 1);
    assert!(log.has_error());
    // The flush is tried again with the next tick.
    log.tick(300_000, false, &payload);
    assert_eq!(log.action(), SdAction::Flush);
    log.flush_done(true, 300_000);
    assert!(!log.has_error());
    log.tick(400_000, false, &payload);
    assert_eq!(log.action(), SdAction::Wait);
}

#[test]
fn full_buffer_is_written_to_make_room() {
    let payload = sample();
    let row_len = csv_row(100, &payload).len();
    let mut log = SdLog::new(0);
    let mut rows = 0;
    while 2048 - log.buffered().len() >= row_len {
        log.tick(100_000, true, &payload);
        assert_eq!(log.action(), SdAction::Wait);
        rows += 1;
    }
    assert_eq!(log.buffered().len(), rows * row_len);
    log.tick(100_000, true, &payload);
    assert_eq!(log.action(), SdAction::Write);
    log.write_done(true, 100_000);
    assert_eq!(log.buffered().len(), row_len);
    assert_eq!(log.dropped_row_count(), 0);
}

#[test]
fn refused_write_drops_the_row_and_keeps_the_buffer() {
    let payload = sample();
    let row_len = csv_row(100, &payload).len();
    let mut log = SdLog::new(0);
    while 2048 - log.buffered().len() >= row_len {
        log.tick(100_000, true, &payload);
    }
    let before = log.buffered().to_vec();
    log.tick(100_000, true, &payload);
    log.write_done(false, 100_000);
    assert_eq!(log.buffered(), before);
    assert_eq!(log.dropped_row_count(), 1);
    assert_eq!(log.write_error_count(), 1);
    assert!(!log.is_active());
    assert_eq!(log.action(), SdAction::Wait);
    // The next row finds room once the card accepts the buffer.
    log.tick(100_000, true, &payload);
    log.write_done(true, 100_000);
    assert!(log.is_active());
    assert_eq!(log.buffered().len(), row_len);
}

#[test]
fn missing_card_is_an_error() {
    let mut log = SdLog::new(0);
    log.card_failed();
    assert!(log.has_error());
    assert_eq!(log.write_error_count(), 1);
    log.tick(100_000, true, &Payload::new());
    assert!(!log.is_active());
}

#[test]
fn flush_does_not_hide_a_refused_write() {
    let payload = sample();
    let row_len = csv_row(100, &payload).len();
    let mut log = SdLog::new(0);
    while 2048 - log.buffered().len() >= row_len {
        log.tick(100_000, true, &payload);
    }
    // A write makes room, so there is something to flush; the next write is refused.
    log.tick(1_000_000, true, &payload);
    log.write_done(true, 1_000_000);
    assert_eq!(log.action(), SdAction::Write);
    log.write_done(false, 1_000_000);
    assert!(!log.is_active());
    assert_eq!(log.action(), SdAction::Flush);
    log.flush_done(true, 1_000_000);
    assert!(log.has_unflushed_data());
    assert!(log.has_error());
    assert!(!log.is_active());
    // Once the card takes the bytes, the log is active again.
    log.tick(2_000_000, true, &payload);
    assert_eq!(log.action(), SdAction::Write);
    log.write_done(true, 2_000_000);
    assert!(log.is_active());
}

#[test]
fn missing_card_is_tried_again() {
    assert!(!reopen_due(0));
    assert!(!reopen_due(9));
    assert!(reopen_due(10));
}
