use c99l_comboard::gnss::{GnssPower, GnssStep, SentenceBuffer};
use c99l_comboard::state::{BoardState, GnssCommand, GNSS_PACKET_LEN};

fn sentences(buffer: &mut SentenceBuffer, text: &[u8]) -> Vec<Vec<u8>> {
    text.iter()
        .filter_map(|&letter| buffer.push(letter))
        .map(|packet| {
            assert_eq!(packet.len(), GNSS_PACKET_LEN);
            let end = packet.iter().position(|&byte| byte == 0).unwrap_or(90);
            assert!(packet[end..].iter().all(|&byte| byte == 0));
            packet[..end].to_vec()
        })
        .collect()
}

#[test]
fn sentences_come_without_line_ends() {
    let mut buffer = SentenceBuffer::new();
    assert_eq!(
        sentences(&mut buffer, b"noise\r\n$GNGGA,1*00\r\n\r\n$GNRMC\n"),
        [b"$GNGGA,1*00".to_vec(), b"$GNRMC".to_vec()]
    );
}

#[test]
fn dollar_sign_starts_over() {
    let mut buffer = SentenceBuffer::new();
    assert_eq!(
        sentences(&mut buffer, b"$GNG$GNGGA,2\n"),
        [b"$GNGGA,2".to_vec()]
    );
}

#[test]
fn split_sentence_is_joined() {
    let mut buffer = SentenceBuffer::new();
    assert!(sentences(&mut buffer, b"$GN").is_empty());
    assert_eq!(sentences(&mut buffer, b"GGA\n"), [b"$GNGGA".to_vec()]);
}

#[test]
fn longest_sentence_fits_and_a_longer_one_is_dropped_whole() {
    let mut longest = b"$".to_vec();
    longest.extend_from_slice(&[b'x'; 89]);
    let mut buffer = SentenceBuffer::new();
    let mut text = longest.clone();
    text.push(b'\n');
    assert_eq!(sentences(&mut buffer, &text), [longest.clone()]);

    let mut text = longest;
    text.extend_from_slice(b"x$GNGGA,3\n");
    assert!(sentences(&mut buffer, &text).is_empty());
    assert_eq!(sentences(&mut buffer, b"$GNGGA,4\n"), [b"$GNGGA,4".to_vec()]);
}

fn power_up(results: [bool; 5]) -> GnssPower {
    let mut power = GnssPower::new();
    assert!(!power.powered());
    power.command(GnssCommand::TurnOn);
    assert!(power.powered());
    for ok in results {
        power.step_done(ok);
    }
    power
}

#[test]
fn receiver_is_on_only_with_all_settings() {
    let steps = [
        GnssStep::SlowUart,
        GnssStep::Boot,
        GnssStep::Settings,
        GnssStep::Settle,
        GnssStep::FastUart,
    ];
    let mut power = GnssPower::new();
    power.command(GnssCommand::TurnOn);
    for step in steps {
        assert_eq!(power.step, step);
        power.step_done(true);
    }
    assert_eq!(power.step, GnssStep::On);
    assert_eq!(power.setting_errors, 0);

    for failing in [0, 2, 4] {
        let mut results = [true; 5];
        results[failing] = false;
        let power = power_up(results);
        assert_eq!(power.step, GnssStep::Failed);
        assert_eq!(power.setting_errors, 1);
        assert!(power.powered());
    }
}

#[test]
fn turning_off_ends_everything() {
    let mut power = power_up([true, true, false, true, true]);
    power.command(GnssCommand::TurnOff);
    assert_eq!(power.step, GnssStep::Off);
    assert!(!power.powered());
    power.command(GnssCommand::TurnOn);
    assert!(!power.settings_refused);
}

#[test]
fn invalid_and_incomplete_fixes_are_not_used() {
    let mut board = BoardState::new();
    assert!(!board.apply_fix(true, Some(1), None, Some(3)));
    assert_eq!(board.payload.gnss_lat, 0);
    assert!(!board.apply_fix(false, Some(1), Some(2), Some(3)));
    assert_eq!(board.payload.gnss_lat, 0);
    assert!(board.apply_fix(true, Some(356_812_345), Some(1_397_671_234), Some(12)));
    assert_eq!(board.payload.gnss_lat, 356_812_345);
    assert_eq!(board.payload.gnss_long, 1_397_671_234);
    assert_eq!(board.payload.gnss_height, 12);
}

#[test]
fn returns_do_not_count_towards_the_length() {
    let mut longest = b"$".to_vec();
    longest.extend_from_slice(&[b'x'; 89]);
    let mut buffer = SentenceBuffer::new();
    let mut text = longest.clone();
    text.extend_from_slice(b"\r\r\n");
    assert_eq!(sentences(&mut buffer, &text), [longest.clone()]);

    let mut text = longest;
    text.extend_from_slice(b"x\r\n$GN\rGGA\r\n");
    assert_eq!(sentences(&mut buffer, &text), [b"$GNGGA".to_vec()]);
}
