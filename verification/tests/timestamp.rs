use retina::{unix_epoch, NtpTimestamp, Timestamp, UNIX_EPOCH_NTP};

#[test]
fn new_keeps_its_arguments() {
    let t = Timestamp::new(3_200_160, 90_000, 3_200_000).unwrap();
    assert_eq!(t.timestamp(), 3_200_160);
    assert_eq!(t.clock_rate(), 90_000);
    assert_eq!(t.start(), 3_200_000);
    assert_eq!(t.elapsed(), 160);
}

#[test]
fn new_succeeds_at_and_after_the_start() {
    for &(timestamp, clock_rate, start) in &[
        (0i64, 1u32, 0u32),
        (42, 8_000, 42),
        (i64::MAX, u32::MAX, u32::MAX),
        (4_294_967_295, 90_000, 4_294_967_295),
        (1 << 40, 16_000, 7),
    ] {
        let t = Timestamp::new(timestamp, clock_rate, start).unwrap();
        assert_eq!(t.elapsed(), timestamp - i64::from(start));
    }
}

#[test]
fn new_allows_a_timestamp_before_the_start() {
    let t = Timestamp::new(-5, 90_000, 10).unwrap();
    assert_eq!(t.elapsed(), -15);
}

#[test]
fn new_refuses_underflow() {
    assert!(Timestamp::new(i64::MIN, 90_000, 1).is_none());
    assert!(Timestamp::new(i64::MIN + 9, 90_000, 10).is_none());
    assert!(Timestamp::new(i64::MIN + 10, 90_000, 10).is_some());
    assert!(Timestamp::new(i64::MIN, 90_000, 0).is_some());
}

#[test]
fn new_refuses_a_clock_that_stands_still() {
    assert!(Timestamp::new(0, 0, 0).is_none());
    assert!(Timestamp::new(100, 0, 10).is_none());
}

#[test]
fn try_add_moves_the_timestamp_only() {
    let t = Timestamp::new(1_000, 8_000, 400).unwrap();
    let u = t.try_add(160).unwrap();
    assert_eq!(u.timestamp(), 1_160);
    assert_eq!(u.start(), 400);
    assert_eq!(u.clock_rate(), 8_000);
    assert_eq!(u.elapsed(), t.elapsed() + 160);
    assert!(t.try_add(0).unwrap() == t);
}

#[test]
fn try_add_refuses_overflow() {
    let t = Timestamp::new(i64::MAX - 5, 8_000, 0).unwrap();
    assert!(t.try_add(6).is_none());
    assert_eq!(t.try_add(5).unwrap().timestamp(), i64::MAX);
}

#[test]
fn wire_is_the_low_32_bits() {
    let t = Timestamp::new(0x1_2345_6789, 90_000, 0).unwrap();
    assert_eq!(t.wire(), 0x2345_6789);
    let t = Timestamp::new(-1, 90_000, 0).unwrap();
    assert_eq!(t.wire(), 0xFFFF_FFFF);
    let t = Timestamp::new(17, 90_000, 0).unwrap();
    assert_eq!(t.wire(), 17);
}

#[test]
fn unix_epoch_is_2208988800_seconds_after_1900() {
    assert_eq!(UNIX_EPOCH_NTP, 2_208_988_800u64 << 32);
    assert_eq!(unix_epoch().0, 9_487_534_653_230_284_800);
    assert_eq!(unix_epoch().unix_seconds(), 0);
    assert_eq!(unix_epoch().subsec_millis(), 0);
}

#[test]
fn ntp_seconds_and_milliseconds() {
    // 2021-03-07T15:20:00.250Z.
    let t = NtpTimestamp(((2_208_988_800u64 + 1_615_130_400) << 32) | (1 << 30));
    assert_eq!(t.since_unix_epoch(), (1_615_130_400u64 << 32) | (1 << 30));
    assert_eq!(t.unix_seconds(), 1_615_130_400);
    assert_eq!(t.subsec_millis(), 250);
    let t = NtpTimestamp(UNIX_EPOCH_NTP | 0xFFFF_FFFF);
    assert_eq!(t.subsec_millis(), 999);
    let t = NtpTimestamp(UNIX_EPOCH_NTP | 0x8000_0000);
    assert_eq!(t.subsec_millis(), 500);
}

#[test]
fn ntp_before_the_unix_epoch_wraps() {
    let t = NtpTimestamp(0);
    assert_eq!(t.since_unix_epoch(), 0u64.wrapping_sub(UNIX_EPOCH_NTP));
    assert_eq!(t.unix_seconds(), 2_085_978_496);
    assert_eq!(t.subsec_millis(), 0);
}

#[test]
fn ntp_timestamps_compare_by_their_bits() {
    assert!(NtpTimestamp(1) < NtpTimestamp(2));
    assert!(NtpTimestamp(7) == NtpTimestamp(7));
    assert!(unix_epoch() > NtpTimestamp(0));
}

#[test]
fn ntp_text_of_given_parts() {
    assert_eq!(
        retina::timestamp::ntp_text("2021-03-07T16:20:00", 250, 3_600),
        "2021-03-07T16:20:00.250+01:00"
    );
    assert_eq!(
        retina::timestamp::ntp_text("2021-03-07T07:20:00", 7, -8 * 3_600),
        "2021-03-07T07:20:00.007-08:00"
    );
    assert_eq!(
        retina::timestamp::ntp_text("2021-03-07T15:20:00", 0, 0),
        "2021-03-07T15:20:00.000-00:00"
    );
    assert_eq!(
        retina::timestamp::ntp_text("2021-03-07T20:50:00", 999, 19_800),
        "2021-03-07T20:50:00.999+05:30"
    );
    assert_eq!(
        retina::timestamp::ntp_text("x", 1_234, -59),
        "x.1234-00:00"
    );
}

#[test]
fn ntp_to_text_agrees_with_the_calendar() {
    let t = NtpTimestamp(((2_208_988_800u64 + 1_615_130_400) << 32) | (1 << 31));
    let text = t.to_text().unwrap();
    let tm = time::at(time::Timespec { sec: 1_615_130_400, nsec: 0 });
    let date_time = tm.strftime("%FT%T").unwrap().to_string();
    assert_eq!(text, retina::timestamp::ntp_text(&date_time, 500, tm.tm_utcoff));
    assert!(text.starts_with(&date_time));
    assert_eq!(&text[date_time.len()..date_time.len() + 4], ".500");
    assert_eq!(text.len(), date_time.len() + 10);
}

#[test]
fn ntp_text_takes_every_distance_from_utc() {
    assert_eq!(
        retina::timestamp::ntp_text("d", 0, i32::MIN),
        "d.000-596523:14"
    );
    assert_eq!(
        retina::timestamp::ntp_text("d", 0, i32::MAX),
        "d.000+596523:14"
    );
    assert_eq!(
        retina::timestamp::ntp_text_of(&Some("d".to_string()), 5, i32::MIN),
        Some("d.005-596523:14".to_string())
    );
    assert_eq!(retina::timestamp::ntp_text_of(&None, 5, 60), None);
}

#[test]
fn ntp_to_text_is_always_there() {
    for raw in [0u64, 1, retina::UNIX_EPOCH_NTP, u64::MAX, 0x8000_0000_0000_0000] {
        let text = retina::NtpTimestamp(raw).to_text();
        assert!(text.is_some(), "{}", raw);
    }
}
