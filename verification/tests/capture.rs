use chrono::{DateTime, Datelike, FixedOffset, TimeZone};
use foto_sync::CaptureTime;

#[test]
fn a_timestamp_is_dated_in_utc() {
    let time = CaptureTime::from_timestamp(1_704_103_200, 0, 0).unwrap();
    assert_eq!((time.year, time.month, time.day), (2024, 1, 1));
    assert_eq!(time.seconds, 1_704_103_200);
    assert_eq!(time.nanos, 0);
    assert_eq!(time.date_dir_name(), "2024_01_01");
}

#[test]
fn the_offset_chooses_the_calendar_date() {
    // 2024-01-01T22:00:00Z is already the second of January eight hours east.
    let utc = CaptureTime::from_timestamp(1_704_146_400, 0, 0).unwrap();
    let east = CaptureTime::from_timestamp(1_704_146_400, 0, 8 * 3600).unwrap();
    let west = CaptureTime::from_timestamp(1_704_067_200, 0, -3600).unwrap();
    assert_eq!(utc.date_dir_name(), "2024_01_01");
    assert_eq!(east.date_dir_name(), "2024_01_02");
    assert_eq!(west.date_dir_name(), "2023_12_31");
    assert!(utc.same_instant(&east));
    assert!(!utc.same_instant(&west));
}

#[test]
fn the_date_agrees_with_chrono() {
    let zone = FixedOffset::east_opt(2 * 3600).unwrap();
    let moment: DateTime<FixedOffset> = zone.with_ymd_and_hms(2019, 12, 31, 23, 30, 0).unwrap();
    let time = CaptureTime::from_timestamp(
        moment.timestamp(),
        moment.timestamp_subsec_nanos(),
        moment.offset().local_minus_utc(),
    )
    .unwrap();
    assert_eq!((time.year, time.month, time.day), (moment.year(), moment.month(), moment.day()));
    assert_eq!(time.date_dir_name(), "2019_12_31");
}

#[test]
fn the_epoch_is_dated_1970() {
    let time = CaptureTime::from_timestamp(0, 0, 0).unwrap();
    assert_eq!(time.date_dir_name(), "1970_01_01");
}

#[test]
fn instants_and_zones_out_of_range_have_no_capture_time() {
    assert!(CaptureTime::from_timestamp(i64::MAX, 0, 0).is_none());
    assert!(CaptureTime::from_timestamp(i64::MIN, 0, 0).is_none());
    assert!(CaptureTime::from_timestamp(0, 0, 86_400).is_none());
    assert!(CaptureTime::from_timestamp(0, 0, -86_400).is_none());
    assert!(CaptureTime::from_timestamp(0, 0, 86_399).is_some());
    assert!(CaptureTime::from_timestamp(0, 2_000_000_000, 0).is_none());
}

#[test]
fn every_instant_of_the_years_0_to_9999_has_a_capture_time() {
    let first = CaptureTime::from_timestamp(-62_167_219_200, 0, 0).unwrap();
    assert_eq!(first.date_dir_name(), "0000_01_01");
    let before = CaptureTime::from_timestamp(-62_167_219_200, 0, -86_399).unwrap();
    assert_eq!(before.date_dir_name(), "-001_12_31");
    let last = CaptureTime::from_timestamp(253_402_300_799, 999_999_999, 0).unwrap();
    assert_eq!(last.date_dir_name(), "9999_12_31");
    let after = CaptureTime::from_timestamp(253_402_300_799, 999_999_999, 86_399).unwrap();
    assert_eq!(after.date_dir_name(), "10000_01_01");
}

#[test]
fn a_file_without_metadata_is_filed_under_zeros() {
    let zero = CaptureTime::zero();
    assert_eq!((zero.year, zero.month, zero.day, zero.seconds, zero.nanos), (0, 0, 0, 0, 0));
    assert_eq!(zero.date_dir_name(), "0000_00_00");
    assert_eq!(CaptureTime::or_zero(None).date_dir_name(), "0000_00_00");
    let known = CaptureTime::from_timestamp(1_704_103_200, 0, 0);
    assert_eq!(CaptureTime::or_zero(known).date_dir_name(), "2024_01_01");
}

#[test]
fn two_files_without_metadata_share_their_moment() {
    assert!(CaptureTime::zero().same_instant(&CaptureTime::or_zero(None)));
}

#[test]
fn from_local_date_joins_date_and_instant() {
    let time = CaptureTime::from_local_date(Some((2001, 2, 3)), 42, 7).unwrap();
    assert_eq!((time.year, time.month, time.day, time.seconds, time.nanos), (2001, 2, 3, 42, 7));
    assert!(CaptureTime::from_local_date(None, 42, 7).is_none());
}

#[test]
fn directory_names_are_padded_as_by_the_formatter() {
    let cases: [(i32, u32, u32); 8] = [
        (7, 3, 9),
        (987, 12, 31),
        (2024, 10, 5),
        (12345, 1, 1),
        (-5, 11, 30),
        (-1234, 6, 7),
        (i32::MIN, 1, 1),
        (i32::MAX, 12, 31),
    ];
    for (year, month, day) in cases {
        let time = CaptureTime { year, month, day, seconds: 0, nanos: 0 };
        assert_eq!(time.date_dir_name(), format!("{:04}_{:02}_{:02}", year, month, day));
    }
    let early = CaptureTime { year: -5, month: 11, day: 30, seconds: 0, nanos: 0 };
    assert_eq!(early.date_dir_name(), "-005_11_30");
}

#[test]
fn push_zero_padded_appends_to_the_text() {
    let mut text = String::from("n=");
    foto_sync::capture::push_zero_padded(&mut text, 42, 5);
    assert_eq!(text, "n=00042");
    foto_sync::capture::push_zero_padded(&mut text, 123_456, 3);
    assert_eq!(text, "n=00042123456");
    foto_sync::capture::push_zero_padded(&mut text, 0, 0);
    assert_eq!(text, "n=000421234560");
    foto_sync::capture::push_zero_padded(&mut text, u64::MAX, 2);
    assert_eq!(text, "n=00042123456018446744073709551615");
}
