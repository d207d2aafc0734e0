use bridgescope::calendar::{civil_from_days, days_from_civil, format_modified_time};

#[test]
fn civil_date_conversion_round_trips() {
    for days in [-25_000, -1, 0, 19_000, 20_000] {
        let (year, month, day) = civil_from_days(days);
        assert_eq!(
            days_from_civil(year, i64::from(month), i64::from(day)),
            days
        );
    }
}

#[test]
fn files_formats_known_timestamp() {
    assert_eq!(format_modified_time(1_700_000_000), "2023-11-14 22:13");
}

#[test]
fn epoch_and_leap_days_convert_exactly() {
    assert_eq!(civil_from_days(0), (1970, 1, 1));
    assert_eq!(civil_from_days(-1), (1969, 12, 31));
    assert_eq!(days_from_civil(2000, 2, 29), 11_016);
    assert_eq!(civil_from_days(11_016), (2000, 2, 29));
    assert_eq!(civil_from_days(11_017), (2000, 3, 1));
    assert_eq!(days_from_civil(1900, 3, 1), -25_508);
    assert_eq!(civil_from_days(-25_509), (1900, 2, 28));
}

#[test]
fn timestamps_before_the_epoch_and_far_years_are_padded() {
    assert_eq!(format_modified_time(0), "1970-01-01 00:00");
    assert_eq!(format_modified_time(-60), "1969-12-31 23:59");
    assert_eq!(format_modified_time(-62_167_219_200), "0000-01-01 00:00");
    assert_eq!(format_modified_time(-62_198_755_200), "-001-01-01 00:00");
}

#[test]
fn month_numbers_outside_the_year_roll_over() {
    assert_eq!(days_from_civil(1970, 13, 1), days_from_civil(1971, 1, 1));
    assert_eq!(days_from_civil(1970, 0, 1), days_from_civil(1969, 12, 1));
    assert_eq!(days_from_civil(1970, 0, 1), -31);
}

#[test]
fn far_dates_convert_without_overflow() {
    let (year, month, day) = civil_from_days(i64::MAX - 719_468);
    assert!(year > 25_000_000_000_000_000);
    assert!((1..=12).contains(&month) && (1..=31).contains(&day));
    let (year, _, _) = civil_from_days(i64::MIN);
    assert!(year < -25_000_000_000_000_000);
}

#[test]
fn day_numbers_and_dates_round_trip() {
    for (year, month, day) in [(1970, 1, 1), (2000, 2, 29), (1969, 12, 31), (-4713, 11, 24), (9999, 12, 31)] {
        let days = days_from_civil(year, month, day);
        assert_eq!(civil_from_days(days), (year, month as u32, day as u32));
    }
    assert_eq!(days_from_civil(1970, 1, 1), 0);
    assert_eq!(days_from_civil(2000, 3, 1), days_from_civil(2000, 2, 29) + 1);
}
