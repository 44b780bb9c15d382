use funkfabrik::calendar::{can_format_timestamp, days_to_ymd, format_timestamp};

// ── days_to_ymd ──────────────────────────────────────────────────────────

#[test]
fn epoch_is_1970_01_01() {
    assert_eq!(days_to_ymd(0), (1970, 1, 1));
}

#[test]
fn known_date_2024_03_15() {
    // 2024-03-15 is day 19797 since epoch
    assert_eq!(days_to_ymd(19_797), (2024, 3, 15));
}

#[test]
fn leap_year_feb_29_2000() {
    // 2000-02-29 (leap day) — day 11_016 since epoch
    assert_eq!(days_to_ymd(11_016), (2000, 2, 29));
}

#[test]
fn days_to_ymd_century_is_not_a_leap_year() {
    // 1900 was not a leap year: the day after 1900-02-28 is 1900-03-01.
    assert_eq!(days_to_ymd(-25_509), (1900, 2, 28));
    assert_eq!(days_to_ymd(-25_508), (1900, 3, 1));
}

#[test]
fn days_to_ymd_before_the_epoch() {
    assert_eq!(days_to_ymd(-1), (1969, 12, 31));
    assert_eq!(days_to_ymd(-719_468), (0, 3, 1));
    assert_eq!(days_to_ymd(-719_469), (0, 2, 29));
}

#[test]
fn days_to_ymd_year_end_and_start() {
    assert_eq!(days_to_ymd(364), (1970, 12, 31));
    assert_eq!(days_to_ymd(365), (1971, 1, 1));
    assert_eq!(days_to_ymd(10_956), (1999, 12, 31));
    assert_eq!(days_to_ymd(10_957), (2000, 1, 1));
}

#[test]
fn days_to_ymd_range_ends() {
    assert_eq!(days_to_ymd(784_351_576_776), (2_147_483_647, 12, 31));
    assert_eq!(days_to_ymd(-784_352_998_241), (-2_147_483_600, 3, 1));
}

#[test]
fn days_to_ymd_successive_days_are_successive_dates() {
    // Walk a full 400-year era day by day and check that each date follows
    // the previous one in the calendar.
    let mut prev = days_to_ymd(-1);
    for z in 0..146_097i64 {
        let cur = days_to_ymd(z);
        let (py, pm, pd) = prev;
        let leap = (py % 4 == 0 && py % 100 != 0) || py % 400 == 0;
        let len = match pm {
            2 => if leap { 29 } else { 28 },
            4 | 6 | 9 | 11 => 30,
            _ => 31,
        };
        let expected = if pd < len {
            (py, pm, pd + 1)
        } else if pm < 12 {
            (py, pm + 1, 1)
        } else {
            (py + 1, 1, 1)
        };
        assert_eq!(cur, expected, "day {z}");
        prev = cur;
    }
}

// ── format_timestamp ─────────────────────────────────────────────────────

#[test]
fn format_epoch() {
    assert_eq!(format_timestamp(0), "01.01.1970 00:00");
}

#[test]
fn format_known_datetime() {
    // 2024-03-15 14:30:00 UTC = 19797 * 86400 + 52200 = 1_710_513_000
    assert_eq!(format_timestamp(1_710_513_000), "15.03.2024 14:30");
}

#[test]
fn format_output_is_always_16_chars() {
    for secs in [0u64, 86400, 1_000_000_000, 1_700_000_000] {
        assert_eq!(
            format_timestamp(secs).len(),
            16,
            "bad length for secs={secs}"
        );
    }
}

#[test]
fn format_last_minute_of_a_day() {
    assert_eq!(format_timestamp(86_399), "01.01.1970 23:59");
}

#[test]
fn format_last_representable_minute() {
    // 2147483647-12-31 23:59, the last minute whose year fits the date type.
    assert_eq!(
        format_timestamp(784_351_576_776 * 86_400 + 86_399),
        "31.12.2147483647 23:59"
    );
}

#[test]
fn format_year_beyond_9999_is_wider() {
    // 10000-01-01 00:00 UTC
    assert_eq!(format_timestamp(253_402_300_800), "01.01.10000 00:00");
}

#[test]
fn can_format_timestamp_matches_the_year_range() {
    assert!(can_format_timestamp(0));
    assert!(can_format_timestamp(1_710_513_000));
    assert!(can_format_timestamp(784_351_576_776 * 86_400 + 86_399));
    assert!(!can_format_timestamp(u64::MAX));
    assert!(!can_format_timestamp(784_351_576_777 * 86_400));
    assert!(!can_format_timestamp(i64::MAX as u64));
    assert!(!can_format_timestamp(1u64 << 63));
}
