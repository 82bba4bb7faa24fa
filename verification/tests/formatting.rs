use drf_accelerator::{duration_seconds, format_date, format_datetime, format_time, Duration};

#[test]
fn date_is_zero_padded() {
    assert_eq!(format_date(2024, 3, 5), "2024-03-05");
    assert_eq!(format_date(1, 1, 1), "0001-01-01");
    assert_eq!(format_date(9999, 12, 31), "9999-12-31");
    assert_eq!(format_date(0, 10, 20), "0000-10-20");
}

#[test]
fn date_never_truncates_a_field() {
    assert_eq!(format_date(12345, 1, 2), "12345-01-02");
    assert_eq!(format_date(i32::MAX, 255, 100), "2147483647-255-100");
}

#[test]
fn date_with_negative_year_counts_the_sign_in_the_width() {
    assert_eq!(format_date(-5, 1, 2), "-005-01-02");
    assert_eq!(format_date(-1234, 1, 2), "-1234-01-02");
    assert_eq!(format_date(i32::MIN, 1, 2), "-2147483648-01-02");
}

#[test]
fn date_agrees_with_the_standard_formatter() {
    for (year, month, day) in [(1i32, 1u8, 1u8), (987, 6, 5), (2024, 2, 29), (-44, 3, 15)] {
        assert_eq!(format_date(year, month, day), format!("{:04}-{:02}-{:02}", year, month, day));
    }
}

#[test]
fn time_without_microseconds_has_no_fraction() {
    assert_eq!(format_time(14, 30, 0, 0), "14:30:00");
    assert_eq!(format_time(0, 0, 0, 0), "00:00:00");
    assert_eq!(format_time(23, 59, 59, 0), "23:59:59");
}

#[test]
fn time_with_microseconds_has_six_digits() {
    assert_eq!(format_time(14, 30, 0, 5), "14:30:00.000005");
    assert_eq!(format_time(1, 2, 3, 500_000), "01:02:03.500000");
    assert_eq!(format_time(23, 59, 59, 999_999), "23:59:59.999999");
    assert_eq!(format_time(9, 8, 7, 1), "09:08:07.000001");
}

#[test]
fn time_never_truncates_a_field() {
    assert_eq!(format_time(255, 200, 100, 4_294_967_295), "255:200:100.4294967295");
}

#[test]
fn naive_whole_second_timestamp_has_nineteen_characters() {
    let text = format_datetime(2024, 3, 5, 14, 30, 0, 0, None);
    assert_eq!(text, "2024-03-05T14:30:00");
    assert_eq!(text.len(), 19);
    let early = format_datetime(1, 1, 1, 0, 0, 0, 0, None);
    assert_eq!(early, "0001-01-01T00:00:00");
    assert_eq!(early.len(), 19);
    let late = format_datetime(9999, 12, 31, 23, 59, 59, 0, None);
    assert_eq!(late, "9999-12-31T23:59:59");
    assert_eq!(late.len(), 19);
}

#[test]
fn timestamp_fraction_is_six_digits() {
    assert_eq!(format_datetime(2024, 3, 5, 14, 30, 0, 5, None), "2024-03-05T14:30:00.000005");
    assert_eq!(
        format_datetime(2024, 3, 5, 14, 30, 0, 123_456, None),
        "2024-03-05T14:30:00.123456"
    );
    assert_eq!(
        format_datetime(2024, 3, 5, 14, 30, 0, 999_999, Some(0)),
        "2024-03-05T14:30:00.999999Z"
    );
}

#[test]
fn zero_offset_is_written_z() {
    assert_eq!(format_datetime(2024, 3, 5, 14, 30, 0, 0, Some(0)), "2024-03-05T14:30:00Z");
}

#[test]
fn positive_offset_is_written_with_plus() {
    assert_eq!(
        format_datetime(2024, 3, 5, 14, 30, 0, 0, Some(19800)),
        "2024-03-05T14:30:00+05:30"
    );
}

#[test]
fn negative_offset_is_written_with_minus() {
    assert_eq!(
        format_datetime(2024, 3, 5, 14, 30, 0, 0, Some(-18000)),
        "2024-03-05T14:30:00-05:00"
    );
}

#[test]
fn absent_timezone_has_no_suffix() {
    assert_eq!(format_datetime(2024, 3, 5, 14, 30, 0, 0, None), "2024-03-05T14:30:00");
}

#[test]
fn seconds_of_an_offset_are_dropped() {
    assert_eq!(format_datetime(2024, 1, 1, 0, 0, 0, 0, Some(30)), "2024-01-01T00:00:00+00:00");
    assert_eq!(format_datetime(2024, 1, 1, 0, 0, 0, 0, Some(-30)), "2024-01-01T00:00:00-00:00");
    assert_eq!(format_datetime(2024, 1, 1, 0, 0, 0, 0, Some(3599)), "2024-01-01T00:00:00+00:59");
    assert_eq!(format_datetime(2024, 1, 1, 0, 0, 0, 0, Some(-3661)), "2024-01-01T00:00:00-01:01");
}

#[test]
fn offsets_at_the_ends_of_the_range() {
    assert_eq!(
        format_datetime(2024, 1, 1, 0, 0, 0, 0, Some(i32::MAX)),
        "2024-01-01T00:00:00+596523:14"
    );
    assert_eq!(
        format_datetime(2024, 1, 1, 0, 0, 0, 0, Some(i32::MIN)),
        "2024-01-01T00:00:00-596523:14"
    );
    assert_eq!(
        format_datetime(2024, 1, 1, 0, 0, 0, 0, Some(86_399)),
        "2024-01-01T00:00:00+23:59"
    );
}

#[test]
fn timestamp_with_fraction_and_negative_offset() {
    assert_eq!(
        format_datetime(2024, 3, 5, 14, 30, 0, 500_000, Some(-18000)),
        "2024-03-05T14:30:00.500000-05:00"
    );
}

#[test]
fn same_input_gives_same_text() {
    assert_eq!(format_date(2024, 3, 5), format_date(2024, 3, 5));
    assert_eq!(format_time(14, 30, 0, 5), format_time(14, 30, 0, 5));
    let first = format_time(7, 8, 9, 10);
    let _between = format_time(1, 1, 1, 1);
    assert_eq!(format_time(7, 8, 9, 10), first);
}

#[test]
fn timestamp_is_date_then_time() {
    for microsecond in [0u32, 1, 250_000] {
        let expected = format!(
            "{}T{}",
            format_date(1987, 6, 5),
            format_time(4, 3, 2, microsecond)
        );
        assert_eq!(format_datetime(1987, 6, 5, 4, 3, 2, microsecond, None), expected);
    }
}

#[test]
fn duration_outside_the_range_gives_the_end_of_the_range() {
    assert_eq!(duration_seconds(Duration { days: 30_000, seconds: 0, microseconds: 0 }), i32::MAX);
    assert_eq!(duration_seconds(Duration { days: -30_000, seconds: 0, microseconds: 0 }), i32::MIN);
    assert_eq!(
        duration_seconds(Duration { days: i32::MIN, seconds: i32::MIN, microseconds: i32::MIN }),
        i32::MIN
    );
    assert_eq!(
        duration_seconds(Duration { days: i32::MAX, seconds: i32::MAX, microseconds: i32::MAX }),
        i32::MAX
    );
    assert_eq!(duration_seconds(Duration { days: 0, seconds: 0, microseconds: -1 }), 0);
    assert_eq!(duration_seconds(Duration { days: 0, seconds: -1, microseconds: -1 }), -1);
    assert_eq!(duration_seconds(Duration { days: 0, seconds: 1, microseconds: 999_999 }), 1);
}

#[test]
fn duration_is_cut_toward_zero() {
    let cut = |days, seconds, microseconds| duration_seconds(Duration { days, seconds, microseconds });
    assert_eq!(cut(0, 0, 0), 0);
    assert_eq!(cut(0, 19800, 0), 19800);
    assert_eq!(cut(-1, 68400, 0), -18000);
    assert_eq!(cut(0, 59, 999_999), 59);
    assert_eq!(cut(-1, 86399, 500_000), 0);
    assert_eq!(cut(-1, 86399, 0), -1);
    assert_eq!(cut(-1, 86398, 1), -1);
    assert_eq!(cut(-1, 82800, 1), -3599);
    assert_eq!(cut(1, 1, 1), 86401);
}

fn expected_timestamp(fields: (i32, u8, u8, u8, u8, u8, u32), offset: Option<i32>) -> String {
    let (year, month, day, hour, minute, second, microsecond) = fields;
    let suffix = match offset {
        None => String::new(),
        Some(0) => "Z".to_string(),
        Some(seconds) => {
            let sign = if seconds >= 0 { '+' } else { '-' };
            let total = seconds.unsigned_abs();
            format!("{}{:02}:{:02}", sign, total / 3600, (total % 3600) / 60)
        }
    };
    let fraction = if microsecond > 0 { format!(".{:06}", microsecond) } else { String::new() };
    format!(
        "{:04}-{:02}-{:02}T{:02}:{:02}:{:02}{}{}",
        year, month, day, hour, minute, second, fraction, suffix
    )
}

#[test]
fn timestamps_agree_with_the_standard_formatter() {
    let mut state: u64 = 0x2545_f491_4f6c_dd1d;
    let mut next = move || {
        state ^= state << 13;
        state ^= state >> 7;
        state ^= state << 17;
        state
    };
    for round in 0..2000 {
        let wide = round % 4 == 0;
        let year = if wide { next() as i32 } else { (next() % 9999) as i32 + 1 };
        let month = if wide { next() as u8 } else { (next() % 12) as u8 + 1 };
        let day = if wide { next() as u8 } else { (next() % 31) as u8 + 1 };
        let hour = if wide { next() as u8 } else { (next() % 24) as u8 };
        let minute = if wide { next() as u8 } else { (next() % 60) as u8 };
        let second = if wide { next() as u8 } else { (next() % 60) as u8 };
        let microsecond = match next() % 3 {
            0 => 0,
            1 => (next() % 1_000_000) as u32,
            _ => next() as u32,
        };
        let offset = match next() % 4 {
            0 => None,
            1 => Some(0),
            2 => Some((next() % 172_799) as i32 - 86_399),
            _ => Some(next() as i32),
        };
        let fields = (year, month, day, hour, minute, second, microsecond);
        assert_eq!(
            format_datetime(year, month, day, hour, minute, second, microsecond, offset),
            expected_timestamp(fields, offset)
        );
        assert_eq!(format_date(year, month, day), format!("{:04}-{:02}-{:02}", year, month, day));
    }
}
