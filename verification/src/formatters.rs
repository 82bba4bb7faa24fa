//! Canonical text of calendar dates, times of day and timestamps.
//!
//! A date is written `YYYY-MM-DD`, a time of day `HH:MM:SS` or `HH:MM:SS.ffffff`,
//! a timestamp as the date, a `T`, the time, and the UTC offset of the value if it
//! has one: `Z` for an offset of zero, `+HH:MM` or `-HH:MM` otherwise. No field is
//! ever truncated, and nothing about the calendar is checked.

use vstd::prelude::*;
use crate::digits::{
    all_digits, digits_value, lemma_zero_padded, pow10, push_zero_padded, zero_padded,
};
use crate::value::Duration;

verus! {

/// The text of a year: at least four characters, the sign of a negative year included.
pub open spec fn year_text(year: int) -> Seq<char> {
    if year >= 0 {
        zero_padded(year as nat, 4)
    } else {
        seq!['-'] + zero_padded((-year) as nat, 3)
    }
}

/// The text of a calendar date, `YYYY-MM-DD`.
pub open spec fn date_text(year: int, month: nat, day: nat) -> Seq<char> {
    year_text(year) + seq!['-'] + zero_padded(month, 2) + seq!['-'] + zero_padded(day, 2)
}

/// The fractional part of a second: nothing for zero microseconds, else a point and
/// six digits.
pub open spec fn fraction_text(microsecond: nat) -> Seq<char> {
    if microsecond == 0 {
        Seq::empty()
    } else {
        seq!['.'] + zero_padded(microsecond, 6)
    }
}

/// The hours, minutes and seconds of a time of day, `HH:MM:SS`.
pub open spec fn clock_text(hour: nat, minute: nat, second: nat) -> Seq<char> {
    zero_padded(hour, 2) + seq![':'] + zero_padded(minute, 2) + seq![':'] + zero_padded(second, 2)
}

/// The text of a time of day, `HH:MM:SS` followed by the fractional part if there is one.
pub open spec fn time_text(hour: nat, minute: nat, second: nat, microsecond: nat) -> Seq<char> {
    clock_text(hour, minute, second) + fraction_text(microsecond)
}

/// The absolute value of a number of seconds.
pub open spec fn magnitude(seconds: int) -> nat {
    if seconds >= 0 {
        seconds as nat
    } else {
        (-seconds) as nat
    }
}

/// The text of a UTC offset: nothing where the value has none, `Z` for zero, else the
/// sign, the whole hours and the remaining whole minutes of its absolute value.
pub open spec fn offset_text(utc_offset_seconds: Option<i32>) -> Seq<char> {
    match utc_offset_seconds {
        None => Seq::empty(),
        Some(seconds) => if seconds == 0 {
            seq!['Z']
        } else {
            seq![if seconds >= 0 { '+' } else { '-' }]
                + zero_padded(magnitude(seconds as int) / 3600, 2)
                + seq![':']
                + zero_padded((magnitude(seconds as int) % 3600) / 60, 2)
        },
    }
}

/// The text of a timestamp: date, `T`, time, offset.
pub open spec fn datetime_text(
    year: int,
    month: nat,
    day: nat,
    hour: nat,
    minute: nat,
    second: nat,
    microsecond: nat,
    utc_offset_seconds: Option<i32>,
) -> Seq<char> {
    date_text(year, month, day) + seq!['T'] + time_text(hour, minute, second, microsecond)
        + offset_text(utc_offset_seconds)
}

/// A date of the proleptic Gregorian calendar as hosts commonly bound it: years 1 to
/// 9999, months 1 to 12, days 1 to 31.
pub open spec fn is_calendar_date(year: int, month: nat, day: nat) -> bool {
    1 <= year <= 9999 && 1 <= month <= 12 && 1 <= day <= 31
}

/// A time of day: hours below 24, minutes and seconds below 60, microseconds below a
/// million.
pub open spec fn is_clock_time(hour: nat, minute: nat, second: nat, microsecond: nat) -> bool {
    hour <= 23 && minute <= 59 && second <= 59 && microsecond <= 999_999
}

/// The whole seconds of a duration, as the offset of a timestamp is given: its days,
/// seconds and microseconds taken together, cut to whole seconds toward zero, and kept
/// within the range of `i32`.
pub open spec fn whole_seconds(duration: Duration) -> int {
    let micros = (duration.days * 86_400 + duration.seconds) * 1_000_000 + duration.microseconds;
    let cut = if micros >= 0 {
        micros / 1_000_000
    } else {
        -((-micros) / 1_000_000)
    };
    if cut < i32::MIN {
        i32::MIN as int
    } else if cut > i32::MAX {
        i32::MAX as int
    } else {
        cut
    }
}

/// Where the seconds and the microseconds of a duration are kept from zero up, its whole
/// seconds are its days and seconds taken together, and one more where the duration is
/// below zero and has microseconds. Within the bounds that hosts keep, a duration of
/// less than 24855 days either way is within the range of `i32`.
pub proof fn lemma_whole_seconds(duration: Duration)
    requires
        0 <= duration.seconds <= 86_399,
        0 <= duration.microseconds <= 999_999,
        -24_855 < duration.days < 24_855,
    ensures
        whole_seconds(duration) == duration.days * 86_400 + duration.seconds + (if duration.days
            < 0 && duration.microseconds > 0 {
            1int
        } else {
            0int
        }),
{
    let whole = duration.days * 86_400 + duration.seconds;
    let micros = whole * 1_000_000 + duration.microseconds;
    if micros >= 0 {
        assert(whole >= 0);
        assert(micros / 1_000_000 == whole);
    } else {
        assert(whole < 0);
        if duration.microseconds > 0 {
            assert(-micros == (-whole - 1) * 1_000_000 + (1_000_000 - duration.microseconds));
            assert((-micros) / 1_000_000 == -whole - 1);
        } else {
            assert((-micros) / 1_000_000 == -whole);
        }
    }
}

/// Cuts a duration to whole seconds, toward zero. A duration outside the
/// range of `i32` gives the end of the range on its side.
pub fn duration_seconds(duration: Duration) -> (seconds: i32)
    ensures
        seconds == whole_seconds(duration),
{
    let micros: i128 = (duration.days as i128 * 86_400 + duration.seconds as i128) * 1_000_000
        + duration.microseconds as i128;
    let cut: i128 = if micros >= 0 {
        micros / 1_000_000
    } else {
        -((-micros) / 1_000_000)
    };
    if cut < i32::MIN as i128 {
        i32::MIN
    } else if cut > i32::MAX as i128 {
        i32::MAX
    } else {
        cut as i32
    }
}

fn abs_seconds(seconds: i32) -> (m: u32)
    ensures
        m == magnitude(seconds as int),
{
    if seconds >= 0 {
        seconds as u32
    } else {
        (-(seconds as i64)) as u32
    }
}

fn push_date(out: &mut String, year: i32, month: u8, day: u8)
    ensures
        final(out)@ == old(out)@ + date_text(year as int, month as nat, day as nat),
{
    proof {
        reveal_strlit("-");
    }
    if year >= 0 {
        push_zero_padded(out, year as u32, 4);
    } else {
        out.append("-");
        push_zero_padded(out, abs_seconds(year), 3);
    }
    assert(out@ =~= old(out)@ + year_text(year as int));
    out.append("-");
    push_zero_padded(out, month as u32, 2);
    out.append("-");
    push_zero_padded(out, day as u32, 2);
    assert(out@ =~= old(out)@ + date_text(year as int, month as nat, day as nat));
}

fn push_time(out: &mut String, hour: u8, minute: u8, second: u8, microsecond: u32)
    ensures
        final(out)@ == old(out)@ + time_text(
            hour as nat,
            minute as nat,
            second as nat,
            microsecond as nat,
        ),
{
    proof {
        reveal_strlit(":");
        reveal_strlit(".");
    }
    push_zero_padded(out, hour as u32, 2);
    out.append(":");
    push_zero_padded(out, minute as u32, 2);
    out.append(":");
    push_zero_padded(out, second as u32, 2);
    assert(out@ =~= old(out)@ + clock_text(hour as nat, minute as nat, second as nat));
    if microsecond > 0 {
        out.append(".");
        push_zero_padded(out, microsecond, 6);
    }
    assert(out@ =~= old(out)@ + time_text(
        hour as nat,
        minute as nat,
        second as nat,
        microsecond as nat,
    ));
}

fn push_offset(out: &mut String, utc_offset_seconds: Option<i32>)
    ensures
        final(out)@ == old(out)@ + offset_text(utc_offset_seconds),
{
    proof {
        reveal_strlit("Z");
        reveal_strlit("+");
        reveal_strlit("-");
        reveal_strlit(":");
    }
    match utc_offset_seconds {
        None => {
            assert(out@ =~= old(out)@ + offset_text(utc_offset_seconds));
        },
        Some(seconds) => {
            if seconds == 0 {
                out.append("Z");
                assert(out@ =~= old(out)@ + offset_text(utc_offset_seconds));
            } else {
                let total = abs_seconds(seconds);
                let hours = total / 3600;
                let minutes = (total % 3600) / 60;
                if seconds >= 0 {
                    out.append("+");
                } else {
                    out.append("-");
                }
                push_zero_padded(out, hours, 2);
                out.append(":");
                push_zero_padded(out, minutes, 2);
                assert(out@ =~= old(out)@ + offset_text(utc_offset_seconds));
            }
        },
    }
}

/// Writes a calendar date as `YYYY-MM-DD`.
///
/// The year takes at least four characters and the month and the day at least two,
/// with zeros in front; a field that needs more characters gets them.
pub fn format_date(year: i32, month: u8, day: u8) -> (text: String)
    ensures
        text@ == date_text(year as int, month as nat, day as nat),
{
    let mut text = String::new();
    push_date(&mut text, year, month, day);
    assert(text@ =~= date_text(year as int, month as nat, day as nat));
    text
}

/// Writes a time of day as `HH:MM:SS`, or as `HH:MM:SS.ffffff` where the microsecond
/// is not zero.
pub fn format_time(hour: u8, minute: u8, second: u8, microsecond: u32) -> (text: String)
    ensures
        text@ == time_text(hour as nat, minute as nat, second as nat, microsecond as nat),
{
    let mut text = String::new();
    push_time(&mut text, hour, minute, second, microsecond);
    assert(text@ =~= time_text(hour as nat, minute as nat, second as nat, microsecond as nat));
    text
}

/// Writes a timestamp as `YYYY-MM-DDTHH:MM:SS[.ffffff]` followed by its UTC offset.
///
/// `utc_offset_seconds` is `None` for a value without timezone information, which gets
/// no suffix. An offset of zero is written `Z`. Any other offset is written as its sign
/// and the hours and minutes of its absolute value; seconds below a minute are dropped.
pub fn format_datetime(
    year: i32,
    month: u8,
    day: u8,
    hour: u8,
    minute: u8,
    second: u8,
    microsecond: u32,
    utc_offset_seconds: Option<i32>,
) -> (text: String)
    ensures
        text@ == datetime_text(
            year as int,
            month as nat,
            day as nat,
            hour as nat,
            minute as nat,
            second as nat,
            microsecond as nat,
            utc_offset_seconds,
        ),
{
    proof {
        reveal_strlit("T");
    }
    let mut text = String::new();
    push_date(&mut text, year, month, day);
    text.append("T");
    push_time(&mut text, hour, minute, second, microsecond);
    push_offset(&mut text, utc_offset_seconds);
    assert(text@ =~= datetime_text(
        year as int,
        month as nat,
        day as nat,
        hour as nat,
        minute as nat,
        second as nat,
        microsecond as nat,
        utc_offset_seconds,
    ));
    text
}

/// Whether the characters of `s` from `from` up to `to` are decimal digits that write `n`.
pub open spec fn writes_number(s: Seq<char>, from: int, to: int, n: nat) -> bool {
    &&& 0 <= from <= to <= s.len()
    &&& all_digits(s.subrange(from, to))
    &&& digits_value(s.subrange(from, to)) == n
}

/// The text of a date within the calendar's bounds has ten characters: four digits that
/// write the year, a hyphen, two that write the month, a hyphen, two that write the day.
pub proof fn lemma_date_shape(year: int, month: nat, day: nat)
    requires
        is_calendar_date(year, month, day),
    ensures
        date_text(year, month, day).len() == 10,
        writes_number(date_text(year, month, day), 0, 4, year as nat),
        date_text(year, month, day)[4] == '-',
        writes_number(date_text(year, month, day), 5, 7, month),
        date_text(year, month, day)[7] == '-',
        writes_number(date_text(year, month, day), 8, 10, day),
{
    reveal_with_fuel(pow10, 5);
    lemma_zero_padded(year as nat, 4);
    lemma_zero_padded(month, 2);
    lemma_zero_padded(day, 2);
    let t = date_text(year, month, day);
    assert(t.subrange(0, 4) =~= zero_padded(year as nat, 4));
    assert(t.subrange(5, 7) =~= zero_padded(month, 2));
    assert(t.subrange(8, 10) =~= zero_padded(day, 2));
}

/// The hours, minutes and seconds of a time of day take eight characters: two digits
/// each, with a colon between them.
pub proof fn lemma_clock_shape(hour: nat, minute: nat, second: nat)
    requires
        is_clock_time(hour, minute, second, 0),
    ensures
        clock_text(hour, minute, second).len() == 8,
        writes_number(clock_text(hour, minute, second), 0, 2, hour),
        clock_text(hour, minute, second)[2] == ':',
        writes_number(clock_text(hour, minute, second), 3, 5, minute),
        clock_text(hour, minute, second)[5] == ':',
        writes_number(clock_text(hour, minute, second), 6, 8, second),
{
    reveal_with_fuel(pow10, 3);
    lemma_zero_padded(hour, 2);
    lemma_zero_padded(minute, 2);
    lemma_zero_padded(second, 2);
    let t = clock_text(hour, minute, second);
    assert(t.subrange(0, 2) =~= zero_padded(hour, 2));
    assert(t.subrange(3, 5) =~= zero_padded(minute, 2));
    assert(t.subrange(6, 8) =~= zero_padded(second, 2));
}

/// The fractional part is absent exactly for zero microseconds; otherwise it is a point
/// and exactly six digits that write the microsecond, zeros in front included.
pub proof fn lemma_fraction_shape(microsecond: nat)
    requires
        microsecond <= 999_999,
    ensures
        microsecond == 0 ==> fraction_text(microsecond).len() == 0,
        microsecond > 0 ==> {
            &&& fraction_text(microsecond).len() == 7
            &&& fraction_text(microsecond)[0] == '.'
            &&& writes_number(fraction_text(microsecond), 1, 7, microsecond)
        },
{
    if microsecond > 0 {
        reveal_with_fuel(pow10, 7);
        lemma_zero_padded(microsecond, 6);
        assert(fraction_text(microsecond).subrange(1, 7) =~= zero_padded(microsecond, 6));
    }
}

/// A time of day is written in eight characters where the microsecond is zero, and
/// otherwise in fifteen: the same eight, a point, and six digits that write the
/// microsecond.
pub proof fn lemma_time_shape(hour: nat, minute: nat, second: nat, microsecond: nat)
    requires
        is_clock_time(hour, minute, second, microsecond),
    ensures
        time_text(hour, minute, second, microsecond).subrange(0, 8) == clock_text(
            hour,
            minute,
            second,
        ),
        microsecond == 0 ==> time_text(hour, minute, second, microsecond).len() == 8,
        microsecond > 0 ==> {
            &&& time_text(hour, minute, second, microsecond).len() == 15
            &&& time_text(hour, minute, second, microsecond)[8] == '.'
            &&& writes_number(time_text(hour, minute, second, microsecond), 9, 15, microsecond)
        },
{
    lemma_clock_shape(hour, minute, second);
    lemma_fraction_shape(microsecond);
    let t = time_text(hour, minute, second, microsecond);
    assert(t.subrange(0, 8) =~= clock_text(hour, minute, second));
    if microsecond > 0 {
        assert(t.subrange(9, 15) =~= fraction_text(microsecond).subrange(1, 7));
    }
}

/// A value without timezone information gets no suffix, and an offset of zero gets `Z`.
/// An offset that is not zero and stays below a hundred hours is written in six
/// characters: the sign, two digits that write the whole hours of its absolute value, a
/// colon, and two digits that write the remaining whole minutes.
pub proof fn lemma_offset_shape(utc_offset_seconds: Option<i32>)
    ensures
        utc_offset_seconds is None ==> offset_text(utc_offset_seconds).len() == 0,
        utc_offset_seconds == Some(0i32) ==> offset_text(utc_offset_seconds) == seq!['Z'],
        utc_offset_seconds matches Some(seconds) ==> seconds != 0 && magnitude(seconds as int)
            < 360_000 ==> {
            &&& offset_text(utc_offset_seconds).len() == 6
            &&& offset_text(utc_offset_seconds)[0] == (if seconds > 0 {
                '+'
            } else {
                '-'
            })
            &&& writes_number(
                offset_text(utc_offset_seconds),
                1,
                3,
                magnitude(seconds as int) / 3600,
            )
            &&& offset_text(utc_offset_seconds)[3] == ':'
            &&& writes_number(
                offset_text(utc_offset_seconds),
                4,
                6,
                (magnitude(seconds as int) % 3600) / 60,
            )
        },
{
    if let Some(seconds) = utc_offset_seconds {
        if seconds != 0 && magnitude(seconds as int) < 360_000 {
            let total = magnitude(seconds as int);
            reveal_with_fuel(pow10, 3);
            lemma_zero_padded(total / 3600, 2);
            lemma_zero_padded((total % 3600) / 60, 2);
            let t = offset_text(utc_offset_seconds);
            assert(t.subrange(1, 3) =~= zero_padded(total / 3600, 2));
            assert(t.subrange(4, 6) =~= zero_padded((total % 3600) / 60, 2));
        }
    }
}

/// The text of a timestamp is its text without timezone information followed by the
/// text of its offset.
pub proof fn lemma_offset_is_suffix(
    year: int,
    month: nat,
    day: nat,
    hour: nat,
    minute: nat,
    second: nat,
    microsecond: nat,
    utc_offset_seconds: Option<i32>,
)
    ensures
        datetime_text(year, month, day, hour, minute, second, microsecond, utc_offset_seconds)
            == datetime_text(year, month, day, hour, minute, second, microsecond, None)
            + offset_text(utc_offset_seconds),
        datetime_text(year, month, day, hour, minute, second, microsecond, None) == date_text(
            year,
            month,
            day,
        ) + seq!['T'] + time_text(hour, minute, second, microsecond),
        datetime_text(year, month, day, hour, minute, second, microsecond, Some(0i32))
            == datetime_text(year, month, day, hour, minute, second, microsecond, None)
            + seq!['Z'],
{
    let naive = datetime_text(year, month, day, hour, minute, second, microsecond, None);
    let body = date_text(year, month, day) + seq!['T'] + time_text(
        hour,
        minute,
        second,
        microsecond,
    );
    assert(naive =~= body);
    assert(datetime_text(
        year,
        month,
        day,
        hour,
        minute,
        second,
        microsecond,
        utc_offset_seconds,
    ) =~= naive + offset_text(utc_offset_seconds));
    assert(datetime_text(year, month, day, hour, minute, second, microsecond, Some(0i32))
        =~= naive + seq!['Z']);
}

/// A timestamp within the calendar's and the clock's bounds, without timezone
/// information and with a microsecond of zero, is written in exactly nineteen
/// characters, `YYYY-MM-DDTHH:MM:SS`, each field in digits that write its number.
pub proof fn lemma_whole_second_timestamp_shape(
    year: int,
    month: nat,
    day: nat,
    hour: nat,
    minute: nat,
    second: nat,
)
    requires
        is_calendar_date(year, month, day),
        is_clock_time(hour, minute, second, 0),
    ensures
        ({
            let t = datetime_text(year, month, day, hour, minute, second, 0, None);
            &&& t.len() == 19
            &&& writes_number(t, 0, 4, year as nat)
            &&& t[4] == '-'
            &&& writes_number(t, 5, 7, month)
            &&& t[7] == '-'
            &&& writes_number(t, 8, 10, day)
            &&& t[10] == 'T'
            &&& writes_number(t, 11, 13, hour)
            &&& t[13] == ':'
            &&& writes_number(t, 14, 16, minute)
            &&& t[16] == ':'
            &&& writes_number(t, 17, 19, second)
        }),
{
    lemma_date_shape(year, month, day);
    lemma_time_shape(hour, minute, second, 0);
    lemma_clock_shape(hour, minute, second);
    let t = datetime_text(year, month, day, hour, minute, second, 0, None);
    let d = date_text(year, month, day);
    let c = clock_text(hour, minute, second);
    assert(time_text(hour, minute, second, 0) =~= c);
    assert(t =~= d + seq!['T'] + c);
    assert(t.subrange(0, 4) =~= d.subrange(0, 4));
    assert(t.subrange(5, 7) =~= d.subrange(5, 7));
    assert(t.subrange(8, 10) =~= d.subrange(8, 10));
    assert(t.subrange(11, 13) =~= c.subrange(0, 2));
    assert(t.subrange(14, 16) =~= c.subrange(3, 5));
    assert(t.subrange(17, 19) =~= c.subrange(6, 8));
}

/// A timestamp within the calendar's and the clock's bounds whose microsecond is not
/// zero has, after its nineteen characters down to the second, a point and exactly six
/// digits that write the microsecond, zeros in front included; its offset follows.
pub proof fn lemma_fractional_timestamp_shape(
    year: int,
    month: nat,
    day: nat,
    hour: nat,
    minute: nat,
    second: nat,
    microsecond: nat,
    utc_offset_seconds: Option<i32>,
)
    requires
        is_calendar_date(year, month, day),
        is_clock_time(hour, minute, second, microsecond),
        microsecond > 0,
    ensures
        ({
            let t = datetime_text(
                year,
                month,
                day,
                hour,
                minute,
                second,
                microsecond,
                utc_offset_seconds,
            );
            &&& t.len() == 26 + offset_text(utc_offset_seconds).len()
            &&& t.subrange(0, 19) == datetime_text(year, month, day, hour, minute, second, 0, None)
            &&& t[19] == '.'
            &&& writes_number(t, 20, 26, microsecond)
            &&& t.subrange(26, t.len() as int) == offset_text(utc_offset_seconds)
        }),
{
    lemma_date_shape(year, month, day);
    lemma_time_shape(hour, minute, second, microsecond);
    lemma_clock_shape(hour, minute, second);
    let t = datetime_text(
        year,
        month,
        day,
        hour,
        minute,
        second,
        microsecond,
        utc_offset_seconds,
    );
    let d = date_text(year, month, day);
    let c = clock_text(hour, minute, second);
    let full = time_text(hour, minute, second, microsecond);
    let whole = datetime_text(year, month, day, hour, minute, second, 0, None);
    assert(time_text(hour, minute, second, 0) =~= c);
    assert(whole =~= d + seq!['T'] + c);
    assert(full.subrange(0, 8) == c);
    assert(t.subrange(0, 19) =~= whole) by {
        assert forall|i: int| 0 <= i < 19 implies t[i] == whole[i] by {
            if i >= 11 {
                assert(t[i] == full[i - 11]);
                assert(full.subrange(0, 8)[i - 11] == full[i - 11]);
            }
        }
    }
    assert(t.subrange(20, 26) =~= full.subrange(9, 15));
    assert(t.subrange(26, t.len() as int) =~= offset_text(utc_offset_seconds));
}

/// The text of a date and of a time of day depends on nothing but the fields given:
/// equal fields are written alike.
pub proof fn lemma_text_depends_on_fields_only(
    year: (int, int),
    month: (nat, nat),
    day: (nat, nat),
    hour: (nat, nat),
    minute: (nat, nat),
    second: (nat, nat),
    microsecond: (nat, nat),
)
    ensures
        year.0 == year.1 && month.0 == month.1 && day.0 == day.1 ==> date_text(
            year.0,
            month.0,
            day.0,
        ) == date_text(year.1, month.1, day.1),
        hour.0 == hour.1 && minute.0 == minute.1 && second.0 == second.1 && microsecond.0
            == microsecond.1 ==> time_text(hour.0, minute.0, second.0, microsecond.0)
            == time_text(hour.1, minute.1, second.1, microsecond.1),
{
}

} // verus!
