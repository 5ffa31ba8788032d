//! Dates, times and offsets as the dashboard prints them.
use vstd::prelude::*;
use crate::text::{decimal, push_decimal, push_str, push_char};

verus! {

/// The three-letter English name of `month`; anything past November reads
/// as December.
pub open spec fn month_abbreviation(month: u8) -> Seq<char> {
    if month == 1 {
        "Jan"@
    } else if month == 2 {
        "Feb"@
    } else if month == 3 {
        "Mar"@
    } else if month == 4 {
        "Apr"@
    } else if month == 5 {
        "May"@
    } else if month == 6 {
        "Jun"@
    } else if month == 7 {
        "Jul"@
    } else if month == 8 {
        "Aug"@
    } else if month == 9 {
        "Sep"@
    } else if month == 10 {
        "Oct"@
    } else if month == 11 {
        "Nov"@
    } else {
        "Dec"@
    }
}

/// `n` in decimal, padded with a leading zero to at least two digits.
pub open spec fn two_digits(n: nat) -> Seq<char> {
    if n < 10 {
        seq!['0'] + decimal(n)
    } else {
        decimal(n)
    }
}

/// `n` in decimal with a leading minus sign when negative.
pub open spec fn signed_decimal(n: int) -> Seq<char> {
    if n < 0 {
        seq!['-'] + decimal((-n) as nat)
    } else {
        decimal(n as nat)
    }
}

/// A UTC offset of `seconds`: `UTC` when zero, else a sign and `hh:mm`.
pub open spec fn offset_label(seconds: int) -> Seq<char> {
    if seconds == 0 {
        "UTC"@
    } else {
        let absolute: nat = if seconds < 0 {
            (-seconds) as nat
        } else {
            seconds as nat
        };
        seq![if seconds < 0 { '-' } else { '+' }] + two_digits(absolute / 3600) + ":"@ + two_digits(
            (absolute % 3600) / 60,
        )
    }
}

/// A calendar date: `Mon dd, yyyy`.
pub open spec fn date_label(year: int, month: u8, day: u8) -> Seq<char> {
    month_abbreviation(month) + " "@ + two_digits(day as nat) + ", "@ + signed_decimal(year)
}

/// A local date and time with its offset: `Mon dd, yyyy · hh:mm offset`.
pub open spec fn timestamp_label(fields: (i32, u8, u8, u8, u8), offset_seconds: i32) -> Seq<char> {
    date_label(fields.0 as int, fields.1, fields.2) + " · "@ + two_digits(fields.3 as nat) + ":"@
        + two_digits(fields.4 as nat) + " "@ + offset_label(offset_seconds as int)
}

/// First second of the years the `time` crate supports, -9999-01-01T00:00:00Z.
pub const MIN_UNIX_SECONDS: i64 = -377705116800;
/// Last second of the years the `time` crate supports, 9999-12-31T23:59:59Z.
pub const MAX_UNIX_SECONDS: i64 = 253402300799;
/// Largest UTC offset magnitude, 25:59:59, in seconds.
pub const MAX_OFFSET_SECONDS: i32 = 93599;

/// Whether the `time` crate can place the instant `unix_seconds` at the UTC
/// offset `offset_seconds`: the instant, the offset and the local date-time
/// all lie in its supported ranges.
pub open spec fn representable(unix_seconds: i64, offset_seconds: i32) -> bool {
    &&& MIN_UNIX_SECONDS <= unix_seconds <= MAX_UNIX_SECONDS
    &&& -MAX_OFFSET_SECONDS <= offset_seconds <= MAX_OFFSET_SECONDS
    &&& MIN_UNIX_SECONDS <= unix_seconds + offset_seconds <= MAX_UNIX_SECONDS
}

/// The proleptic Gregorian date `(year, month, day)` of the day numbered
/// `days` from 1970-01-01.  Days are counted in eras of 400 years (146097
/// days) whose years start in March, so that the leap day ends a year.
pub open spec fn civil_from_days(days: int) -> (int, int, int) {
    let z = days + 719468;
    let era = z / 146097;
    let day_of_era = z - era * 146097;
    let year_of_era = (day_of_era - day_of_era / 1460 + day_of_era / 36524 - day_of_era / 146096)
        / 365;
    let day_of_year = day_of_era - (365 * year_of_era + year_of_era / 4 - year_of_era / 100);
    let shifted_month = (5 * day_of_year + 2) / 153;
    let day = day_of_year - (153 * shifted_month + 2) / 5 + 1;
    let month = if shifted_month < 10 {
        shifted_month + 3
    } else {
        shifted_month - 9
    };
    let year = year_of_era + era * 400 + if month <= 2 {
        1int
    } else {
        0int
    };
    (year, month, day)
}

/// The local year, month, day, hour and minute of the instant `unix_seconds`
/// at a UTC offset of `offset_seconds`, or `None` where the `time` crate has no
/// such date-time.  Unix time has no leap seconds, so the local second counts
/// whole days of 86400 seconds.
pub open spec fn local_calendar_fields(unix_seconds: i64, offset_seconds: i32) -> Option<
    (i32, u8, u8, u8, u8),
> {
    if representable(unix_seconds, offset_seconds) {
        let local = unix_seconds + offset_seconds;
        let date = civil_from_days(local / 86400);
        Some(
            (
                date.0 as i32,
                date.1 as u8,
                date.2 as u8,
                ((local % 86400) / 3600) as u8,
                ((local % 3600) / 60) as u8,
            ),
        )
    } else {
        None
    }
}

/// Converts with the `time` crate: `OffsetDateTime::from_unix_timestamp`,
/// `UtcOffset::from_whole_seconds` and `OffsetDateTime::checked_to_offset`,
/// then reads `year`, `month`, `day`, `hour` and `minute`.  The contract
/// claims that there is a result exactly when the crate's ranges admit the
/// instant, the offset and the local date-time, and that it is the proleptic
/// Gregorian date of the local day with the hour and minute of the local
/// second of that day.
#[verifier::external_body]
fn local_calendar(unix_seconds: i64, offset_seconds: i32) -> (fields: Option<(i32, u8, u8, u8, u8)>)
    ensures
        fields == local_calendar_fields(unix_seconds, offset_seconds),
{
    let instant = time::OffsetDateTime::from_unix_timestamp(unix_seconds).ok()?;
    let offset = time::UtcOffset::from_whole_seconds(offset_seconds).ok()?;
    let local = instant.checked_to_offset(offset)?;
    Some((local.year(), u8::from(local.month()), local.day(), local.hour(), local.minute()))
}

/// The three-letter name of a month.
pub fn month_name(month: u8) -> (name: &'static str)
    ensures
        name@ == month_abbreviation(month),
{
    match month {
        1 => "Jan",
        2 => "Feb",
        3 => "Mar",
        4 => "Apr",
        5 => "May",
        6 => "Jun",
        7 => "Jul",
        8 => "Aug",
        9 => "Sep",
        10 => "Oct",
        11 => "Nov",
        _ => "Dec",
    }
}

/// Appends `n` padded to two digits.
fn push_two_digits(out: &mut String, n: u64)
    ensures
        final(out)@ == old(out)@ + two_digits(n as nat),
{
    if n < 10 {
        push_char(out, '0');
        let ghost mid = out@;
        push_decimal(out, n);
        assert(out@ =~= old(out)@ + two_digits(n as nat));
    } else {
        push_decimal(out, n);
    }
}

/// Appends `n` in decimal, with a minus sign when negative.
fn push_signed_decimal(out: &mut String, n: i32)
    ensures
        final(out)@ == old(out)@ + signed_decimal(n as int),
{
    if n < 0 {
        push_char(out, '-');
        let magnitude: u64 = (0i64 - (n as i64)) as u64;
        push_decimal(out, magnitude);
        assert(out@ =~= old(out)@ + signed_decimal(n as int));
    } else {
        push_decimal(out, n as u64);
    }
}

/// The label of a UTC offset given in whole seconds.
pub fn format_offset(seconds: i32) -> (label: String)
    ensures
        label@ == offset_label(seconds as int),
{
    let mut out = String::new();
    if seconds == 0 {
        push_str(&mut out, "UTC");
        return out;
    }
    let absolute: u64 = if seconds < 0 {
        (0i64 - (seconds as i64)) as u64
    } else {
        seconds as u64
    };
    push_char(&mut out, if seconds < 0 { '-' } else { '+' });
    push_two_digits(&mut out, absolute / 3600);
    push_str(&mut out, ":");
    push_two_digits(&mut out, (absolute % 3600) / 60);
    assert(out@ =~= offset_label(seconds as int));
    out
}

/// A calendar date as `Mon dd, yyyy`.
pub fn format_date(year: i32, month: u8, day: u8) -> (label: String)
    ensures
        label@ == date_label(year as int, month, day),
{
    let mut out = String::new();
    push_str(&mut out, month_name(month));
    push_str(&mut out, " ");
    push_two_digits(&mut out, day as u64);
    push_str(&mut out, ", ");
    push_signed_decimal(&mut out, year);
    assert(out@ =~= date_label(year as int, month, day));
    out
}

/// A local date-time, already in the offset `offset_seconds`, as
/// `Mon dd, yyyy · hh:mm offset`.
pub fn format_local_fields(fields: (i32, u8, u8, u8, u8), offset_seconds: i32) -> (label: String)
    ensures
        label@ == timestamp_label(fields, offset_seconds),
{
    let mut out = format_date(fields.0, fields.1, fields.2);
    push_str(&mut out, " · ");
    push_two_digits(&mut out, fields.3 as u64);
    push_str(&mut out, ":");
    push_two_digits(&mut out, fields.4 as u64);
    push_str(&mut out, " ");
    let offset = format_offset(offset_seconds);
    push_str(&mut out, offset.as_str());
    assert(out@ =~= timestamp_label(fields, offset_seconds));
    out
}

/// The instant `unix_seconds` as it reads at the UTC offset `offset_seconds`,
/// or `None` where the `time` crate cannot place it at that offset.
pub fn format_timestamp_with_offset(unix_seconds: i64, offset_seconds: i32) -> (label: Option<
    String,
>)
    ensures
        label is Some <==> representable(unix_seconds, offset_seconds),
        match local_calendar_fields(unix_seconds, offset_seconds) {
            Some(fields) => label matches Some(s) && s@ == timestamp_label(fields, offset_seconds),
            None => label is None,
        },
{
    match local_calendar(unix_seconds, offset_seconds) {
        Some(fields) => Some(format_local_fields(fields, offset_seconds)),
        None => None,
    }
}

} // verus!
