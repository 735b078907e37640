//! The day the lunch API serves: the date in Helsinki, which keeps summer
//! time (UTC+3) from the last Sunday of March to the last Sunday of
//! October, at 01:00 UTC, and winter time (UTC+2) otherwise.
//!
//! Calendar arithmetic is the `time` crate's; instants are Unix seconds.

use vstd::prelude::*;
use crate::format::{decimal, u32_to_decimal};
use crate::text::chars_to_string;

verus! {

/// The first second the `time` crate represents: the start of -9999-01-01, UTC.
pub const FIRST_SECOND: i64 = -377_705_116_800;
/// The last second the `time` crate represents: the end of 9999-12-31, UTC.
pub const LAST_SECOND: i64 = 253_402_300_799;
/// Earliest instant handled: the first second the `time` crate represents.
pub const EARLIEST_INSTANT: i64 = -377_705_116_800;
/// Latest instant handled: three hours (the largest Helsinki offset) before
/// the last second the `time` crate represents, so that the Helsinki date
/// is still one it represents.
pub const LATEST_INSTANT: i64 = 253_402_289_999;

/// The weekday of a calendar date, counted from Monday (0) to Sunday (6),
/// as `time::Date::weekday` gives it.
pub uninterp spec fn weekday_of(year: int, month: int, day: int) -> int;

/// The Unix time of a calendar date at a whole hour, UTC, as the `time`
/// crate computes it.
pub uninterp spec fn utc_timestamp_of(year: int, month: int, day: int, hour: int) -> int;

/// The calendar date (year, month, day) of a Unix time at a UTC offset of
/// whole hours, as the `time` crate computes it.
pub uninterp spec fn calendar_date_at(secs: int, offset_hours: int) -> (int, int, int);

/// `time::Date::from_calendar_date(..).weekday().number_days_from_monday()`
/// for a day of March or October, both 31 days long: the weekday counted
/// from Monday, which the crate documents as 0 to 6.
#[verifier::external_body]
fn weekday_number(year: i32, month: u8, day: u8) -> (r: u8)
    requires
        -9999 <= year <= 9999,
        month == 3 || month == 10,
        1 <= day <= 31,
    ensures
        r as int == weekday_of(year as int, month as int, day as int),
        r < 7,
{
    let month = time::Month::try_from(month).expect("March or October");
    let date = time::Date::from_calendar_date(year, month, day).expect("a day of March or October");
    date.weekday().number_days_from_monday()
}

/// `time::Date::from_calendar_date(..).with_hms(hour, 0, 0).assume_utc().unix_timestamp()`
/// for a day of March or October: the Unix time of that hour, UTC.
#[verifier::external_body]
fn utc_timestamp(year: i32, month: u8, day: u8, hour: u8) -> (r: i64)
    requires
        -9999 <= year <= 9999,
        month == 3 || month == 10,
        1 <= day <= 31,
        hour < 24,
    ensures
        r as int == utc_timestamp_of(year as int, month as int, day as int, hour as int),
{
    let month = time::Month::try_from(month).expect("March or October");
    let date = time::Date::from_calendar_date(year, month, day).expect("a day of March or October");
    date.with_hms(hour, 0, 0).expect("a whole hour").assume_utc().unix_timestamp()
}

/// `time::OffsetDateTime::from_unix_timestamp(secs)` moved to the offset of
/// `offset_hours` (`to_offset`) and read as a date (`date()`, with the month
/// as its number): a year of the supported range, a month from 1 to 12 and
/// a day from 1 to 31, as the crate documents them. Both the instant and
/// the local time at the offset lie within the seconds the crate represents
/// (`from_unix_timestamp` fails, and `to_offset` panics, beyond).
#[verifier::external_body]
fn offset_date(secs: i64, offset_hours: i8) -> (r: (i32, u8, u8))
    requires
        FIRST_SECOND <= secs <= LAST_SECOND,
        -24 <= offset_hours <= 24,
        FIRST_SECOND <= secs + offset_hours * 3600 <= LAST_SECOND,
    ensures
        (r.0 as int, r.1 as int, r.2 as int) == calendar_date_at(secs as int, offset_hours as int),
        -9999 <= r.0 <= 9999,
        1 <= r.1 <= 12,
        1 <= r.2 <= 31,
{
    let offset = time::UtcOffset::from_hms(offset_hours, 0, 0).expect("a whole-hour offset");
    let date = time::OffsetDateTime::from_unix_timestamp(secs).expect("a supported instant").to_offset(offset).date();
    (date.year(), date.month() as u8, date.day())
}

/// The last Sunday of March or October: counting back from the 31st to the
/// first Sunday (the 1st if none were found).
pub open spec fn sunday_on_or_before(year: int, month: int, day: int) -> int
    decreases day,
{
    if day <= 1 || weekday_of(year, month, day) == 6 {
        day
    } else {
        sunday_on_or_before(year, month, day - 1)
    }
}

/// The day of the month of the last Sunday of March or October. One of
/// any seven days in a row is a Sunday, so the search ends by the 25th.
pub fn last_sunday(year: i32, month: u8) -> (r: u8)
    requires
        -9999 <= year <= 9999,
        month == 3 || month == 10,
    ensures
        r as int == sunday_on_or_before(year as int, month as int, 31),
        1 <= r <= 31,
{
    let mut day: u8 = 31;
    while day > 1 && weekday_number(year, month, day) != 6
        invariant
            1 <= day <= 31,
            -9999 <= year <= 9999,
            month == 3 || month == 10,
            sunday_on_or_before(year as int, month as int, day as int) == sunday_on_or_before(year as int, month as int, 31),
        decreases day,
    {
        day = day - 1;
    }
    day
}

/// The UTC offset, in hours, Helsinki keeps at an instant: 3 from 01:00 UTC
/// on the last Sunday of March until 01:00 UTC on the last Sunday of
/// October of the instant's (UTC) year, else 2.
pub open spec fn helsinki_offset(secs: int) -> int {
    let year = calendar_date_at(secs, 0).0;
    let start = utc_timestamp_of(year, 3, sunday_on_or_before(year, 3, 31), 1);
    let end = utc_timestamp_of(year, 10, sunday_on_or_before(year, 10, 31), 1);
    if start <= secs && secs < end { 3 } else { 2 }
}

/// `n` in decimal with leading zeros up to `width` digits.
pub open spec fn zero_padded(n: nat, width: nat) -> Seq<char> {
    let d = decimal(n);
    if d.len() >= width { d } else { Seq::new((width - d.len()) as nat, |i: int| '0') + d }
}

/// A date as `YYYY-MM-DD` (a negative year keeps its sign in front of
/// three or more digits).
pub open spec fn date_key(year: int, month: int, day: int) -> Seq<char> {
    let y = if year < 0 { seq!['-'] + zero_padded((-year) as nat, 3) } else { zero_padded(year as nat, 4) };
    y + seq!['-'] + zero_padded(month as nat, 2) + seq!['-'] + zero_padded(day as nat, 2)
}

fn zero_pad(n: u32, width: usize) -> (r: Vec<char>)
    requires
        width <= 4,
    ensures
        r@ == zero_padded(n as nat, width as nat),
{
    let digits = u32_to_decimal(n);
    if digits.len() >= width {
        return digits;
    }
    let mut out: Vec<char> = Vec::new();
    let pad = width - digits.len();
    let mut i: usize = 0;
    while i < pad
        invariant
            i <= pad,
            pad == width - digits@.len(),
            out@ == Seq::new(i as nat, |k: int| '0'),
        decreases pad - i,
    {
        out.push('0');
        i += 1;
        assert(out@ =~= Seq::new(i as nat, |k: int| '0'));
    }
    crate::seqs::extend_chars(&mut out, &digits);
    assert(out@ =~= Seq::new(pad as nat, |k: int| '0') + digits@);
    out
}

/// The offset Helsinki keeps at `now`, given when summer time starts and
/// ends that year: 3 hours from `start` until `end`, else 2.
pub fn summer_time_offset(now: i64, start: i64, end: i64) -> (r: i8)
    ensures
        r == (if start <= now && now < end { 3i8 } else { 2i8 }),
{
    if start <= now && now < end { 3 } else { 2 }
}

/// A date as `YYYY-MM-DD`.
pub fn format_date_key(year: i32, month: u8, day: u8) -> (r: String)
    ensures
        r@ == date_key(year as int, month as int, day as int),
{
    let mut out: Vec<char> = Vec::new();
    if year < 0 {
        out.push('-');
        let magnitude: u32 = if year == i32::MIN { 2147483648u32 } else { (0 - year) as u32 };
        crate::seqs::extend_chars(&mut out, &zero_pad(magnitude, 3));
    } else {
        out = zero_pad(year as u32, 4);
    }
    out.push('-');
    crate::seqs::extend_chars(&mut out, &zero_pad(month as u32, 2));
    out.push('-');
    crate::seqs::extend_chars(&mut out, &zero_pad(day as u32, 2));
    proof {
        let yy = if year < 0 { seq!['-'] + zero_padded((-year) as nat, 3) } else { zero_padded(year as nat, 4) };
        assert(out@ =~= yy + seq!['-'] + zero_padded(month as nat, 2) + seq!['-'] + zero_padded(day as nat, 2));
    }
    chars_to_string(&out)
}

/// The Helsinki date of an instant given as Unix seconds, as `YYYY-MM-DD`.
pub fn helsinki_date_key(now: i64) -> (r: String)
    requires
        EARLIEST_INSTANT <= now <= LATEST_INSTANT,
    ensures
        ({
            let (y, m, d) = calendar_date_at(now as int, helsinki_offset(now as int));
            r@ == date_key(y, m, d)
        }),
{
    let (year, _, _) = offset_date(now, 0);
    let start = utc_timestamp(year, 3, last_sunday(year, 3), 1);
    let end = utc_timestamp(year, 10, last_sunday(year, 10), 1);
    let offset_hours = summer_time_offset(now, start, end);
    let (y, m, d) = offset_date(now, offset_hours);
    format_date_key(y, m, d)
}

} // verus!
