//! Calendar dates of due dates: the UTC day of a timestamp, stepping a date by
//! a recurrence period, and the short form shown in the task list.
//!
//! A date is a `(year, month, day)` triple as `jiff::civil::Date` reports it.

use vstd::prelude::*;

use crate::database::models::{DateTime, Recurrence};
use crate::text::string_from_chars;

verus! {

/// The UTC calendar date of a millisecond timestamp, as `jiff` computes it;
/// `None` where the timestamp is outside `jiff`'s range.
pub uninterp spec fn utc_date(millis: i64) -> Option<(i16, i8, i8)>;

/// `date` moved one `period` later by `jiff::civil::Date::checked_add`;
/// `None` where that fails.
pub uninterp spec fn date_after(date: (i16, i8, i8), period: Recurrence) -> Option<(i16, i8, i8)>;

/// Milliseconds since the epoch of midnight UTC on `date`, as the `bson`
/// date-time builder gives them; `None` where it refuses the date.
pub uninterp spec fn utc_midnight(date: (i16, i8, i8)) -> Option<i64>;

/// Calls `jiff::Timestamp::from_millisecond`, then takes the date in UTC
/// (`to_zoned(TimeZone::UTC).date()`). The result is the named UTC date.
#[verifier::external_body]
pub(crate) fn utc_date_of(millis: i64) -> (r: Option<(i16, i8, i8)>)
    ensures
        r == utc_date(millis),
{
    let ts = jiff::Timestamp::from_millisecond(millis).ok()?;
    let d = ts.to_zoned(jiff::tz::TimeZone::UTC).date();
    Some((d.year(), d.month(), d.day()))
}

/// Calls `jiff::Zoned::now().date()`: today in the system time zone. It
/// depends on the clock and the machine, so nothing is promised of it.
#[verifier::external_body]
pub(crate) fn today() -> (r: (i16, i8, i8)) {
    let d = jiff::Zoned::now().date();
    (d.year(), d.month(), d.day())
}

/// Calls `jiff::civil::Date::checked_add` with a span of one day, week,
/// month or year for `period`; the result is the named later date.
#[verifier::external_body]
pub(crate) fn add_period(date: (i16, i8, i8), period: Recurrence) -> (r: Option<(i16, i8, i8)>)
    ensures
        r == date_after(date, period),
{
    let d = jiff::civil::Date::new(date.0, date.1, date.2).ok()?;
    let span = match period {
        Recurrence::Daily => jiff::Span::new().days(1i64),
        Recurrence::Weekly => jiff::Span::new().weeks(1i64),
        Recurrence::Monthly => jiff::Span::new().months(1i64),
        Recurrence::Yearly => jiff::Span::new().years(1i64),
    };
    let n = d.checked_add(span).ok()?;
    Some((n.year(), n.month(), n.day()))
}

/// Calls `bson::DateTime::builder()` with the date's year, month and day and
/// `build()`, and takes the milliseconds; the result is the named midnight.
#[verifier::external_body]
pub(crate) fn midnight_utc(date: (i16, i8, i8)) -> (r: Option<i64>)
    ensures
        r == utc_midnight(date),
{
    let dt = bson::DateTime::builder().year(date.0 as i32).month(date.1 as u8).day(date.2 as u8).build().ok()?;
    Some(dt.timestamp_millis())
}

/// The due timestamp of midnight UTC on `date`, if the builder accepts it.
pub open spec fn midnight_of(date: (i16, i8, i8)) -> Option<DateTime> {
    match utc_midnight(date) {
        Some(m) => Some(DateTime { millis: m }),
        None => None,
    }
}

/// The three-letter English name of month `m` (anything past 11 is December).
pub open spec fn month_abbrev(m: int) -> Seq<char> {
    if m == 1 { "Jan"@ }
    else if m == 2 { "Feb"@ }
    else if m == 3 { "Mar"@ }
    else if m == 4 { "Apr"@ }
    else if m == 5 { "May"@ }
    else if m == 6 { "Jun"@ }
    else if m == 7 { "Jul"@ }
    else if m == 8 { "Aug"@ }
    else if m == 9 { "Sep"@ }
    else if m == 10 { "Oct"@ }
    else if m == 11 { "Nov"@ }
    else { "Dec"@ }
}

/// The decimal digit for `d` in `0..10`.
pub open spec fn digit_char(d: int) -> char {
    if d == 0 { '0' }
    else if d == 1 { '1' }
    else if d == 2 { '2' }
    else if d == 3 { '3' }
    else if d == 4 { '4' }
    else if d == 5 { '5' }
    else if d == 6 { '6' }
    else if d == 7 { '7' }
    else if d == 8 { '8' }
    else { '9' }
}

/// The decimal digits of `n`, without leading zeros.
pub open spec fn digits(n: nat) -> Seq<char>
    decreases n,
{
    if n < 10 {
        seq![digit_char(n as int)]
    } else {
        digits(n / 10).push(digit_char((n % 10) as int))
    }
}

/// `n` written in decimal, with a leading `-` when negative, as `{}` formats it.
pub open spec fn decimal(n: int) -> Seq<char> {
    if n < 0 {
        seq!['-'] + digits((-n) as nat)
    } else {
        digits(n as nat)
    }
}

fn digit(d: u64) -> (c: char)
    requires
        d < 10,
    ensures
        c == digit_char(d as int),
{
    match d {
        0 => '0',
        1 => '1',
        2 => '2',
        3 => '3',
        4 => '4',
        5 => '5',
        6 => '6',
        7 => '7',
        8 => '8',
        _ => '9',
    }
}

/// Append the decimal digits of `n`.
pub(crate) fn push_digits(out: &mut Vec<char>, n: u64)
    ensures
        final(out)@ == old(out)@ + digits(n as nat),
    decreases n,
{
    if n >= 10 {
        push_digits(out, n / 10);
    }
    out.push(digit(n % 10));
    proof {
        if n >= 10 {
            assert(old(out)@ + digits(n as nat) =~= old(out)@ + digits((n / 10) as nat) + seq![digit_char((n % 10) as int)]);
        } else {
            assert(digits(n as nat) == seq![digit_char(n as int)]);
        }
    }
}

/// Append `n` in decimal.
fn push_decimal(out: &mut Vec<char>, n: i32)
    ensures
        final(out)@ == old(out)@ + decimal(n as int),
{
    if n < 0 {
        out.push('-');
        let m: u64 = if n == i32::MIN { 2147483648u64 } else { (-n) as u64 };
        push_digits(out, m);
        assert(old(out)@ + decimal(n as int) =~= old(out)@.push('-') + digits(m as nat));
    } else {
        push_digits(out, n as u64);
    }
}

/// Append the characters of `s`.
pub(crate) fn push_str(out: &mut Vec<char>, s: &str)
    ensures
        final(out)@ == old(out)@ + s@,
{
    let n = s.unicode_len();
    let mut i: usize = 0;
    let ghost start = out@;
    while i < n
        invariant
            n == s@.len(),
            i <= n,
            out@ == start + s@.subrange(0, i as int),
        decreases n - i,
    {
        out.push(s.get_char(i));
        assert(s@.subrange(0, i + 1) =~= s@.subrange(0, i as int).push(s@[i as int]));
        i = i + 1;
    }
    assert(s@.subrange(0, n as int) =~= s@);
}

fn month_name(m: i8) -> (s: &'static str)
    ensures
        s@ == month_abbrev(m as int),
{
    proof {
        reveal_strlit("Jan");
        reveal_strlit("Feb");
        reveal_strlit("Mar");
        reveal_strlit("Apr");
        reveal_strlit("May");
        reveal_strlit("Jun");
        reveal_strlit("Jul");
        reveal_strlit("Aug");
        reveal_strlit("Sep");
        reveal_strlit("Oct");
        reveal_strlit("Nov");
        reveal_strlit("Dec");
    }
    match m {
        1 => "Jan",
        2 => "Feb",
        3 => "Mar",
        4 => "Apr",
        5 => "May",
        6 => "Jun",
        7 => "Jul",
        8 => "Aug",
        9 => "Sep",
        10 => "Oct",
        11 => "Nov",
        _ => "Dec",
    }
}

/// "Mon D" for a date in the year `this_year`, "Mon D, YYYY" otherwise.
pub open spec fn short_date(date: (i16, i8, i8), this_year: i16) -> Seq<char> {
    let head = month_abbrev(date.1 as int) + seq![' '] + decimal(date.2 as int);
    if date.0 == this_year {
        head
    } else {
        head + seq![',', ' '] + decimal(date.0 as int)
    }
}

/// Formats `date` as "Mon D" when its year is `this_year`, else "Mon D, YYYY".
pub fn format_date_short(date: (i16, i8, i8), this_year: i16) -> (s: String)
    ensures
        s@ == short_date(date, this_year),
{
    let mut out: Vec<char> = Vec::new();
    push_str(&mut out, month_name(date.1));
    out.push(' ');
    push_decimal(&mut out, date.2 as i32);
    if date.0 != this_year {
        out.push(',');
        out.push(' ');
        push_decimal(&mut out, date.0 as i32);
    }
    proof {
        if date.0 == this_year {
            assert(out@ =~= short_date(date, this_year));
        } else {
            assert(out@ =~= short_date(date, this_year));
        }
    }
    string_from_chars(out.as_slice())
}

/// Formats a due date as "Mon D" (current year) or "Mon D, YYYY" (other
/// years); empty where the timestamp has no UTC date. The current year is
/// read from the clock, so the contract holds for some year.
pub fn format_due_short(dt: &DateTime) -> (s: String)
    ensures
        utc_date(dt.millis) is None ==> s@.len() == 0,
        utc_date(dt.millis) matches Some(d) ==> exists|y: i16| s@ == short_date(d, y),
{
    match utc_date_of(dt.millis) {
        None => String::new(),
        Some(date) => {
            let now = today();
            format_date_short(date, now.0)
        },
    }
}

/// The milliseconds `jiff::Timestamp::from_millisecond` accepts: from
/// `Timestamp::MIN` to `Timestamp::MAX`, the Unix seconds
/// `-377705116800 + 93599` to `253402300799 - 93599` (the calendar range
/// narrowed by the largest time zone offset, 25:59:59) times 1000.
pub open spec fn jiff_millis_ok(millis: i64) -> bool {
    -377_705_023_201_000 <= millis <= 253_402_207_200_000
}

/// `jiff::Timestamp::from_millisecond` then `to_zoned(TimeZone::system())`:
/// the month, day, hour and minute of the machine's wall clock at `millis`.
/// jiff documents that `from_millisecond` fails only outside `Timestamp::MIN`
/// to `Timestamp::MAX`, and `to_zoned` cannot fail, so the result is present
/// exactly for those timestamps. Only the ranges jiff documents for the
/// fields are claimed; the values depend on the machine's time zone, so they
/// are not named.
#[verifier::external_body]
pub(crate) fn local_clock(millis: i64) -> (r: Option<(i8, i8, i8, i8)>)
    ensures
        (r is Some) == jiff_millis_ok(millis),
        r matches Some(c) ==> clock_fields_ok(c),
{
    let ts = jiff::Timestamp::from_millisecond(millis).ok()?;
    let z = ts.to_zoned(jiff::tz::TimeZone::system());
    Some((z.month(), z.day(), z.hour(), z.minute()))
}

/// Month `1..=12`, day `1..=31`, hour `0..=23`, minute `0..=59`.
pub open spec fn clock_fields_ok(c: (i8, i8, i8, i8)) -> bool {
    let (month, day, hour, minute) = c;
    &&& 1 <= month <= 12
    &&& 1 <= day <= 31
    &&& 0 <= hour <= 23
    &&& 0 <= minute <= 59
}

/// `n` in `0..100` as two digits.
pub open spec fn two_digits(n: int) -> Seq<char> {
    seq![digit_char(n / 10), digit_char(n % 10)]
}

/// "Mon D, HH:MM" for a note written on day `day` of month `month` at
/// `hour:minute`.
pub open spec fn note_time(c: (i8, i8, i8, i8)) -> Seq<char> {
    let (month, day, hour, minute) = c;
    month_abbrev(month as int) + seq![' '] + decimal(day as int) + seq![',', ' '] + two_digits(hour as int)
        + seq![':'] + two_digits(minute as int)
}

/// Append `n` in `0..100` as two digits.
fn push_two_digits(out: &mut Vec<char>, n: i8)
    requires
        0 <= n < 100,
    ensures
        final(out)@ == old(out)@ + two_digits(n as int),
{
    let m = n as u64;
    out.push(digit(m / 10));
    out.push(digit(m % 10));
}

/// Formats the wall-clock fields of a note as "Mon D, HH:MM".
pub fn format_note_time(c: (i8, i8, i8, i8)) -> (s: String)
    requires
        clock_fields_ok(c),
    ensures
        s@ == note_time(c),
{
    let (month, day, hour, minute) = c;
    let mut out: Vec<char> = Vec::new();
    push_str(&mut out, month_name(month));
    out.push(' ');
    push_decimal(&mut out, day as i32);
    out.push(',');
    out.push(' ');
    push_two_digits(&mut out, hour);
    out.push(':');
    push_two_digits(&mut out, minute);
    assert(out@ =~= note_time(c));
    string_from_chars(out.as_slice())
}

/// When a note was written, as "Mon D, HH:MM" on the machine's clock; empty
/// for a timestamp outside the range jiff can show. The time zone is the
/// machine's, so the contract holds for whatever wall-clock fields it gives.
pub fn format_annotation_ts(dt: &DateTime) -> (s: String)
    ensures
        jiff_millis_ok(dt.millis) ==> exists|c: (i8, i8, i8, i8)| clock_fields_ok(c) && s@ == note_time(c),
        !jiff_millis_ok(dt.millis) ==> s@.len() == 0,
{
    match local_clock(dt.millis) {
        None => String::new(),
        Some(c) => format_note_time(c),
    }
}

/// How a due date relates to today, which picks its colour in the list.
#[derive(Clone, Copy, Debug, PartialEq, Eq, Structural)]
pub enum DueTone {
    Overdue,
    Today,
    Upcoming,
}

/// Dates in calendar order.
pub open spec fn date_lt(a: (i16, i8, i8), b: (i16, i8, i8)) -> bool {
    a.0 < b.0 || (a.0 == b.0 && (a.1 < b.1 || (a.1 == b.1 && a.2 < b.2)))
}

/// The tone of a due date that falls on `date` when it is `today`.
pub open spec fn tone_of(date: (i16, i8, i8), today: (i16, i8, i8)) -> DueTone {
    if date_lt(date, today) {
        DueTone::Overdue
    } else if date == today {
        DueTone::Today
    } else {
        DueTone::Upcoming
    }
}

/// Overdue before `today`, today on it, upcoming after it.
pub fn date_tone(date: (i16, i8, i8), today: (i16, i8, i8)) -> (t: DueTone)
    ensures
        t == tone_of(date, today),
{
    if date.0 < today.0 || (date.0 == today.0 && (date.1 < today.1 || (date.1 == today.1 && date.2 < today.2))) {
        DueTone::Overdue
    } else if date.0 == today.0 && date.1 == today.1 && date.2 == today.2 {
        DueTone::Today
    } else {
        DueTone::Upcoming
    }
}

/// The tone of a due date against today's date (read from the clock);
/// a timestamp with no UTC date reads as upcoming.
pub fn due_date_tone(dt: &DateTime) -> (t: DueTone)
    ensures
        utc_date(dt.millis) is None ==> t == DueTone::Upcoming,
        utc_date(dt.millis) matches Some(d) ==> exists|now: (i16, i8, i8)| t == tone_of(d, now),
{
    match utc_date_of(dt.millis) {
        None => DueTone::Upcoming,
        Some(date) => {
            let now = today();
            date_tone(date, now)
        },
    }
}

} // verus!
