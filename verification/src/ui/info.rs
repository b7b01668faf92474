//! The Info pane: reading typed dates, the date fields, the tag chips, the
//! editor's keys and the notes of a task.

use vstd::prelude::*;

use crate::database::database::{Db, DbError, annotation_views};
use crate::database::models::{
    Annotation, AnnotationView, DateTime, ObjectId, ProjectEntry, Recurrence, Task, TaskView, entry_id, str_views,
};
use crate::database::state::{DbView, annotation_index, notes_listing, with_annotations};
use crate::text::{chars_of, lowercase, string_from_chars, to_lower, trim, trim_chars, trim_str};
use crate::ui::app::{AppState, Mode, WindowState};
use crate::ui::dates::{
    add_period, date_after, midnight_of, midnight_utc, push_str, today, utc_midnight,
};
use crate::ui::task_ops::{created_as, edit_room, edit_saved, task_submit_create, task_submit_edit};
use crate::ui::tasks::{TaskManager, TaskWriter, joined_tags, kept_pieces, split_commas};

verus! {

// ---- reading a typed date ----

/// The ISO weekday (Monday 1 … Sunday 7) of a date, as `jiff` computes it;
/// `None` where `jiff` does not accept the date.
pub uninterp spec fn weekday_of(date: (i16, i8, i8)) -> Option<i8>;

/// A leap year of the proleptic Gregorian calendar.
pub open spec fn is_leap_year(y: int) -> bool {
    y % 4 == 0 && (y % 100 != 0 || y % 400 == 0)
}

/// The number of days in month `m` of year `y`.
pub open spec fn days_in_month(y: int, m: int) -> int {
    if m == 2 {
        if is_leap_year(y) { 29 } else { 28 }
    } else if m == 4 || m == 6 || m == 9 || m == 11 {
        30
    } else {
        31
    }
}

/// Whether `jiff::civil::Date::new` accepts this year, month and day: the
/// year in `-9999..=9999`, the month in `1..=12`, and the day between 1 and
/// the length of that month.
pub open spec fn is_civil_date(y: i16, m: i8, d: i8) -> bool {
    &&& -9999 <= y <= 9999
    &&& 1 <= m <= 12
    &&& 1 <= d <= days_in_month(y as int, m as int)
}

/// Calls `jiff::civil::Date::new` and then `weekday().to_monday_one_offset()`;
/// the result is the named weekday.
#[verifier::external_body]
fn weekday(date: (i16, i8, i8)) -> (r: Option<i8>)
    ensures
        r == weekday_of(date),
{
    let d = jiff::civil::Date::new(date.0, date.1, date.2).ok()?;
    Some(d.weekday().to_monday_one_offset())
}

/// Calls `jiff::civil::Date::new`: whether it accepts the date. An accepted
/// date keeps the year, month and day it was made from.
#[verifier::external_body]
fn civil_date(y: i16, m: i8, d: i8) -> (r: Option<(i16, i8, i8)>)
    ensures
        r == if is_civil_date(y, m, d) { Some((y, m, d)) } else { None::<(i16, i8, i8)> },
{
    let date = jiff::civil::Date::new(y, m, d).ok()?;
    Some((date.year(), date.month(), date.day()))
}

/// The weekday a word names (Monday 1 … Sunday 7), short or long.
pub open spec fn weekday_named(t: Seq<char>) -> Option<i8> {
    if t == "mon"@ || t == "monday"@ { Some(1) }
    else if t == "tue"@ || t == "tuesday"@ { Some(2) }
    else if t == "wed"@ || t == "wednesday"@ { Some(3) }
    else if t == "thu"@ || t == "thursday"@ { Some(4) }
    else if t == "fri"@ || t == "friday"@ { Some(5) }
    else if t == "sat"@ || t == "saturday"@ { Some(6) }
    else if t == "sun"@ || t == "sunday"@ { Some(7) }
    else { None }
}

/// The first of the next `k` days from `d` (stepping a day at a time) that
/// falls on weekday `wd`.
pub open spec fn find_weekday(d: Option<(i16, i8, i8)>, wd: i8, k: nat) -> Option<(i16, i8, i8)>
    decreases k,
{
    if k == 0 {
        None
    } else {
        match d {
            None => None,
            Some(x) => if weekday_of(x) == Some(wd) { Some(x) } else { find_weekday(date_after(x, Recurrence::Daily), wd, (k - 1) as nat) },
        }
    }
}

/// The value of an optionally signed run of decimal digits, as `str::parse`
/// reads integers; `None` for anything else.
pub open spec fn int_value(s: Seq<char>) -> Option<int> {
    if s.len() > 0 && (s[0] == '+' || s[0] == '-') {
        match digits_value(s.drop_first()) {
            Some(v) => Some(if s[0] == '-' { -v } else { v }),
            None => None,
        }
    } else {
        digits_value(s)
    }
}

/// The value of a non-empty run of decimal digits.
pub open spec fn digits_value(s: Seq<char>) -> Option<int>
    decreases s.len(),
{
    if s.len() == 0 {
        None
    } else if !('0' <= s.last() <= '9') {
        None
    } else if s.len() == 1 {
        Some(s.last() as int - '0' as int)
    } else {
        match digits_value(s.drop_last()) {
            Some(v) => Some(v * 10 + (s.last() as int - '0' as int)),
            None => None,
        }
    }
}

/// The first `-` of `t`, if any.
pub open spec fn first_dash(t: Seq<char>) -> Option<int>
    decreases t.len(),
{
    if t.len() == 0 {
        None
    } else {
        match first_dash(t.drop_last()) {
            Some(i) => Some(i),
            None => if t.last() == '-' { Some(t.len() - 1) } else { None },
        }
    }
}

/// A `YYYY-MM-DD` date: three parts split at the first two dashes, each a
/// number that fits (year in `i16`, month and day in `i8`), forming a date
/// `jiff` accepts.
pub open spec fn ymd_date(t: Seq<char>) -> Option<(i16, i8, i8)> {
    match first_dash(t) {
        None => None,
        Some(i) => {
            let rest = t.subrange(i + 1, t.len() as int);
            match first_dash(rest) {
                None => None,
                Some(j) => {
                    let a = int_value(t.subrange(0, i));
                    let b = int_value(rest.subrange(0, j));
                    let c = int_value(rest.subrange(j + 1, rest.len() as int));
                    if a is Some && b is Some && c is Some
                        && i16::MIN <= a->0 <= i16::MAX && i8::MIN <= b->0 <= i8::MAX && i8::MIN <= c->0 <= i8::MAX
                        && is_civil_date(a->0 as i16, b->0 as i8, c->0 as i8) {
                        Some((a->0 as i16, b->0 as i8, c->0 as i8))
                    } else {
                        None
                    }
                },
            }
        },
    }
}

/// The date typed in a date field when it is `today`: "today" / "tod",
/// "tomorrow" / "tmr" / "tom", a weekday name (its next occurrence after
/// today, within a week), or `YYYY-MM-DD`; case and surrounding blanks do
/// not matter.
pub open spec fn due_text_date(text: Seq<char>, today: (i16, i8, i8)) -> Option<(i16, i8, i8)> {
    let t = lowercase(trim(text));
    if t.len() == 0 {
        None
    } else if t == "today"@ || t == "tod"@ {
        Some(today)
    } else if t == "tomorrow"@ || t == "tmr"@ || t == "tom"@ {
        date_after(today, Recurrence::Daily)
    } else {
        match weekday_named(t) {
            Some(wd) => find_weekday(date_after(today, Recurrence::Daily), wd, 7),
            None => ymd_date(t),
        }
    }
}

fn same_text(a: &Vec<char>, b: &str) -> (r: bool)
    ensures
        r == (a@ == b@),
{
    let n = b.unicode_len();
    if a.len() != n {
        return false;
    }
    let mut i: usize = 0;
    while i < n
        invariant
            n == b@.len() == a@.len(),
            i <= n,
            forall|k: int| 0 <= k < i ==> a@[k] == b@[k],
        decreases n - i,
    {
        if a[i] != b.get_char(i) {
            return false;
        }
        i = i + 1;
    }
    assert(a@ =~= b@);
    true
}

fn weekday_word(t: &Vec<char>) -> (r: Option<i8>)
    ensures
        r == weekday_named(t@),
{
    if same_text(t, "mon") || same_text(t, "monday") {
        Some(1)
    } else if same_text(t, "tue") || same_text(t, "tuesday") {
        Some(2)
    } else if same_text(t, "wed") || same_text(t, "wednesday") {
        Some(3)
    } else if same_text(t, "thu") || same_text(t, "thursday") {
        Some(4)
    } else if same_text(t, "fri") || same_text(t, "friday") {
        Some(5)
    } else if same_text(t, "sat") || same_text(t, "saturday") {
        Some(6)
    } else if same_text(t, "sun") || same_text(t, "sunday") {
        Some(7)
    } else {
        None
    }
}

/// Past this, a number is too large for any field it is read into.
const DIGITS_CAP: i64 = 100_000;

proof fn lemma_digits_nonneg(s: Seq<char>)
    ensures
        digits_value(s) matches Some(v) ==> v >= 0,
    decreases s.len(),
{
    if s.len() > 1 {
        lemma_digits_nonneg(s.drop_last());
    }
}

/// A run of digits has every non-empty prefix a run of digits, of no greater value.
proof fn lemma_digits_prefix(s: Seq<char>, from: int, k: int, to: int)
    requires
        0 <= from < k <= to <= s.len(),
        digits_value(s.subrange(from, to)) is Some,
    ensures
        digits_value(s.subrange(from, k)) is Some,
        digits_value(s.subrange(from, k))->0 <= digits_value(s.subrange(from, to))->0,
    decreases to - k,
{
    if to > k {
        let t = s.subrange(from, to);
        assert(t.drop_last() =~= s.subrange(from, to - 1));
        assert(t.len() > 1);
        lemma_digits_nonneg(s.subrange(from, to - 1));
        lemma_digits_prefix(s, from, k, to - 1);
    }
}

/// The value of the digits `s[from..to]`, when they are all digits and the
/// value is at most `DIGITS_CAP`.
fn read_digits(s: &Vec<char>, from: usize, to: usize) -> (r: Option<i64>)
    requires
        from <= to <= s@.len(),
    ensures
        match r {
            Some(v) => digits_value(s@.subrange(from as int, to as int)) == Some(v as int) && 0 <= v <= DIGITS_CAP,
            None => digits_value(s@.subrange(from as int, to as int)) is None
                || digits_value(s@.subrange(from as int, to as int))->0 > DIGITS_CAP,
        },
{
    if from == to {
        assert(s@.subrange(from as int, to as int).len() == 0);
        return None;
    }
    let mut v: i64 = 0;
    let mut k: usize = from;
    while k < to
        invariant
            from <= k <= to <= s@.len(),
            from < to,
            k == from ==> v == 0,
            k > from ==> digits_value(s@.subrange(from as int, k as int)) == Some(v as int),
            0 <= v <= DIGITS_CAP,
        decreases to - k,
    {
        let c = s[k];
        let ghost pre = s@.subrange(from as int, k as int);
        let ghost next = s@.subrange(from as int, k + 1);
        assert(next.drop_last() =~= pre);
        assert(next.last() == c);
        if !('0' <= c && c <= '9') {
            proof {
                if digits_value(s@.subrange(from as int, to as int)) is Some {
                    lemma_digits_prefix(s@, from as int, k + 1, to as int);
                }
            }
            return None;
        }
        let d = (c as u32 - '0' as u32) as i64;
        assert(d == c as int - '0' as int);
        let ghost v0 = v;
        v = v * 10 + d;
        proof {
            if k == from {
                assert(next.len() == 1);
                assert(digits_value(next) == Some(d as int));
            } else {
                assert(next.len() > 1);
                assert(digits_value(next.drop_last()) == Some(v0 as int));
                assert(digits_value(next) == Some(v0 * 10 + d));
            }
            assert(digits_value(next) == Some(v as int));
        }
        if v > DIGITS_CAP {
            proof {
                if digits_value(s@.subrange(from as int, to as int)) is Some {
                    lemma_digits_prefix(s@, from as int, k + 1, to as int);
                }
            }
            return None;
        }
        assert(digits_value(s@.subrange(from as int, k + 1)) == Some(v as int));
        k = k + 1;
    }
    Some(v)
}

/// The number written in `s[from..to]` (optionally signed), when it lies
/// in `lo..=hi` (a range within ±`DIGITS_CAP`).
fn read_int(s: &Vec<char>, from: usize, to: usize, lo: i64, hi: i64) -> (r: Option<i64>)
    requires
        from <= to <= s@.len(),
        -DIGITS_CAP <= lo <= hi <= DIGITS_CAP,
    ensures
        ({
            let v = int_value(s@.subrange(from as int, to as int));
            match r {
                Some(x) => v == Some(x as int) && lo <= x <= hi,
                None => v is None || v->0 < lo || v->0 > hi,
            }
        }),
{
    let ghost t = s@.subrange(from as int, to as int);
    if from < to && (s[from] == '+' || s[from] == '-') {
        let neg = s[from] == '-';
        assert(t.drop_first() =~= s@.subrange(from + 1, to as int));
        match read_digits(s, from + 1, to) {
            None => None,
            Some(v) => {
                let x = if neg { -v } else { v };
                if lo <= x && x <= hi { Some(x) } else { None }
            },
        }
    } else {
        match read_digits(s, from, to) {
            None => None,
            Some(v) => if lo <= v && v <= hi { Some(v) } else { None },
        }
    }
}

proof fn lemma_first_dash_props(t: Seq<char>)
    ensures
        first_dash(t) matches Some(i) ==> 0 <= i < t.len() && t[i] == '-',
    decreases t.len(),
{
    if t.len() > 0 {
        lemma_first_dash_props(t.drop_last());
    }
}

fn find_dash(s: &Vec<char>, from: usize) -> (r: Option<usize>)
    requires
        from <= s@.len(),
    ensures
        match first_dash(s@.subrange(from as int, s@.len() as int)) {
            Some(i) => r == Some((from + i) as usize),
            None => r is None,
        },
{
    let ghost t = s@.subrange(from as int, s@.len() as int);
    let mut k: usize = from;
    while k < s.len()
        invariant
            from <= k <= s@.len(),
            t == s@.subrange(from as int, s@.len() as int),
            first_dash(t.subrange(0, k - from)) is None,
        decreases s@.len() - k,
    {
        assert(t.subrange(0, k + 1 - from).drop_last() =~= t.subrange(0, k - from));
        assert(t.subrange(0, k + 1 - from).last() == s@[k as int]);
        if s[k] == '-' {
            proof {
                lemma_first_dash_prefix(t, k + 1 - from);
            }
            return Some(k);
        }
        k = k + 1;
    }
    assert(t.subrange(0, s@.len() - from) =~= t);
    None
}

proof fn lemma_first_dash_prefix(t: Seq<char>, n: int)
    requires
        0 < n <= t.len(),
        first_dash(t.subrange(0, n)) is Some,
    ensures
        first_dash(t) == first_dash(t.subrange(0, n)),
    decreases t.len() - n,
{
    if t.len() > n {
        assert(t.drop_last().subrange(0, n) =~= t.subrange(0, n));
        lemma_first_dash_prefix(t.drop_last(), n);
    } else {
        assert(t.subrange(0, n) =~= t);
    }
}

fn ymd(t: &Vec<char>) -> (r: Option<(i16, i8, i8)>)
    ensures
        r == ymd_date(t@),
{
    let s = t;
    let n = s.len();
    let i = match find_dash(s, 0) {
        None => {
            assert(s@.subrange(0, n as int) =~= s@);
            return None;
        },
        Some(i) => i,
    };
    assert(s@.subrange(0, n as int) =~= s@);
    proof {
        lemma_first_dash_props(s@);
    }
    let ghost rest = s@.subrange(i + 1, n as int);
    let j = match find_dash(s, i + 1) {
        None => return None,
        Some(j) => j,
    };
    proof {
        lemma_first_dash_props(rest);
    }
    let ghost jr = j - (i + 1);
    assert(rest.subrange(0, jr) =~= s@.subrange(i + 1, j as int));
    assert(rest.subrange(jr + 1, rest.len() as int) =~= s@.subrange(j + 1, n as int));
    let a = read_int(s, 0, i, -32768, 32767);
    let b = read_int(s, i + 1, j, -128, 127);
    let c = read_int(s, j + 1, n, -128, 127);
    match (a, b, c) {
        (Some(y), Some(m), Some(d)) => civil_date(y as i16, m as i8, d as i8),
        _ => None,
    }
}

/// The date typed in a date field, read against `today`.
pub fn parse_due_text_on(text: &str, today: (i16, i8, i8)) -> (r: Option<(i16, i8, i8)>)
    ensures
        r == due_text_date(text@, today),
{
    let ts = trim_str(text);
    let low = to_lower(ts.as_str());
    let t = chars_of(low.as_str());
    if t.len() == 0 {
        return None;
    }
    if same_text(&t, "today") || same_text(&t, "tod") {
        return Some(today);
    }
    if same_text(&t, "tomorrow") || same_text(&t, "tmr") || same_text(&t, "tom") {
        return add_period(today, Recurrence::Daily);
    }
    match weekday_word(&t) {
        Some(wd) => {
            let mut d = add_period(today, Recurrence::Daily);
            let mut k: usize = 7;
            assert(due_text_date(text@, today) == find_weekday(date_after(today, Recurrence::Daily), wd, 7));
            while k > 0
                invariant
                    k <= 7,
                    due_text_date(text@, today) == find_weekday(date_after(today, Recurrence::Daily), wd, 7),
                    find_weekday(d, wd, k as nat) == find_weekday(date_after(today, Recurrence::Daily), wd, 7),
                decreases k,
            {
                match d {
                    None => return None,
                    Some(x) => {
                        if weekday(x) == Some(wd) {
                            return Some(x);
                        }
                        d = add_period(x, Recurrence::Daily);
                    },
                }
                k = k - 1;
            }
            None
        },
        None => ymd(&t),
    }
}

/// The date typed in a date field, read against today's date (from the clock).
pub fn parse_due_text(text: &str) -> (r: Option<(i16, i8, i8)>)
    ensures
        exists|now: (i16, i8, i8)| r == due_text_date(text@, now),
{
    let now = today();
    parse_due_text_on(text, now)
}

/// Converts a calendar date to a timestamp at midnight UTC.
pub fn from_jiff_to_datetime(date: (i16, i8, i8)) -> (r: Option<DateTime>)
    ensures
        r == midnight_of(date),
{
    match midnight_utc(date) {
        Some(m) => Some(DateTime::from_millis(m)),
        None => None,
    }
}

// ---- the date fields ----

/// The field's text changed to `text` (read against `today`): an empty text
/// clears the date, a readable one sets it (to its midnight UTC, or to none
/// where that has no timestamp), anything else leaves it.
pub open spec fn date_after_typing(text: Seq<char>, today: (i16, i8, i8), date: Option<DateTime>) -> Option<DateTime> {
    if text.len() == 0 {
        None
    } else {
        match due_text_date(text, today) {
            Some(d) => midnight_of(d),
            None => date,
        }
    }
}

/// The field's text changed: update its date.
pub fn date_text_changed(text: &String, date: &mut Option<DateTime>, today: (i16, i8, i8))
    ensures
        *final(date) == date_after_typing(text@, today, *old(date)),
{
    if text.unicode_len() == 0 {
        *date = None;
    } else {
        match parse_due_text_on(text.as_str(), today) {
            Some(d) => {
                *date = from_jiff_to_datetime(d);
            },
            None => {},
        }
    }
}

/// The calendar picker chose `picked`: it becomes the date and the text clears.
pub fn date_picked(text: &mut String, date: &mut Option<DateTime>, picked: (i16, i8, i8))
    ensures
        *final(date) == midnight_of(picked),
        final(text)@.len() == 0,
{
    *date = from_jiff_to_datetime(picked);
    *text = String::new();
}

/// The clear button: no date, no text.
pub fn date_cleared(text: &mut String, date: &mut Option<DateTime>)
    ensures
        *final(date) is None,
        final(text)@.len() == 0,
{
    *date = None;
    *text = String::new();
}

/// What shows under a date field.
#[derive(Clone, Copy, Debug, PartialEq, Eq, Structural)]
pub enum DateHint {
    /// The date as confirmation (the text is empty).
    Confirmed,
    /// The text could not be read.
    Unrecognized,
    Nothing,
}

/// A date with an empty text is confirmed; a text with no date is unrecognized.
pub fn date_hint(text: &String, date: &Option<DateTime>) -> (h: DateHint)
    ensures
        h == if date is Some {
            if text@.len() == 0 { DateHint::Confirmed } else { DateHint::Nothing }
        } else if text@.len() > 0 {
            DateHint::Unrecognized
        } else {
            DateHint::Nothing
        },
{
    match date {
        Some(_) => if text.unicode_len() == 0 { DateHint::Confirmed } else { DateHint::Nothing },
        None => if text.unicode_len() > 0 { DateHint::Unrecognized } else { DateHint::Nothing },
    }
}

// ---- the tag chips ----

/// The tag text after chip `idx` is removed: the other typed tags joined with
/// ", " and a trailing ", ", or empty when none is left.
pub open spec fn without_chip(buf: Seq<char>, idx: int) -> Seq<char> {
    let tags = kept_pieces(split_commas(buf));
    let rest = tags.remove(idx);
    if rest.len() == 0 { Seq::empty() } else { joined_tags(rest) + seq![',', ' '] }
}

/// The tags typed in the tag field, as chips: trimmed, blanks dropped.
pub fn tag_chips(buf: &str) -> (v: Vec<String>)
    ensures
        str_views(v@) == kept_pieces(split_commas(buf@)),
{
    match crate::ui::tasks::parse_tags(buf) {
        Some(v) => v,
        None => {
            proof {
                if buf@.len() > 0 {
                    assert(crate::ui::tasks::parsed_tags(buf@) is None);
                    let kp = kept_pieces(split_commas(buf@));
                    assert(kp.len() == 0);
                    assert(kp =~= Seq::<Seq<char>>::empty());
                } else {
                    assert(split_commas(buf@) =~= seq![Seq::<char>::empty()]);
                    assert(split_commas(buf@).drop_last() =~= Seq::<Seq<char>>::empty());
                    assert(crate::text::trim_start(Seq::<char>::empty()) == Seq::<char>::empty());
                    assert(trim(Seq::<char>::empty()) == Seq::<char>::empty());
                    assert(kept_pieces(split_commas(buf@).drop_last()) == Seq::<Seq<char>>::empty());
                    assert(split_commas(buf@).last() == Seq::<char>::empty());
                    assert(kept_pieces(split_commas(buf@)) =~= Seq::<Seq<char>>::empty());
                }
            }
            let v: Vec<String> = Vec::new();
            assert(str_views(v@) =~= Seq::<Seq<char>>::empty());
            v
        },
    }
}

/// Remove chip `idx` from the tag field.
pub fn remove_chip(buf: &mut String, idx: usize)
    requires
        idx < kept_pieces(split_commas(old(buf)@)).len(),
    ensures
        final(buf)@ == without_chip(old(buf)@, idx as int),
{
    let mut tags = tag_chips(buf.as_str());
    let ghost tv = str_views(tags@);
    tags.remove(idx);
    assert(str_views(tags@) =~= tv.remove(idx as int));
    if tags.len() == 0 {
        *buf = String::new();
    } else {
        let joined = crate::ui::tasks::join_tags(&tags);
        let mut out = chars_of(joined.as_str());
        out.push(',');
        out.push(' ');
        *buf = string_from_chars(out.as_slice());
    }
}

// ---- the editor ----

/// Opening a task for editing: on its first frame the draft takes the task
/// under the cursor.
pub fn load_draft(tm: &mut TaskManager, mode: &Mode)
    ensures
        final(tm).tasks@ == old(tm).tasks@,
        final(tm).current == old(tm).current,
        (*mode matches Mode::Insert(Some(_)) && old(tm).writer.initial_frame && old(tm).current_index() is Some) ==> ({
            let t = old(tm).tasks@[old(tm).current_index()->0 as int]@;
            &&& final(tm).writer.title_buffer@ == t.title
            &&& final(tm).writer.details_buffer@ == t.details
            &&& final(tm).writer.status == t.status
            &&& final(tm).writer.priority == t.priority
            &&& final(tm).writer.order == t.order
            &&& !final(tm).writer.initial_frame
        }),
{
    let editing = match mode {
        Mode::Insert(Some(_)) => true,
        _ => false,
    };
    if editing && tm.writer.initial_frame {
        match tm.get_current_task() {
            Some(task) => {
                tm.writer = TaskWriter::from_task(task);
            },
            None => {},
        }
    }
}

/// What Esc does in the editor.
#[derive(Clone, Copy, Debug, PartialEq, Eq, Structural)]
pub enum EditorEsc {
    /// Nothing (no Esc, or a popup took it).
    Ignore,
    /// A field has the focus: it gives it up.
    Blur,
    /// Nothing is focused: the draft is discarded.
    Discard,
}

/// The editor's keys: plain Enter saves (Shift+Enter is a newline in the
/// details), and Esc first takes the focus from a field, then discards;
/// neither acts while a popup is open.
pub fn editor_keys(enter: bool, shift: bool, esc: bool, popup_open: bool, focused: bool) -> (r: (bool, EditorEsc))
    ensures
        r.0 == (enter && !shift && !popup_open),
        r.1 == if esc && !popup_open { if focused { EditorEsc::Blur } else { EditorEsc::Discard } } else { EditorEsc::Ignore },
{
    let submit = enter && !shift && !popup_open;
    let e = if esc && !popup_open {
        if focused { EditorEsc::Blur } else { EditorEsc::Discard }
    } else {
        EditorEsc::Ignore
    };
    (submit, e)
}

/// What a save wrote.
pub enum Saved {
    Created(Result<ObjectId, DbError>),
    Edited(Result<Option<ObjectId>, DbError>, Option<DbError>),
    Nothing,
}

/// Leave the editor: the draft is cleared, Normal mode, Tasks pane.
pub fn discard(tm: &mut TaskManager, state: &mut AppState)
    ensures
        crate::ui::tasks::is_cleared(final(tm).writer),
        final(state).mode == Mode::Normal,
        final(state).window_state == WindowState::Tasks,
        final(tm).tasks@ == old(tm).tasks@,
{
    tm.writer.flush();
    state.mode = Mode::Normal;
    state.window_state = WindowState::Tasks;
}

/// Saving an edit that completes a recurring task can give its next
/// occurrence an order one gap further without overflow.
pub open spec fn edit_fits(s: DbView, mode: Mode, w: TaskWriter) -> bool {
    match mode {
        Mode::Insert(Some(id)) => edit_room(s, w, id),
        _ => true,
    }
}

/// Save the draft: a new task under `project` (Insert without a task) or
/// the edited task; then leave the editor as `discard` does.
pub fn submit(db: &mut Db, tm: &mut TaskManager, state: &mut AppState, project: &ProjectEntry) -> (s: Saved)
    requires
        old(db).wf(),
        edit_fits(old(db)@, old(state).mode, old(tm).writer),
    ensures
        final(db).wf(),
        crate::ui::tasks::is_cleared(final(tm).writer),
        final(state).mode == Mode::Normal,
        final(state).window_state == WindowState::Tasks,
        old(state).mode is Normal || old(state).mode is Visual ==> s is Nothing && final(db)@ == old(db)@,
        old(state).mode matches Mode::Insert(None) ==> (s matches Saved::Created(r) && exists|t: TaskView|
            #[trigger] created_as(old(db)@, final(db)@, old(tm).writer, entry_id(project@), t, r)),
        old(state).mode matches Mode::Insert(Some(id)) ==> (s matches Saved::Edited(r0, r1)
            && edit_saved(old(db)@, final(db)@, old(tm).writer, id, (r0, r1))),
{
    let saved = match state.mode {
        Mode::Insert(None) => Saved::Created(task_submit_create(db, &tm.writer, project)),
        Mode::Insert(Some(id)) => {
            let (r, follow) = task_submit_edit(db, &tm.writer, id);
            Saved::Edited(r, follow)
        },
        _ => Saved::Nothing,
    };
    discard(tm, state);
    saved
}

// ---- notes ----

/// A note typed for `task_id`, stamped now.
pub fn new_note(task_id: ObjectId, content: String) -> (a: Annotation)
    ensures
        a.task_id == task_id,
        a.content@ == content@,
{
    Annotation { id: ObjectId::new(), task_id, content, created_at: DateTime::now() }
}

/// The note field: Enter (as the field loses the focus) with some text
/// saves it as a note and empties the field; Esc in the field empties it.
pub fn note_keys(buf: &mut String, has_focus: bool, lost_focus: bool, enter: bool, esc: bool) -> (r: Option<String>)
    ensures
        has_focus && esc ==> r is None && final(buf)@.len() == 0,
        !(has_focus && esc) && lost_focus && enter && old(buf)@.len() > 0 ==> (r matches Some(t) && t@ == old(buf)@) && final(buf)@.len() == 0,
        !(has_focus && esc) && !(lost_focus && enter && old(buf)@.len() > 0) ==> r is None && final(buf)@ == old(buf)@,
{
    if has_focus && esc {
        *buf = String::new();
        return None;
    }
    if lost_focus && enter && buf.unicode_len() > 0 {
        let mut taken = String::new();
        std::mem::swap(&mut taken, buf);
        return Some(taken);
    }
    None
}

/// Note `a` was saved for `task_id` with text `content`, taking store
/// `before` to `after` with answer `r`: when no note had `a`'s id it is
/// stored last and the task's notes are read back; otherwise the store is
/// unchanged and the id is refused as a duplicate.
pub open spec fn note_added(
    before: DbView,
    after: DbView,
    task_id: ObjectId,
    content: Seq<char>,
    a: AnnotationView,
    r: Result<Vec<Annotation>, DbError>,
) -> bool {
    &&& a.task_id == task_id
    &&& a.content == content
    &&& annotation_index(before.annotations, a.id) < 0 ==> (after == with_annotations(before, before.annotations.push(a))
        && (r matches Ok(v) && notes_listing(after.annotations, task_id, annotation_views(v@))))
    &&& annotation_index(before.annotations, a.id) >= 0 ==> (after == before
        && r == Err::<Vec<Annotation>, DbError>(DbError::DuplicateId))
}

/// Save a note for `task_id`, then read the task's notes again. The note
/// gets a fresh random id and the current time; the save is refused only
/// when that id is already taken.
pub fn add_note(db: &mut Db, task_id: ObjectId, content: String) -> (r: Result<Vec<Annotation>, DbError>)
    requires
        old(db).wf(),
    ensures
        final(db).wf(),
        exists|a: AnnotationView| #[trigger] note_added(old(db)@, final(db)@, task_id, content@, a, r),
{
    let ghost s0 = db@;
    let ghost cv = content@;
    let a = new_note(task_id, content);
    let ghost av = a@;
    let r = match db.add_annotation(a) {
        Ok(_) => db.get_annotations(task_id),
        Err(e) => Err(e),
    };
    assert(note_added(s0, db@, task_id, cv, av, r));
    r
}

/// Delete note `id` (nothing happens when no note has it), then read the
/// notes of `task_id` again.
pub fn remove_note(db: &mut Db, id: ObjectId, task_id: ObjectId) -> (r: Result<Vec<Annotation>, DbError>)
    requires
        old(db).wf(),
    ensures
        final(db).wf(),
        annotation_index(old(db)@.annotations, id) >= 0 ==> final(db)@ == with_annotations(
            old(db)@, old(db)@.annotations.remove(annotation_index(old(db)@.annotations, id))),
        annotation_index(old(db)@.annotations, id) < 0 ==> final(db)@ == old(db)@,
        r matches Ok(v) && notes_listing(final(db)@.annotations, task_id, annotation_views(v@)),
{
    match db.delete_annotation(id) {
        Ok(_) => db.get_annotations(task_id),
        Err(e) => Err(e),
    }
}

/// The task under the cursor changed from the one whose notes are loaded:
/// the notes and the note field start afresh for it.
pub fn follow_notes(loaded: &mut Option<ObjectId>, current: ObjectId, notes: &mut Vec<Annotation>, buf: &mut String) -> (changed: bool)
    ensures
        changed == (*old(loaded) != Some(current)),
        *final(loaded) == Some(current),
        changed ==> final(notes)@.len() == 0 && final(buf)@.len() == 0,
        !changed ==> *final(notes) == *old(notes) && *final(buf) == *old(buf),
{
    let changed = match *loaded {
        Some(id) => id != current,
        None => true,
    };
    if changed {
        *loaded = Some(current);
        notes.clear();
        *buf = String::new();
    }
    changed
}

} // verus!
