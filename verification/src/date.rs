//! Calendar values and the calendar collaborator.
//!
//! The core never reads the wall clock or parses a date itself: a few
//! trusted wrappers around the `chrono` crate hand it plain values
//! (`Today`, weekday indices, `Date` triples), and everything computed
//! from those values is verified.

use vstd::prelude::*;
use vstd::string::StringExecFns;

use chrono::{Datelike, Timelike};

use crate::error::TtdError;
use crate::task::OnceDateStatus;
use crate::text::{all_digits, char_digit, digit_char, digit_str, digit_val, is_digit, str_eq};

verus! {

/// A calendar date, kept as plain year/month/day numbers.
///
/// The persisted form is the `YYYYMMDD` string; see `to_yyyymmdd` and
/// `parse_yyyymmdd`.
#[derive(Clone, Copy, Debug, PartialEq, Eq, Structural)]
pub struct Date {
    pub year: u16,
    pub month: u8,
    pub day: u8,
}

/// A date is well formed when it fits the `YYYYMMDD` form: four year
/// digits, a month in `1..=12` and a day in `1..=31`.
pub open spec fn wf_date(d: Date) -> bool {
    &&& d.year <= 9999
    &&& 1 <= d.month <= 12
    &&& 1 <= d.day <= 31
}

/// What the calendar says about the present moment: today's date,
/// day-of-month and weekday (0 = Monday .. 6 = Sunday).
#[derive(Clone, Copy, Debug, PartialEq, Eq, Structural)]
pub struct Today {
    pub year: i32,
    pub month: u8,
    pub day: u8,
    pub weekday: u8,
}

/// The ranges the calendar guarantees for `Today`.
pub open spec fn wf_today(t: Today) -> bool {
    &&& 1 <= t.month <= 12
    &&& 1 <= t.day <= 31
    &&& t.weekday < 7
}

/// Relies on `chrono::Local::now` and the `Datelike` accessors `year`,
/// `month` (1..=12), `day` (1..=31) and `Weekday::num_days_from_monday`
/// (0..=6) for the current local date.
#[verifier::external_body]
pub fn today() -> (r: Today)
    ensures
        wf_today(r),
{
    let now = chrono::Local::now().date_naive();
    Today {
        year: now.year(),
        month: now.month() as u8,
        day: now.day() as u8,
        weekday: now.weekday().num_days_from_monday() as u8,
    }
}

/// Relies on `chrono::Local::now` and `Timelike::hour`, which returns
/// an hour in `0..=23`.
#[verifier::external_body]
fn now_hour() -> (r: u8)
    ensures
        r < 24,
{
    chrono::Local::now().hour() as u8
}

/// Relies on `chrono::Local::now` and `DateTime::format`: a wall-clock
/// timestamp for display; nothing is promised of its content.
#[verifier::external_body]
pub fn get_time() -> String {
    chrono::Local::now().format("%Y-%m-%d %H:%M:%S").to_string()
}

/// Relies on `chrono::Local::now` and `DateTime::format`: today's date
/// for display; nothing is promised of its content.
#[verifier::external_body]
pub fn get_date() -> String {
    chrono::Local::now().format("%Y-%m-%d").to_string()
}

/// The weekday index that `str::parse::<chrono::Weekday>` assigns to a
/// string, or `None` where it rejects the string.
pub uninterp spec fn weekday_parse_of(s: Seq<char>) -> Option<u8>;

/// Relies on `str::parse::<chrono::Weekday>` (case-insensitive short or
/// full weekday names) and `Weekday::num_days_from_monday` (0..=6).
#[verifier::external_body]
fn weekday_parse(s: &str) -> (r: Option<u8>)
    ensures
        r == weekday_parse_of(s@),
        r is Some ==> r->0 < 7,
{
    match s.parse::<chrono::Weekday>() {
        Ok(w) => Some(w.num_days_from_monday() as u8),
        Err(_) => None,
    }
}

/// The year/month/day triple that `chrono::NaiveDate::parse_from_str`
/// with the `%Y%m%d` format reads out of a string, or `None` where it
/// rejects the string.
pub uninterp spec fn date_parse_of(s: Seq<char>) -> Option<(i32, u8, u8)>;

/// Relies on `chrono::NaiveDate::parse_from_str` with `%Y%m%d`, and on
/// the `Datelike` accessors: a parsed date has a month in `1..=12` and
/// a day in `1..=31`.
#[verifier::external_body]
fn date_parse(s: &str) -> (r: Option<(i32, u8, u8)>)
    ensures
        r == date_parse_of(s@),
        r is Some ==> 1 <= (r->0).1 <= 12 && 1 <= (r->0).2 <= 31,
{
    match chrono::NaiveDate::parse_from_str(s, "%Y%m%d") {
        Ok(d) => Some((d.year(), d.month() as u8, d.day() as u8)),
        Err(_) => None,
    }
}

/// The weekday a user string denotes, as an index 0 = Monday .. 6 =
/// Sunday, or `InvalidWeekday` where the calendar rejects the string.
pub fn parse_weekday(s: &str) -> (r: Result<u8, TtdError>)
    ensures
        match r {
            Ok(w) => weekday_parse_of(s@) == Some(w) && w < 7,
            Err(e) => weekday_parse_of(s@) is None && e == TtdError::InvalidWeekday,
        },
{
    match weekday_parse(s) {
        Some(w) => Ok(w),
        None => Err(TtdError::InvalidWeekday),
    }
}

/// The date a user string denotes. `InvalidDate` where the calendar
/// rejects the string, or where the year does not fit the four-digit
/// `YYYYMMDD` persisted form.
pub fn parse_date(s: &str) -> (r: Result<Date, TtdError>)
    ensures
        match r {
            Ok(d) => date_parse_of(s@) == Some((d.year as i32, d.month, d.day)) && wf_date(d),
            Err(e) => e == TtdError::InvalidDate && match date_parse_of(s@) {
                Some(t) => !(0 <= t.0 <= 9999),
                None => true,
            },
        },
{
    match date_parse(s) {
        Some((y, m, d)) => {
            if 0 <= y && y <= 9999 {
                Ok(Date { year: y as u16, month: m, day: d })
            } else {
                Err(TtdError::InvalidDate)
            }
        },
        None => Err(TtdError::InvalidDate),
    }
}


/// The canonical three-letter name of a weekday index.
pub open spec fn spec_weekday_name(i: int) -> Seq<char> {
    if i == 0 { "Mon"@ }
    else if i == 1 { "Tue"@ }
    else if i == 2 { "Wed"@ }
    else if i == 3 { "Thu"@ }
    else if i == 4 { "Fri"@ }
    else if i == 5 { "Sat"@ }
    else { "Sun"@ }
}

/// The canonical three-letter name under which a weekday is persisted
/// and shown.
pub fn weekday_name(w: u8) -> (r: String)
    requires
        w < 7,
    ensures
        r@ == spec_weekday_name(w as int),
{
    match w {
        0 => "Mon".to_owned(),
        1 => "Tue".to_owned(),
        2 => "Wed".to_owned(),
        3 => "Thu".to_owned(),
        4 => "Fri".to_owned(),
        5 => "Sat".to_owned(),
        _ => "Sun".to_owned(),
    }
}

/// The weekday index of a canonical three-letter name; any other
/// string has none.
pub open spec fn spec_weekday_from_name(s: Seq<char>) -> Option<u8> {
    if s == "Mon"@ { Some(0u8) }
    else if s == "Tue"@ { Some(1u8) }
    else if s == "Wed"@ { Some(2u8) }
    else if s == "Thu"@ { Some(3u8) }
    else if s == "Fri"@ { Some(4u8) }
    else if s == "Sat"@ { Some(5u8) }
    else if s == "Sun"@ { Some(6u8) }
    else { None }
}

/// Reads a canonical three-letter weekday name back to its index.
pub fn weekday_from_name(s: &str) -> (r: Option<u8>)
    ensures
        r == spec_weekday_from_name(s@),
{
    if str_eq(s, "Mon") { Some(0) }
    else if str_eq(s, "Tue") { Some(1) }
    else if str_eq(s, "Wed") { Some(2) }
    else if str_eq(s, "Thu") { Some(3) }
    else if str_eq(s, "Fri") { Some(4) }
    else if str_eq(s, "Sat") { Some(5) }
    else if str_eq(s, "Sun") { Some(6) }
    else { None }
}

/// A weekday's canonical name names that weekday and no other.
pub proof fn lemma_weekday_name_roundtrip(i: int)
    requires
        0 <= i < 7,
    ensures
        spec_weekday_from_name(spec_weekday_name(i)) == Some(i as u8),
{
    reveal_strlit("Mon");
    reveal_strlit("Tue");
    reveal_strlit("Wed");
    reveal_strlit("Thu");
    reveal_strlit("Fri");
    reveal_strlit("Sat");
    reveal_strlit("Sun");
    assert("Mon"@[0] == 'M' && "Tue"@[0] == 'T' && "Wed"@[0] == 'W' && "Thu"@[0] == 'T'
        && "Fri"@[0] == 'F' && "Sat"@[0] == 'S' && "Sun"@[0] == 'S');
    assert("Tue"@[1] == 'u' && "Thu"@[1] == 'h' && "Sat"@[1] == 'a' && "Sun"@[1] == 'u');
    assert("Tue"@ != "Mon"@);
    assert("Wed"@ != "Mon"@ && "Wed"@ != "Tue"@);
    assert("Thu"@ != "Mon"@ && "Thu"@ != "Tue"@ && "Thu"@ != "Wed"@);
    assert("Fri"@ != "Mon"@ && "Fri"@ != "Tue"@ && "Fri"@ != "Wed"@ && "Fri"@ != "Thu"@);
    assert("Sat"@ != "Mon"@ && "Sat"@ != "Tue"@ && "Sat"@ != "Wed"@ && "Sat"@ != "Thu"@
        && "Sat"@ != "Fri"@);
    assert("Sun"@ != "Mon"@ && "Sun"@ != "Tue"@ && "Sun"@ != "Wed"@ && "Sun"@ != "Thu"@
        && "Sun"@ != "Fri"@ && "Sun"@ != "Sat"@);
}

/// The eight-digit `YYYYMMDD` form of a well-formed date.
pub open spec fn spec_yyyymmdd(d: Date) -> Seq<char> {
    let y = d.year as int;
    let m = d.month as int;
    let dd = d.day as int;
    seq![
        digit_char(y / 1000),
        digit_char((y / 100) % 10),
        digit_char((y / 10) % 10),
        digit_char(y % 10),
        digit_char(m / 10),
        digit_char(m % 10),
        digit_char(dd / 10),
        digit_char(dd % 10),
    ]
}

/// The date an eight-digit `YYYYMMDD` string denotes, if its month and
/// day fields are in range; any other string denotes none.
pub open spec fn spec_parse_yyyymmdd(s: Seq<char>) -> Option<Date> {
    if s.len() == 8 && all_digits(s) {
        let y = digit_val(s[0]) * 1000 + digit_val(s[1]) * 100 + digit_val(s[2]) * 10 + digit_val(s[3]);
        let m = digit_val(s[4]) * 10 + digit_val(s[5]);
        let dd = digit_val(s[6]) * 10 + digit_val(s[7]);
        if 1 <= m <= 12 && 1 <= dd <= 31 {
            Some(Date { year: y as u16, month: m as u8, day: dd as u8 })
        } else {
            None
        }
    } else {
        None
    }
}

impl Date {
    /// The `YYYYMMDD` string under which this date is persisted.
    pub fn to_yyyymmdd(&self) -> (r: String)
        requires
            wf_date(*self),
        ensures
            r@ == spec_yyyymmdd(*self),
    {
        let y = self.year as usize;
        let m = self.month as usize;
        let d = self.day as usize;
        let mut s = String::new();
        s.append(digit_str(y / 1000));
        s.append(digit_str((y / 100) % 10));
        s.append(digit_str((y / 10) % 10));
        s.append(digit_str(y % 10));
        s.append(digit_str(m / 10));
        s.append(digit_str(m % 10));
        s.append(digit_str(d / 10));
        s.append(digit_str(d % 10));
        proof {
            assert(s@ =~= spec_yyyymmdd(*self));
        }
        s
    }

    /// Reads a persisted `YYYYMMDD` string back to a date.
    pub fn parse_yyyymmdd(s: &str) -> (r: Option<Date>)
        ensures
            r == spec_parse_yyyymmdd(s@),
            r is Some ==> wf_date(r->0),
    {
        let v = crate::text::str_chars(s);
        if v.len() != 8 {
            return None;
        }
        let mut digits: [usize; 8] = [0; 8];
        let mut i: usize = 0;
        while i < 8
            invariant
                0 <= i <= 8,
                v@ == s@,
                v@.len() == 8,
                forall|j: int| 0 <= j < i ==> is_digit(#[trigger] s@[j]),
                forall|j: int| 0 <= j < i ==> digits@[j] == digit_val(s@[j]),
            decreases 8 - i,
        {
            match char_digit(v[i]) {
                Some(d) => {
                    digits[i] = d;
                },
                None => {
                    proof {
                        assert(!is_digit(s@[i as int]));
                        assert(!all_digits(s@));
                    }
                    return None;
                },
            }
            i = i + 1;
        }
        proof {
            assert(all_digits(s@));
        }
        let y = digits[0] * 1000 + digits[1] * 100 + digits[2] * 10 + digits[3];
        let m = digits[4] * 10 + digits[5];
        let dd = digits[6] * 10 + digits[7];
        if 1 <= m && m <= 12 && 1 <= dd && dd <= 31 {
            Some(Date { year: y as u16, month: m as u8, day: dd as u8 })
        } else {
            None
        }
    }
}

/// A well-formed date's `YYYYMMDD` string reads back to the same date.
pub proof fn lemma_date_roundtrip(d: Date)
    requires
        wf_date(d),
    ensures
        spec_parse_yyyymmdd(spec_yyyymmdd(d)) == Some(d),
{
    let s = spec_yyyymmdd(d);
    let y = d.year as int;
    let m = d.month as int;
    let dd = d.day as int;
    lemma_digit_char_val(y / 1000);
    lemma_digit_char_val((y / 100) % 10);
    lemma_digit_char_val((y / 10) % 10);
    lemma_digit_char_val(y % 10);
    lemma_digit_char_val(m / 10);
    lemma_digit_char_val(m % 10);
    lemma_digit_char_val(dd / 10);
    lemma_digit_char_val(dd % 10);
    assert(all_digits(s));
    assert(digit_val(s[0]) * 1000 + digit_val(s[1]) * 100 + digit_val(s[2]) * 10 + digit_val(s[3]) == y);
    assert(digit_val(s[4]) * 10 + digit_val(s[5]) == m);
    assert(digit_val(s[6]) * 10 + digit_val(s[7]) == dd);
}

/// A digit character carries its digit's value.
proof fn lemma_digit_char_val(n: int)
    requires
        0 <= n <= 9,
    ensures
        is_digit(digit_char(n)),
        digit_val(digit_char(n)) == n,
{
}

/// Where a one-time date stands relative to today: `Ongoing` on the
/// day itself, `Expired` before it, `Upcoming` after it.
pub open spec fn spec_date_status(d: Date, t: Today) -> OnceDateStatus {
    if d.year as int == t.year as int && d.month == t.month && d.day == t.day {
        OnceDateStatus::Ongoing
    } else if (d.year as int) < t.year as int
        || (d.year as int == t.year as int && d.month < t.month)
        || (d.year as int == t.year as int && d.month == t.month && d.day < t.day) {
        OnceDateStatus::Expired
    } else {
        OnceDateStatus::Upcoming
    }
}

/// The derived status of a one-time date: `Ongoing` today, `Expired`
/// strictly before today, `Upcoming` strictly after.
pub fn date_check(d: &Date, t: &Today) -> (r: OnceDateStatus)
    ensures
        r == spec_date_status(*d, *t),
{
    let dy = d.year as i32;
    if dy == t.year && d.month == t.month && d.day == t.day {
        OnceDateStatus::Ongoing
    } else if dy < t.year
        || (dy == t.year && d.month < t.month)
        || (dy == t.year && d.month == t.month && d.day < t.day) {
        OnceDateStatus::Expired
    } else {
        OnceDateStatus::Upcoming
    }
}

/// Whether a weekly task's stored weekday is today's weekday.
pub fn weekday_check(weekday: u8, t: &Today) -> (r: bool)
    ensures
        r == (weekday == t.weekday),
{
    weekday == t.weekday
}

/// Whether a monthly task's stored day is today's day-of-month.
pub fn day_check(day: usize, t: &Today) -> (r: bool)
    ensures
        r == (day == t.day as usize),
{
    day == t.day as usize
}

/// Whether a one-time date lies strictly before today.
pub fn expired_check(d: &Date, t: &Today) -> (r: bool)
    ensures
        r == (spec_date_status(*d, *t) == OnceDateStatus::Expired),
{
    match date_check(d, t) {
        OnceDateStatus::Expired => true,
        _ => false,
    }
}

/// Today's weekday as an index 0 = Monday .. 6 = Sunday.
pub fn get_weekday() -> (r: u8)
    ensures
        r < 7,
{
    today().weekday
}

/// The greeting chosen for an hour of the day.
pub open spec fn spec_greeting(h: int) -> Seq<char> {
    if h <= 11 {
        "Good morning!"@
    } else if h <= 16 {
        "Good afternoon!"@
    } else {
        "Good evening!"@
    }
}

/// A greeting for the current hour: morning up to 11, afternoon up to
/// 16, evening after that.
pub fn get_greeting() -> (r: String)
    ensures
        exists|h: int| 0 <= h < 24 && r@ == spec_greeting(h),
{
    let h = now_hour();
    let r = greeting_for_hour(h);
    proof {
        let hh = h as int;
        assert(0 <= hh < 24 && r@ == spec_greeting(hh));
    }
    r
}

/// The greeting for a given hour.
pub fn greeting_for_hour(h: u8) -> (r: String)
    requires
        h < 24,
    ensures
        r@ == spec_greeting(h as int),
{
    if h <= 11 {
        "Good morning!".to_owned()
    } else if h <= 16 {
        "Good afternoon!".to_owned()
    } else {
        "Good evening!".to_owned()
    }
}

} // verus!
