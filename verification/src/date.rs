//! Calendar dates, and what the tracker computes with them.

use vstd::prelude::*;
use chrono::Datelike;
use crate::text::{dec_nat, push_char, push_nat, two_digits, push_two_digits};

verus! {

/// A calendar date of the proleptic Gregorian calendar.
#[derive(Clone, Copy, PartialEq, Eq, Structural, Debug)]
pub struct Date {
    pub year: i32,
    pub month: u32,
    pub day: u32,
}

/// Earliest year of the calendar that the date library covers.
pub const MIN_YEAR: i32 = -262143;

/// Latest year of the calendar that the date library covers.
pub const MAX_YEAR: i32 = 262142;

pub open spec fn leap_year(y: int) -> bool {
    (y % 4 == 0 && y % 100 != 0) || y % 400 == 0
}

pub open spec fn days_in_month(y: int, m: int) -> int {
    if m == 2 {
        if leap_year(y) {
            29
        } else {
            28
        }
    } else if m == 4 || m == 6 || m == 9 || m == 11 {
        30
    } else {
        31
    }
}

impl Date {
    /// A date that exists in the calendar, within the covered years.
    pub open spec fn valid(&self) -> bool {
        &&& MIN_YEAR <= self.year <= MAX_YEAR
        &&& 1 <= self.month <= 12
        &&& 1 <= self.day <= days_in_month(self.year as int, self.month as int)
    }

    /// The date is the same as `other` or earlier in the calendar.
    pub open spec fn not_after(&self, other: Date) -> bool {
        ||| self.year < other.year
        ||| self.year == other.year && self.month < other.month
        ||| self.year == other.year && self.month == other.month && self.day <= other.day
    }

    /// Whether the date exists in the calendar, within the covered years.
    pub fn is_valid(&self) -> (b: bool)
        ensures
            b == self.valid(),
    {
        if self.year < MIN_YEAR || self.year > MAX_YEAR || self.month < 1 || self.month > 12 || self.day < 1 {
            return false;
        }
        let y = self.year;
        let leap = (y % 4 == 0 && y % 100 != 0) || y % 400 == 0;
        let dim: u32 = if self.month == 2 {
            if leap {
                29
            } else {
                28
            }
        } else if self.month == 4 || self.month == 6 || self.month == 9 || self.month == 11 {
            30
        } else {
            31
        };
        self.day <= dim
    }
}

/// Days from 1970-01-01 to a date of the proleptic Gregorian calendar
/// (negative before it): whole 400-year eras of 146097 days, then the years,
/// then the days of the year counted from 1 March.
pub open spec fn days_from_epoch(year: int, month: int, day: int) -> int {
    let y = if month <= 2 {
        year - 1
    } else {
        year
    };
    let era = y / 400;
    let yoe = y - era * 400;
    let mp = if month > 2 {
        month - 3
    } else {
        month + 9
    };
    let doy = (153 * mp + 2) / 5 + day - 1;
    let doe = yoe * 365 + yoe / 4 - yoe / 100 + doy;
    era * 146097 + doe - 719468
}

/// Day of the week of a date, counted from Monday = 0 (1970-01-01 was a
/// Thursday).
pub open spec fn weekday_index(year: int, month: int, day: int) -> int {
    (days_from_epoch(year, month, day) + 3) % 7
}

/// The date `z` days from 1970-01-01 (before it when negative): the inverse
/// of `days_from_epoch`.
pub open spec fn date_of_days(z: int) -> (int, int, int) {
    let z0 = z + 719468;
    let era = z0 / 146097;
    let doe = z0 - era * 146097;
    let yoe = (doe - doe / 1460 + doe / 36524 - doe / 146096) / 365;
    let doy = doe - (365 * yoe + yoe / 4 - yoe / 100);
    let mp = (5 * doy + 2) / 153;
    let d = doy - (153 * mp + 2) / 5 + 1;
    let m = if mp < 10 {
        mp + 3
    } else {
        mp - 9
    };
    (yoe + era * 400 + (if m <= 2 {
        1int
    } else {
        0
    }), m, d)
}

/// Whether a year lies in the years the date library covers.
pub open spec fn covered_year(y: int) -> bool {
    MIN_YEAR <= y <= MAX_YEAR
}

/// The number of ISO 8601 weeks of a year: 53 when it starts on a Thursday,
/// or on a Wednesday in a leap year; else 52.
pub open spec fn iso_weeks_in(year: int) -> int {
    let jan1 = weekday_index(year, 1, 1);
    if jan1 == 3 || (leap_year(year) && jan1 == 2) {
        53
    } else {
        52
    }
}

/// ISO 8601 week number of a date: weeks start on Monday, and week 1 is the
/// one holding 4 January; days before it belong to the last week of the
/// year before, days after the last week to week 1 of the next.
pub open spec fn iso_week_number(year: int, month: int, day: int) -> int {
    let ordinal = days_from_epoch(year, month, day) - days_from_epoch(year, 1, 1) + 1;
    let w = (ordinal - weekday_index(year, month, day) + 9) / 7;
    if w < 1 {
        iso_weeks_in(year - 1)
    } else if w > iso_weeks_in(year) {
        1
    } else {
        w
    }
}

/// The date of a day of an ISO 8601 week (weekday counted from Monday = 0):
/// the Monday on or before 4 January of `year`, then `week - 1` weeks and
/// `weekday` days on; `None` where the year has no such week or the date
/// leaves the covered years.
pub open spec fn iso_week_date(year: int, week: int, weekday: int) -> Option<(int, int, int)> {
    if week < 1 || week > iso_weeks_in(year) {
        None
    } else {
        let t = date_of_days(
            days_from_epoch(year, 1, 4) - weekday_index(year, 1, 4) + 7 * (week - 1) + weekday,
        );
        if covered_year(t.0) {
            Some(t)
        } else {
            None
        }
    }
}

/// The date `days` days after a date (before it when negative); `None`
/// where it leaves the covered years.
pub open spec fn shifted_date(year: int, month: int, day: int, days: int) -> Option<(int, int, int)> {
    let t = date_of_days(days_from_epoch(year, month, day) + days);
    if covered_year(t.0) {
        Some(t)
    } else {
        None
    }
}

/// Day of the week of `date`, from Monday = 0.
///
/// Calls chrono's `NaiveDate::weekday` and `Weekday::num_days_from_monday`,
/// which give the day of the week of the date, `0..=6` from Monday.
#[verifier::external_body]
pub(crate) fn weekday_of(date: Date) -> (w: u32)
    requires
        date.valid(),
    ensures
        w == weekday_index(date.year as int, date.month as int, date.day as int),
        w < 7,
{
    let d = chrono::NaiveDate::from_ymd_opt(date.year, date.month, date.day).unwrap();
    d.weekday().num_days_from_monday()
}

/// ISO week number of `date`.
///
/// Calls chrono's `NaiveDate::iso_week` and `IsoWeek::week`, which give the
/// ISO 8601 week of the date, `1..=53`.
#[verifier::external_body]
pub(crate) fn iso_week_of(date: Date) -> (w: u32)
    requires
        date.valid(),
    ensures
        w == iso_week_number(date.year as int, date.month as int, date.day as int),
        1 <= w <= 53,
{
    let d = chrono::NaiveDate::from_ymd_opt(date.year, date.month, date.day).unwrap();
    d.iso_week().week()
}

/// The date of weekday `weekday` (Monday = 0) in ISO week `week` of `year`.
///
/// Calls chrono's `NaiveDate::from_isoywd_opt`, which gives `None` for a week
/// or date out of range, and otherwise that day of that ISO 8601 week, a
/// valid date. It steps to the year before or after the one asked for,
/// which overflows for the two extreme years of `i32`; they are left out.
#[verifier::external_body]
pub(crate) fn date_from_iso_week(year: i32, week: u32, weekday: u32) -> (r: Option<Date>)
    requires
        weekday < 7,
        i32::MIN < year < i32::MAX,
    ensures
        match r {
            Some(d) => iso_week_date(year as int, week as int, weekday as int) == Some(
                (d.year as int, d.month as int, d.day as int),
            ) && d.valid(),
            None => iso_week_date(year as int, week as int, weekday as int) is None,
        },
{
    let wd = chrono::Weekday::try_from(weekday as u8).unwrap();
    match chrono::NaiveDate::from_isoywd_opt(year, week, wd) {
        Some(d) => Some(Date { year: d.year(), month: d.month(), day: d.day() }),
        None => None,
    }
}

/// The date `days` days after `date` (before it when negative).
///
/// Calls chrono's `NaiveDate::checked_add_signed` with `TimeDelta::days`,
/// which gives `None` when the result leaves the covered years and
/// otherwise the date that many days on, a valid one; no days give the date
/// itself, and going back (a negative count) never gives a later date.
#[verifier::external_body]
pub(crate) fn add_days(date: Date, days: i64) -> (r: Option<Date>)
    requires
        date.valid(),
        -100_000_000_000 <= days <= 100_000_000_000,
    ensures
        match r {
            Some(d) => shifted_date(date.year as int, date.month as int, date.day as int, days as int)
                == Some((d.year as int, d.month as int, d.day as int)) && d.valid(),
            None => shifted_date(date.year as int, date.month as int, date.day as int, days as int) is None,
        },
        days == 0 ==> r == Some(date),
        days <= 0 ==> (r matches Some(d) ==> d.not_after(date)),
{
    let d = chrono::NaiveDate::from_ymd_opt(date.year, date.month, date.day).unwrap();
    match d.checked_add_signed(chrono::TimeDelta::days(days)) {
        Some(d) => Some(Date { year: d.year(), month: d.month(), day: d.day() }),
        None => None,
    }
}

/// A number with at least four digits.
pub open spec fn four_digits(n: nat) -> Seq<char> {
    if n < 10 {
        "000"@ + dec_nat(n)
    } else if n < 100 {
        "00"@ + dec_nat(n)
    } else if n < 1000 {
        "0"@ + dec_nat(n)
    } else {
        dec_nat(n)
    }
}

/// A year as dates show it: four digits within 0..=9999, else with a sign.
pub open spec fn year_text(y: int) -> Seq<char> {
    if 0 <= y <= 9999 {
        four_digits(y as nat)
    } else if y < 0 {
        "-"@ + four_digits((-y) as nat)
    } else {
        "+"@ + four_digits(y as nat)
    }
}

/// `YYYY-MM-DD`.
pub open spec fn iso_date_text(d: Date) -> Seq<char> {
    year_text(d.year as int) + "-"@ + two_digits(d.month as nat) + "-"@ + two_digits(d.day as nat)
}

/// The English name of a day of the week, Monday = 0.
pub open spec fn weekday_name(w: int) -> Seq<char> {
    if w == 0 {
        "Monday"@
    } else if w == 1 {
        "Tuesday"@
    } else if w == 2 {
        "Wednesday"@
    } else if w == 3 {
        "Thursday"@
    } else if w == 4 {
        "Friday"@
    } else if w == 5 {
        "Saturday"@
    } else {
        "Sunday"@
    }
}

/// `Weekday, YYYY-MM-DD`.
pub open spec fn long_date_text(d: Date) -> Seq<char> {
    weekday_name(weekday_index(d.year as int, d.month as int, d.day as int)) + ", "@ + iso_date_text(d)
}

fn push_four_digits(s: &mut String, n: u128)
    ensures
        final(s)@ == old(s)@ + four_digits(n as nat),
{
    if n < 10 {
        s.append("000");
    } else if n < 100 {
        s.append("00");
    } else if n < 1000 {
        s.append("0");
    }
    push_nat(s, n);
    assert(s@ =~= old(s)@ + four_digits(n as nat));
}

/// Appends `YYYY-MM-DD`.
pub fn push_iso_date(s: &mut String, d: Date)
    ensures
        final(s)@ == old(s)@ + iso_date_text(d),
{
    let y = d.year;
    if 0 <= y && y <= 9999 {
        push_four_digits(s, y as u128);
    } else if y < 0 {
        s.append("-");
        push_four_digits(s, (-(y as i64)) as u128);
    } else {
        s.append("+");
        push_four_digits(s, y as u128);
    }
    s.append("-");
    push_two_digits(s, d.month as u128);
    s.append("-");
    push_two_digits(s, d.day as u128);
    assert(s@ =~= old(s)@ + iso_date_text(d));
}

/// Appends `Weekday, YYYY-MM-DD`.
pub fn push_long_date(s: &mut String, d: Date)
    requires
        d.valid(),
    ensures
        final(s)@ == old(s)@ + long_date_text(d),
{
    let w = weekday_of(d);
    if w == 0 {
        s.append("Monday");
    } else if w == 1 {
        s.append("Tuesday");
    } else if w == 2 {
        s.append("Wednesday");
    } else if w == 3 {
        s.append("Thursday");
    } else if w == 4 {
        s.append("Friday");
    } else if w == 5 {
        s.append("Saturday");
    } else {
        s.append("Sunday");
    }
    s.append(", ");
    push_iso_date(s, d);
    assert(s@ =~= old(s)@ + long_date_text(d));
}

/// `YYYY-MM-DD` of a date, as a new string.
pub fn iso_date(d: Date) -> (r: String)
    ensures
        r@ == iso_date_text(d),
{
    let mut s = String::new();
    push_iso_date(&mut s, d);
    assert(s@ =~= iso_date_text(d));
    s
}

/// `Weekday, YYYY-MM-DD` of a date, as a new string.
pub fn long_date(d: Date) -> (r: String)
    requires
        d.valid(),
    ensures
        r@ == long_date_text(d),
{
    let mut s = String::new();
    push_long_date(&mut s, d);
    assert(s@ =~= long_date_text(d));
    s
}

} // verus!

verus! {

/// The character in lower case, for ASCII letters.
pub open spec fn ascii_lower(c: char) -> char {
    if 'A' <= c <= 'Z' {
        ((c as u32) + 32) as char
    } else {
        c
    }
}

pub open spec fn is_ascii_char(c: char) -> bool {
    (c as u32) < 128
}

/// The weekday a lower-case name stands for, English or German, in full or
/// short (Monday = 0).
pub open spec fn weekday_of_lower(l: Seq<char>) -> Option<u32> {
    if l == "monday"@ || l == "mon"@ || l == "montag"@ || l == "mo"@ {
        Some(0)
    } else if l == "tuesday"@ || l == "tue"@ || l == "dienstag"@ || l == "di"@ {
        Some(1)
    } else if l == "wednesday"@ || l == "wed"@ || l == "mittwoch"@ || l == "mi"@ {
        Some(2)
    } else if l == "thursday"@ || l == "thu"@ || l == "donnerstag"@ || l == "do"@ {
        Some(3)
    } else if l == "friday"@ || l == "fri"@ || l == "freitag"@ || l == "fr"@ {
        Some(4)
    } else if l == "saturday"@ || l == "sat"@ || l == "samstag"@ || l == "sa"@ {
        Some(5)
    } else if l == "sunday"@ || l == "sun"@ || l == "sonntag"@ || l == "so"@ {
        Some(6)
    } else {
        None
    }
}

/// The weekday a name stands for, in any case. Every name in the table is
/// ASCII, and no character outside ASCII lowers to one that could complete a
/// name of it (the Kelvin sign lowers to `k`, which no name holds), so a name
/// with such a character stands for no weekday.
pub open spec fn weekday_of_name(s: Seq<char>) -> Option<u32> {
    if forall|i: int| 0 <= i < s.len() ==> is_ascii_char(#[trigger] s[i]) {
        weekday_of_lower(s.map_values(|c: char| ascii_lower(c)))
    } else {
        None
    }
}

fn lower_char(c: char) -> (r: char)
    ensures
        r == ascii_lower(c),
{
    if 'A' <= c && c <= 'Z' {
        let v: u8 = ((c as u32) + 32) as u8;
        v as char
    } else {
        c
    }
}

fn eq_any(l: &String, a: &str, b: &str, c: &str, d: &str) -> (r: bool)
    ensures
        r == (l@ == a@ || l@ == b@ || l@ == c@ || l@ == d@),
{
    *l == a.to_owned() || *l == b.to_owned() || *l == c.to_owned() || *l == d.to_owned()
}

/// The weekday a name stands for, in any case: English or German, in full or
/// short (Monday = 0).
pub fn parse_weekday(s: &str) -> (r: Option<u32>)
    ensures
        r == weekday_of_name(s@),
{
    let n = s.unicode_len();
    let mut lower = String::new();
    let mut i: usize = 0;
    while i < n
        invariant
            n == s@.len(),
            i <= n,
            lower@ == s@.take(i as int).map_values(|c: char| ascii_lower(c)),
            forall|j: int| 0 <= j < i ==> is_ascii_char(#[trigger] s@[j]),
        decreases n - i,
    {
        let c = s.get_char(i);
        if (c as u32) >= 128 {
            return None;
        }
        push_char(&mut lower, lower_char(c));
        assert(lower@ =~= s@.take(i + 1).map_values(|c: char| ascii_lower(c)));
        i = i + 1;
    }
    assert(s@.take(n as int) =~= s@);
    if eq_any(&lower, "monday", "mon", "montag", "mo") {
        Some(0)
    } else if eq_any(&lower, "tuesday", "tue", "dienstag", "di") {
        Some(1)
    } else if eq_any(&lower, "wednesday", "wed", "mittwoch", "mi") {
        Some(2)
    } else if eq_any(&lower, "thursday", "thu", "donnerstag", "do") {
        Some(3)
    } else if eq_any(&lower, "friday", "fri", "freitag", "fr") {
        Some(4)
    } else if eq_any(&lower, "saturday", "sat", "samstag", "sa") {
        Some(5)
    } else if eq_any(&lower, "sunday", "sun", "sonntag", "so") {
        Some(6)
    } else {
        None
    }
}

/// Why a day asked for does not exist.
#[derive(Debug)]
pub enum ResolveError {
    /// The day name stands for no weekday.
    UnknownWeekday { day: String },
    /// The weekday does not exist in that week of that year.
    InvalidDate { year: i32, week: u32, day: String },
}

/// The day asked for: today without a day name; else that weekday in week
/// `week` (today's ISO week by default) of `year` (today's year by default).
/// The two extreme years of `i32` hold no such day: the date library covers
/// far fewer years.
pub open spec fn resolved(day: Option<Seq<char>>, week: Option<u32>, year: Option<i32>, today: Date) -> Option<Date> {
    match day {
        None => Some(today),
        Some(name) => match weekday_of_name(name) {
            None => None,
            Some(wd) => {
                let y = match year {
                    Some(y) => y as int,
                    None => today.year as int,
                };
                let w = match week {
                    Some(w) => w as int,
                    None => iso_week_number(today.year as int, today.month as int, today.day as int),
                };
                if y == i32::MIN || y == i32::MAX {
                    None
                } else {
                    match iso_week_date(y, w, wd as int) {
                        Some(t) => Some(Date { year: t.0 as i32, month: t.1 as u32, day: t.2 as u32 }),
                        None => None,
                    }
                }
            },
        },
    }
}

/// Resolves the day that `status` asks for.
pub fn resolve_date(day: Option<String>, week: Option<u32>, year: Option<i32>, today: Date) -> (r: Result<Date, ResolveError>)
    requires
        today.valid(),
    ensures
        match r {
            Ok(d) => resolved(
                match day {
                    Some(s) => Some(s@),
                    None => None,
                },
                week,
                year,
                today,
            ) == Some(d) && d.valid(),
            Err(ResolveError::UnknownWeekday { day: name }) => day matches Some(s) && s@ == name@
                && weekday_of_name(s@) is None,
            Err(ResolveError::InvalidDate { year: y, week: w, day: name }) => day matches Some(s)
                && s@ == name@ && weekday_of_name(s@) is Some && resolved(Some(s@), week, year, today)
                is None && y == match year {
                Some(v) => v,
                None => today.year,
            } && w == match week {
                Some(v) => v as int,
                None => iso_week_number(today.year as int, today.month as int, today.day as int),
            },
        },
{
    match day {
        None => Ok(today),
        Some(day_str) => {
            let wd = match parse_weekday(day_str.as_str()) {
                Some(w) => w,
                None => {
                    return Err(ResolveError::UnknownWeekday { day: day_str });
                },
            };
            let y = match year {
                Some(v) => v,
                None => today.year,
            };
            let w = match week {
                Some(v) => v,
                None => iso_week_of(today),
            };
            assert(wd < 7);
            if y == i32::MIN || y == i32::MAX {
                return Err(ResolveError::InvalidDate { year: y, week: w, day: day_str });
            }
            match date_from_iso_week(y, w, wd) {
                Some(d) => Ok(d),
                None => Err(ResolveError::InvalidDate { year: y, week: w, day: day_str }),
            }
        },
    }
}

/// A name read in any case: `l` is the name with its ASCII capitals lowered,
/// and an ASCII name gives the weekday its lowered form names.
proof fn lemma_parse_lowered(s: Seq<char>, l: Seq<char>)
    requires
        s.map_values(|c: char| ascii_lower(c)) == l,
        forall|i: int| 0 <= i < l.len() ==> (#[trigger] l[i] as u32) < 128,
    ensures
        weekday_of_name(s) == weekday_of_lower(l),
{
    assert forall|i: int| 0 <= i < s.len() implies is_ascii_char(#[trigger] s[i]) by {
        assert(s.map_values(|c: char| ascii_lower(c))[i] == ascii_lower(s[i]));
        assert(l[i] == ascii_lower(s[i]));
    }
}


proof fn lemma_monday_names()
    ensures
        weekday_of_lower("monday"@) == Some(0u32),
        weekday_of_lower("mon"@) == Some(0u32),
        weekday_of_lower("montag"@) == Some(0u32),
        weekday_of_lower("mo"@) == Some(0u32),
        forall|i: int| 0 <= i < "monday"@.len() ==> (#[trigger] "monday"@[i] as u32) < 128,
        forall|i: int| 0 <= i < "mon"@.len() ==> (#[trigger] "mon"@[i] as u32) < 128,
        forall|i: int| 0 <= i < "montag"@.len() ==> (#[trigger] "montag"@[i] as u32) < 128,
        forall|i: int| 0 <= i < "mo"@.len() ==> (#[trigger] "mo"@[i] as u32) < 128,
{
    reveal_strlit("monday");
    reveal_strlit("mon");
    reveal_strlit("montag");
    reveal_strlit("mo");
    reveal_strlit("tuesday");
    reveal_strlit("tue");
    reveal_strlit("dienstag");
    reveal_strlit("di");
    reveal_strlit("wednesday");
    reveal_strlit("wed");
    reveal_strlit("mittwoch");
    reveal_strlit("mi");
    reveal_strlit("thursday");
    reveal_strlit("thu");
    reveal_strlit("donnerstag");
    reveal_strlit("do");
    reveal_strlit("friday");
    reveal_strlit("fri");
    reveal_strlit("freitag");
    reveal_strlit("fr");
    reveal_strlit("saturday");
    reveal_strlit("sat");
    reveal_strlit("samstag");
    reveal_strlit("sa");
    reveal_strlit("sunday");
    reveal_strlit("sun");
    reveal_strlit("sonntag");
    reveal_strlit("so");
    assert(weekday_of_lower("monday"@) == Some(0u32));
    assert(weekday_of_lower("mon"@) == Some(0u32));
    assert(weekday_of_lower("montag"@) == Some(0u32));
    assert(weekday_of_lower("mo"@) == Some(0u32));
}

proof fn lemma_tuesday_names()
    ensures
        weekday_of_lower("tuesday"@) == Some(1u32),
        weekday_of_lower("tue"@) == Some(1u32),
        weekday_of_lower("dienstag"@) == Some(1u32),
        weekday_of_lower("di"@) == Some(1u32),
        forall|i: int| 0 <= i < "tuesday"@.len() ==> (#[trigger] "tuesday"@[i] as u32) < 128,
        forall|i: int| 0 <= i < "tue"@.len() ==> (#[trigger] "tue"@[i] as u32) < 128,
        forall|i: int| 0 <= i < "dienstag"@.len() ==> (#[trigger] "dienstag"@[i] as u32) < 128,
        forall|i: int| 0 <= i < "di"@.len() ==> (#[trigger] "di"@[i] as u32) < 128,
{
    reveal_strlit("monday");
    reveal_strlit("mon");
    reveal_strlit("montag");
    reveal_strlit("mo");
    reveal_strlit("tuesday");
    reveal_strlit("tue");
    reveal_strlit("dienstag");
    reveal_strlit("di");
    reveal_strlit("wednesday");
    reveal_strlit("wed");
    reveal_strlit("mittwoch");
    reveal_strlit("mi");
    reveal_strlit("thursday");
    reveal_strlit("thu");
    reveal_strlit("donnerstag");
    reveal_strlit("do");
    reveal_strlit("friday");
    reveal_strlit("fri");
    reveal_strlit("freitag");
    reveal_strlit("fr");
    reveal_strlit("saturday");
    reveal_strlit("sat");
    reveal_strlit("samstag");
    reveal_strlit("sa");
    reveal_strlit("sunday");
    reveal_strlit("sun");
    reveal_strlit("sonntag");
    reveal_strlit("so");
    assert("tuesday"@.len() != "monday"@.len());
    assert("tuesday"@.len() != "mon"@.len());
    assert("tuesday"@.len() != "montag"@.len());
    assert("tuesday"@.len() != "mo"@.len());
    assert(weekday_of_lower("tuesday"@) == Some(1u32));
    assert("tue"@.len() != "monday"@.len());
    assert("tue"@[0] != "mon"@[0]);
    assert("tue"@.len() != "montag"@.len());
    assert("tue"@.len() != "mo"@.len());
    assert(weekday_of_lower("tue"@) == Some(1u32));
    assert("dienstag"@.len() != "monday"@.len());
    assert("dienstag"@.len() != "mon"@.len());
    assert("dienstag"@.len() != "montag"@.len());
    assert("dienstag"@.len() != "mo"@.len());
    assert(weekday_of_lower("dienstag"@) == Some(1u32));
    assert("di"@.len() != "monday"@.len());
    assert("di"@.len() != "mon"@.len());
    assert("di"@.len() != "montag"@.len());
    assert("di"@[0] != "mo"@[0]);
    assert(weekday_of_lower("di"@) == Some(1u32));
}

proof fn lemma_wednesday_names()
    ensures
        weekday_of_lower("wednesday"@) == Some(2u32),
        weekday_of_lower("wed"@) == Some(2u32),
        weekday_of_lower("mittwoch"@) == Some(2u32),
        weekday_of_lower("mi"@) == Some(2u32),
        forall|i: int| 0 <= i < "wednesday"@.len() ==> (#[trigger] "wednesday"@[i] as u32) < 128,
        forall|i: int| 0 <= i < "wed"@.len() ==> (#[trigger] "wed"@[i] as u32) < 128,
        forall|i: int| 0 <= i < "mittwoch"@.len() ==> (#[trigger] "mittwoch"@[i] as u32) < 128,
        forall|i: int| 0 <= i < "mi"@.len() ==> (#[trigger] "mi"@[i] as u32) < 128,
{
    reveal_strlit("monday");
    reveal_strlit("mon");
    reveal_strlit("montag");
    reveal_strlit("mo");
    reveal_strlit("tuesday");
    reveal_strlit("tue");
    reveal_strlit("dienstag");
    reveal_strlit("di");
    reveal_strlit("wednesday");
    reveal_strlit("wed");
    reveal_strlit("mittwoch");
    reveal_strlit("mi");
    reveal_strlit("thursday");
    reveal_strlit("thu");
    reveal_strlit("donnerstag");
    reveal_strlit("do");
    reveal_strlit("friday");
    reveal_strlit("fri");
    reveal_strlit("freitag");
    reveal_strlit("fr");
    reveal_strlit("saturday");
    reveal_strlit("sat");
    reveal_strlit("samstag");
    reveal_strlit("sa");
    reveal_strlit("sunday");
    reveal_strlit("sun");
    reveal_strlit("sonntag");
    reveal_strlit("so");
    assert("wednesday"@.len() != "monday"@.len());
    assert("wednesday"@.len() != "mon"@.len());
    assert("wednesday"@.len() != "montag"@.len());
    assert("wednesday"@.len() != "mo"@.len());
    assert("wednesday"@.len() != "tuesday"@.len());
    assert("wednesday"@.len() != "tue"@.len());
    assert("wednesday"@.len() != "dienstag"@.len());
    assert("wednesday"@.len() != "di"@.len());
    assert(weekday_of_lower("wednesday"@) == Some(2u32));
    assert("wed"@.len() != "monday"@.len());
    assert("wed"@[0] != "mon"@[0]);
    assert("wed"@.len() != "montag"@.len());
    assert("wed"@.len() != "mo"@.len());
    assert("wed"@.len() != "tuesday"@.len());
    assert("wed"@[0] != "tue"@[0]);
    assert("wed"@.len() != "dienstag"@.len());
    assert("wed"@.len() != "di"@.len());
    assert(weekday_of_lower("wed"@) == Some(2u32));
    assert("mittwoch"@.len() != "monday"@.len());
    assert("mittwoch"@.len() != "mon"@.len());
    assert("mittwoch"@.len() != "montag"@.len());
    assert("mittwoch"@.len() != "mo"@.len());
    assert("mittwoch"@.len() != "tuesday"@.len());
    assert("mittwoch"@.len() != "tue"@.len());
    assert("mittwoch"@[0] != "dienstag"@[0]);
    assert("mittwoch"@.len() != "di"@.len());
    assert(weekday_of_lower("mittwoch"@) == Some(2u32));
    assert("mi"@.len() != "monday"@.len());
    assert("mi"@.len() != "mon"@.len());
    assert("mi"@.len() != "montag"@.len());
    assert("mi"@[1] != "mo"@[1]);
    assert("mi"@.len() != "tuesday"@.len());
    assert("mi"@.len() != "tue"@.len());
    assert("mi"@.len() != "dienstag"@.len());
    assert("mi"@[0] != "di"@[0]);
    assert(weekday_of_lower("mi"@) == Some(2u32));
}

proof fn lemma_thursday_names()
    ensures
        weekday_of_lower("thursday"@) == Some(3u32),
        weekday_of_lower("thu"@) == Some(3u32),
        weekday_of_lower("donnerstag"@) == Some(3u32),
        weekday_of_lower("do"@) == Some(3u32),
        forall|i: int| 0 <= i < "thursday"@.len() ==> (#[trigger] "thursday"@[i] as u32) < 128,
        forall|i: int| 0 <= i < "thu"@.len() ==> (#[trigger] "thu"@[i] as u32) < 128,
        forall|i: int| 0 <= i < "donnerstag"@.len() ==> (#[trigger] "donnerstag"@[i] as u32) < 128,
        forall|i: int| 0 <= i < "do"@.len() ==> (#[trigger] "do"@[i] as u32) < 128,
{
    reveal_strlit("monday");
    reveal_strlit("mon");
    reveal_strlit("montag");
    reveal_strlit("mo");
    reveal_strlit("tuesday");
    reveal_strlit("tue");
    reveal_strlit("dienstag");
    reveal_strlit("di");
    reveal_strlit("wednesday");
    reveal_strlit("wed");
    reveal_strlit("mittwoch");
    reveal_strlit("mi");
    reveal_strlit("thursday");
    reveal_strlit("thu");
    reveal_strlit("donnerstag");
    reveal_strlit("do");
    reveal_strlit("friday");
    reveal_strlit("fri");
    reveal_strlit("freitag");
    reveal_strlit("fr");
    reveal_strlit("saturday");
    reveal_strlit("sat");
    reveal_strlit("samstag");
    reveal_strlit("sa");
    reveal_strlit("sunday");
    reveal_strlit("sun");
    reveal_strlit("sonntag");
    reveal_strlit("so");
    assert("thursday"@.len() != "monday"@.len());
    assert("thursday"@.len() != "mon"@.len());
    assert("thursday"@.len() != "montag"@.len());
    assert("thursday"@.len() != "mo"@.len());
    assert("thursday"@.len() != "tuesday"@.len());
    assert("thursday"@.len() != "tue"@.len());
    assert("thursday"@[0] != "dienstag"@[0]);
    assert("thursday"@.len() != "di"@.len());
    assert("thursday"@.len() != "wednesday"@.len());
    assert("thursday"@.len() != "wed"@.len());
    assert("thursday"@[0] != "mittwoch"@[0]);
    assert("thursday"@.len() != "mi"@.len());
    assert(weekday_of_lower("thursday"@) == Some(3u32));
    assert("thu"@.len() != "monday"@.len());
    assert("thu"@[0] != "mon"@[0]);
    assert("thu"@.len() != "montag"@.len());
    assert("thu"@.len() != "mo"@.len());
    assert("thu"@.len() != "tuesday"@.len());
    assert("thu"@[1] != "tue"@[1]);
    assert("thu"@.len() != "dienstag"@.len());
    assert("thu"@.len() != "di"@.len());
    assert("thu"@.len() != "wednesday"@.len());
    assert("thu"@[0] != "wed"@[0]);
    assert("thu"@.len() != "mittwoch"@.len());
    assert("thu"@.len() != "mi"@.len());
    assert(weekday_of_lower("thu"@) == Some(3u32));
    assert("donnerstag"@.len() != "monday"@.len());
    assert("donnerstag"@.len() != "mon"@.len());
    assert("donnerstag"@.len() != "montag"@.len());
    assert("donnerstag"@.len() != "mo"@.len());
    assert("donnerstag"@.len() != "tuesday"@.len());
    assert("donnerstag"@.len() != "tue"@.len());
    assert("donnerstag"@.len() != "dienstag"@.len());
    assert("donnerstag"@.len() != "di"@.len());
    assert("donnerstag"@.len() != "wednesday"@.len());
    assert("donnerstag"@.len() != "wed"@.len());
    assert("donnerstag"@.len() != "mittwoch"@.len());
    assert("donnerstag"@.len() != "mi"@.len());
    assert(weekday_of_lower("donnerstag"@) == Some(3u32));
    assert("do"@.len() != "monday"@.len());
    assert("do"@.len() != "mon"@.len());
    assert("do"@.len() != "montag"@.len());
    assert("do"@[0] != "mo"@[0]);
    assert("do"@.len() != "tuesday"@.len());
    assert("do"@.len() != "tue"@.len());
    assert("do"@.len() != "dienstag"@.len());
    assert("do"@[1] != "di"@[1]);
    assert("do"@.len() != "wednesday"@.len());
    assert("do"@.len() != "wed"@.len());
    assert("do"@.len() != "mittwoch"@.len());
    assert("do"@[0] != "mi"@[0]);
    assert(weekday_of_lower("do"@) == Some(3u32));
}

proof fn lemma_friday_names()
    ensures
        weekday_of_lower("friday"@) == Some(4u32),
        weekday_of_lower("fri"@) == Some(4u32),
        weekday_of_lower("freitag"@) == Some(4u32),
        weekday_of_lower("fr"@) == Some(4u32),
        forall|i: int| 0 <= i < "friday"@.len() ==> (#[trigger] "friday"@[i] as u32) < 128,
        forall|i: int| 0 <= i < "fri"@.len() ==> (#[trigger] "fri"@[i] as u32) < 128,
        forall|i: int| 0 <= i < "freitag"@.len() ==> (#[trigger] "freitag"@[i] as u32) < 128,
        forall|i: int| 0 <= i < "fr"@.len() ==> (#[trigger] "fr"@[i] as u32) < 128,
{
    reveal_strlit("monday");
    reveal_strlit("mon");
    reveal_strlit("montag");
    reveal_strlit("mo");
    reveal_strlit("tuesday");
    reveal_strlit("tue");
    reveal_strlit("dienstag");
    reveal_strlit("di");
    reveal_strlit("wednesday");
    reveal_strlit("wed");
    reveal_strlit("mittwoch");
    reveal_strlit("mi");
    reveal_strlit("thursday");
    reveal_strlit("thu");
    reveal_strlit("donnerstag");
    reveal_strlit("do");
    reveal_strlit("friday");
    reveal_strlit("fri");
    reveal_strlit("freitag");
    reveal_strlit("fr");
    reveal_strlit("saturday");
    reveal_strlit("sat");
    reveal_strlit("samstag");
    reveal_strlit("sa");
    reveal_strlit("sunday");
    reveal_strlit("sun");
    reveal_strlit("sonntag");
    reveal_strlit("so");
    assert("friday"@[0] != "monday"@[0]);
    assert("friday"@.len() != "mon"@.len());
    assert("friday"@[0] != "montag"@[0]);
    assert("friday"@.len() != "mo"@.len());
    assert("friday"@.len() != "tuesday"@.len());
    assert("friday"@.len() != "tue"@.len());
    assert("friday"@.len() != "dienstag"@.len());
    assert("friday"@.len() != "di"@.len());
    assert("friday"@.len() != "wednesday"@.len());
    assert("friday"@.len() != "wed"@.len());
    assert("friday"@.len() != "mittwoch"@.len());
    assert("friday"@.len() != "mi"@.len());
    assert("friday"@.len() != "thursday"@.len());
    assert("friday"@.len() != "thu"@.len());
    assert("friday"@.len() != "donnerstag"@.len());
    assert("friday"@.len() != "do"@.len());
    assert(weekday_of_lower("friday"@) == Some(4u32));
    assert("fri"@.len() != "monday"@.len());
    assert("fri"@[0] != "mon"@[0]);
    assert("fri"@.len() != "montag"@.len());
    assert("fri"@.len() != "mo"@.len());
    assert("fri"@.len() != "tuesday"@.len());
    assert("fri"@[0] != "tue"@[0]);
    assert("fri"@.len() != "dienstag"@.len());
    assert("fri"@.len() != "di"@.len());
    assert("fri"@.len() != "wednesday"@.len());
    assert("fri"@[0] != "wed"@[0]);
    assert("fri"@.len() != "mittwoch"@.len());
    assert("fri"@.len() != "mi"@.len());
    assert("fri"@.len() != "thursday"@.len());
    assert("fri"@[0] != "thu"@[0]);
    assert("fri"@.len() != "donnerstag"@.len());
    assert("fri"@.len() != "do"@.len());
    assert(weekday_of_lower("fri"@) == Some(4u32));
    assert("freitag"@.len() != "monday"@.len());
    assert("freitag"@.len() != "mon"@.len());
    assert("freitag"@.len() != "montag"@.len());
    assert("freitag"@.len() != "mo"@.len());
    assert("freitag"@[0] != "tuesday"@[0]);
    assert("freitag"@.len() != "tue"@.len());
    assert("freitag"@.len() != "dienstag"@.len());
    assert("freitag"@.len() != "di"@.len());
    assert("freitag"@.len() != "wednesday"@.len());
    assert("freitag"@.len() != "wed"@.len());
    assert("freitag"@.len() != "mittwoch"@.len());
    assert("freitag"@.len() != "mi"@.len());
    assert("freitag"@.len() != "thursday"@.len());
    assert("freitag"@.len() != "thu"@.len());
    assert("freitag"@.len() != "donnerstag"@.len());
    assert("freitag"@.len() != "do"@.len());
    assert(weekday_of_lower("freitag"@) == Some(4u32));
    assert("fr"@.len() != "monday"@.len());
    assert("fr"@.len() != "mon"@.len());
    assert("fr"@.len() != "montag"@.len());
    assert("fr"@[0] != "mo"@[0]);
    assert("fr"@.len() != "tuesday"@.len());
    assert("fr"@.len() != "tue"@.len());
    assert("fr"@.len() != "dienstag"@.len());
    assert("fr"@[0] != "di"@[0]);
    assert("fr"@.len() != "wednesday"@.len());
    assert("fr"@.len() != "wed"@.len());
    assert("fr"@.len() != "mittwoch"@.len());
    assert("fr"@[0] != "mi"@[0]);
    assert("fr"@.len() != "thursday"@.len());
    assert("fr"@.len() != "thu"@.len());
    assert("fr"@.len() != "donnerstag"@.len());
    assert("fr"@[0] != "do"@[0]);
    assert(weekday_of_lower("fr"@) == Some(4u32));
}

proof fn lemma_saturday_names()
    ensures
        weekday_of_lower("saturday"@) == Some(5u32),
        weekday_of_lower("sat"@) == Some(5u32),
        weekday_of_lower("samstag"@) == Some(5u32),
        weekday_of_lower("sa"@) == Some(5u32),
        forall|i: int| 0 <= i < "saturday"@.len() ==> (#[trigger] "saturday"@[i] as u32) < 128,
        forall|i: int| 0 <= i < "sat"@.len() ==> (#[trigger] "sat"@[i] as u32) < 128,
        forall|i: int| 0 <= i < "samstag"@.len() ==> (#[trigger] "samstag"@[i] as u32) < 128,
        forall|i: int| 0 <= i < "sa"@.len() ==> (#[trigger] "sa"@[i] as u32) < 128,
{
    reveal_strlit("monday");
    reveal_strlit("mon");
    reveal_strlit("montag");
    reveal_strlit("mo");
    reveal_strlit("tuesday");
    reveal_strlit("tue");
    reveal_strlit("dienstag");
    reveal_strlit("di");
    reveal_strlit("wednesday");
    reveal_strlit("wed");
    reveal_strlit("mittwoch");
    reveal_strlit("mi");
    reveal_strlit("thursday");
    reveal_strlit("thu");
    reveal_strlit("donnerstag");
    reveal_strlit("do");
    reveal_strlit("friday");
    reveal_strlit("fri");
    reveal_strlit("freitag");
    reveal_strlit("fr");
    reveal_strlit("saturday");
    reveal_strlit("sat");
    reveal_strlit("samstag");
    reveal_strlit("sa");
    reveal_strlit("sunday");
    reveal_strlit("sun");
    reveal_strlit("sonntag");
    reveal_strlit("so");
    assert("saturday"@.len() != "monday"@.len());
    assert("saturday"@.len() != "mon"@.len());
    assert("saturday"@.len() != "montag"@.len());
    assert("saturday"@.len() != "mo"@.len());
    assert("saturday"@.len() != "tuesday"@.len());
    assert("saturday"@.len() != "tue"@.len());
    assert("saturday"@[0] != "dienstag"@[0]);
    assert("saturday"@.len() != "di"@.len());
    assert("saturday"@.len() != "wednesday"@.len());
    assert("saturday"@.len() != "wed"@.len());
    assert("saturday"@[0] != "mittwoch"@[0]);
    assert("saturday"@.len() != "mi"@.len());
    assert("saturday"@[0] != "thursday"@[0]);
    assert("saturday"@.len() != "thu"@.len());
    assert("saturday"@.len() != "donnerstag"@.len());
    assert("saturday"@.len() != "do"@.len());
    assert("saturday"@.len() != "friday"@.len());
    assert("saturday"@.len() != "fri"@.len());
    assert("saturday"@.len() != "freitag"@.len());
    assert("saturday"@.len() != "fr"@.len());
    assert(weekday_of_lower("saturday"@) == Some(5u32));
    assert("sat"@.len() != "monday"@.len());
    assert("sat"@[0] != "mon"@[0]);
    assert("sat"@.len() != "montag"@.len());
    assert("sat"@.len() != "mo"@.len());
    assert("sat"@.len() != "tuesday"@.len());
    assert("sat"@[0] != "tue"@[0]);
    assert("sat"@.len() != "dienstag"@.len());
    assert("sat"@.len() != "di"@.len());
    assert("sat"@.len() != "wednesday"@.len());
    assert("sat"@[0] != "wed"@[0]);
    assert("sat"@.len() != "mittwoch"@.len());
    assert("sat"@.len() != "mi"@.len());
    assert("sat"@.len() != "thursday"@.len());
    assert("sat"@[0] != "thu"@[0]);
    assert("sat"@.len() != "donnerstag"@.len());
    assert("sat"@.len() != "do"@.len());
    assert("sat"@.len() != "friday"@.len());
    assert("sat"@[0] != "fri"@[0]);
    assert("sat"@.len() != "freitag"@.len());
    assert("sat"@.len() != "fr"@.len());
    assert(weekday_of_lower("sat"@) == Some(5u32));
    assert("samstag"@.len() != "monday"@.len());
    assert("samstag"@.len() != "mon"@.len());
    assert("samstag"@.len() != "montag"@.len());
    assert("samstag"@.len() != "mo"@.len());
    assert("samstag"@[0] != "tuesday"@[0]);
    assert("samstag"@.len() != "tue"@.len());
    assert("samstag"@.len() != "dienstag"@.len());
    assert("samstag"@.len() != "di"@.len());
    assert("samstag"@.len() != "wednesday"@.len());
    assert("samstag"@.len() != "wed"@.len());
    assert("samstag"@.len() != "mittwoch"@.len());
    assert("samstag"@.len() != "mi"@.len());
    assert("samstag"@.len() != "thursday"@.len());
    assert("samstag"@.len() != "thu"@.len());
    assert("samstag"@.len() != "donnerstag"@.len());
    assert("samstag"@.len() != "do"@.len());
    assert("samstag"@.len() != "friday"@.len());
    assert("samstag"@.len() != "fri"@.len());
    assert("samstag"@[0] != "freitag"@[0]);
    assert("samstag"@.len() != "fr"@.len());
    assert(weekday_of_lower("samstag"@) == Some(5u32));
    assert("sa"@.len() != "monday"@.len());
    assert("sa"@.len() != "mon"@.len());
    assert("sa"@.len() != "montag"@.len());
    assert("sa"@[0] != "mo"@[0]);
    assert("sa"@.len() != "tuesday"@.len());
    assert("sa"@.len() != "tue"@.len());
    assert("sa"@.len() != "dienstag"@.len());
    assert("sa"@[0] != "di"@[0]);
    assert("sa"@.len() != "wednesday"@.len());
    assert("sa"@.len() != "wed"@.len());
    assert("sa"@.len() != "mittwoch"@.len());
    assert("sa"@[0] != "mi"@[0]);
    assert("sa"@.len() != "thursday"@.len());
    assert("sa"@.len() != "thu"@.len());
    assert("sa"@.len() != "donnerstag"@.len());
    assert("sa"@[0] != "do"@[0]);
    assert("sa"@.len() != "friday"@.len());
    assert("sa"@.len() != "fri"@.len());
    assert("sa"@.len() != "freitag"@.len());
    assert("sa"@[0] != "fr"@[0]);
    assert(weekday_of_lower("sa"@) == Some(5u32));
}

proof fn lemma_sunday_names()
    ensures
        weekday_of_lower("sunday"@) == Some(6u32),
        weekday_of_lower("sun"@) == Some(6u32),
        weekday_of_lower("sonntag"@) == Some(6u32),
        weekday_of_lower("so"@) == Some(6u32),
        forall|i: int| 0 <= i < "sunday"@.len() ==> (#[trigger] "sunday"@[i] as u32) < 128,
        forall|i: int| 0 <= i < "sun"@.len() ==> (#[trigger] "sun"@[i] as u32) < 128,
        forall|i: int| 0 <= i < "sonntag"@.len() ==> (#[trigger] "sonntag"@[i] as u32) < 128,
        forall|i: int| 0 <= i < "so"@.len() ==> (#[trigger] "so"@[i] as u32) < 128,
{
    reveal_strlit("monday");
    reveal_strlit("mon");
    reveal_strlit("montag");
    reveal_strlit("mo");
    reveal_strlit("tuesday");
    reveal_strlit("tue");
    reveal_strlit("dienstag");
    reveal_strlit("di");
    reveal_strlit("wednesday");
    reveal_strlit("wed");
    reveal_strlit("mittwoch");
    reveal_strlit("mi");
    reveal_strlit("thursday");
    reveal_strlit("thu");
    reveal_strlit("donnerstag");
    reveal_strlit("do");
    reveal_strlit("friday");
    reveal_strlit("fri");
    reveal_strlit("freitag");
    reveal_strlit("fr");
    reveal_strlit("saturday");
    reveal_strlit("sat");
    reveal_strlit("samstag");
    reveal_strlit("sa");
    reveal_strlit("sunday");
    reveal_strlit("sun");
    reveal_strlit("sonntag");
    reveal_strlit("so");
    assert("sunday"@[0] != "monday"@[0]);
    assert("sunday"@.len() != "mon"@.len());
    assert("sunday"@[0] != "montag"@[0]);
    assert("sunday"@.len() != "mo"@.len());
    assert("sunday"@.len() != "tuesday"@.len());
    assert("sunday"@.len() != "tue"@.len());
    assert("sunday"@.len() != "dienstag"@.len());
    assert("sunday"@.len() != "di"@.len());
    assert("sunday"@.len() != "wednesday"@.len());
    assert("sunday"@.len() != "wed"@.len());
    assert("sunday"@.len() != "mittwoch"@.len());
    assert("sunday"@.len() != "mi"@.len());
    assert("sunday"@.len() != "thursday"@.len());
    assert("sunday"@.len() != "thu"@.len());
    assert("sunday"@.len() != "donnerstag"@.len());
    assert("sunday"@.len() != "do"@.len());
    assert("sunday"@[0] != "friday"@[0]);
    assert("sunday"@.len() != "fri"@.len());
    assert("sunday"@.len() != "freitag"@.len());
    assert("sunday"@.len() != "fr"@.len());
    assert("sunday"@.len() != "saturday"@.len());
    assert("sunday"@.len() != "sat"@.len());
    assert("sunday"@.len() != "samstag"@.len());
    assert("sunday"@.len() != "sa"@.len());
    assert(weekday_of_lower("sunday"@) == Some(6u32));
    assert("sun"@.len() != "monday"@.len());
    assert("sun"@[0] != "mon"@[0]);
    assert("sun"@.len() != "montag"@.len());
    assert("sun"@.len() != "mo"@.len());
    assert("sun"@.len() != "tuesday"@.len());
    assert("sun"@[0] != "tue"@[0]);
    assert("sun"@.len() != "dienstag"@.len());
    assert("sun"@.len() != "di"@.len());
    assert("sun"@.len() != "wednesday"@.len());
    assert("sun"@[0] != "wed"@[0]);
    assert("sun"@.len() != "mittwoch"@.len());
    assert("sun"@.len() != "mi"@.len());
    assert("sun"@.len() != "thursday"@.len());
    assert("sun"@[0] != "thu"@[0]);
    assert("sun"@.len() != "donnerstag"@.len());
    assert("sun"@.len() != "do"@.len());
    assert("sun"@.len() != "friday"@.len());
    assert("sun"@[0] != "fri"@[0]);
    assert("sun"@.len() != "freitag"@.len());
    assert("sun"@.len() != "fr"@.len());
    assert("sun"@.len() != "saturday"@.len());
    assert("sun"@[1] != "sat"@[1]);
    assert("sun"@.len() != "samstag"@.len());
    assert("sun"@.len() != "sa"@.len());
    assert(weekday_of_lower("sun"@) == Some(6u32));
    assert("sonntag"@.len() != "monday"@.len());
    assert("sonntag"@.len() != "mon"@.len());
    assert("sonntag"@.len() != "montag"@.len());
    assert("sonntag"@.len() != "mo"@.len());
    assert("sonntag"@[0] != "tuesday"@[0]);
    assert("sonntag"@.len() != "tue"@.len());
    assert("sonntag"@.len() != "dienstag"@.len());
    assert("sonntag"@.len() != "di"@.len());
    assert("sonntag"@.len() != "wednesday"@.len());
    assert("sonntag"@.len() != "wed"@.len());
    assert("sonntag"@.len() != "mittwoch"@.len());
    assert("sonntag"@.len() != "mi"@.len());
    assert("sonntag"@.len() != "thursday"@.len());
    assert("sonntag"@.len() != "thu"@.len());
    assert("sonntag"@.len() != "donnerstag"@.len());
    assert("sonntag"@.len() != "do"@.len());
    assert("sonntag"@.len() != "friday"@.len());
    assert("sonntag"@.len() != "fri"@.len());
    assert("sonntag"@[0] != "freitag"@[0]);
    assert("sonntag"@.len() != "fr"@.len());
    assert("sonntag"@.len() != "saturday"@.len());
    assert("sonntag"@.len() != "sat"@.len());
    assert("sonntag"@[1] != "samstag"@[1]);
    assert("sonntag"@.len() != "sa"@.len());
    assert(weekday_of_lower("sonntag"@) == Some(6u32));
    assert("so"@.len() != "monday"@.len());
    assert("so"@.len() != "mon"@.len());
    assert("so"@.len() != "montag"@.len());
    assert("so"@[0] != "mo"@[0]);
    assert("so"@.len() != "tuesday"@.len());
    assert("so"@.len() != "tue"@.len());
    assert("so"@.len() != "dienstag"@.len());
    assert("so"@[0] != "di"@[0]);
    assert("so"@.len() != "wednesday"@.len());
    assert("so"@.len() != "wed"@.len());
    assert("so"@.len() != "mittwoch"@.len());
    assert("so"@[0] != "mi"@[0]);
    assert("so"@.len() != "thursday"@.len());
    assert("so"@.len() != "thu"@.len());
    assert("so"@.len() != "donnerstag"@.len());
    assert("so"@[0] != "do"@[0]);
    assert("so"@.len() != "friday"@.len());
    assert("so"@.len() != "fri"@.len());
    assert("so"@.len() != "freitag"@.len());
    assert("so"@[0] != "fr"@[0]);
    assert("so"@.len() != "saturday"@.len());
    assert("so"@.len() != "sat"@.len());
    assert("so"@.len() != "samstag"@.len());
    assert("so"@[1] != "sa"@[1]);
    assert(weekday_of_lower("so"@) == Some(6u32));
}

/// Every way of writing Monday that `status` reads — "monday", "mon",
/// "montag" or "mo", in any case — gives weekday 0 (Monday = 0).
pub proof fn law_monday_parses(s: Seq<char>)
    requires
        ({
            let l = s.map_values(|c: char| ascii_lower(c));
            l == "monday"@ || l == "mon"@ || l == "montag"@ || l == "mo"@
        }),
    ensures
        weekday_of_name(s) == Some(0u32),
{
    lemma_monday_names();
    let l = s.map_values(|c: char| ascii_lower(c));
    lemma_parse_lowered(s, l);
}

/// Every way of writing Tuesday that `status` reads — "tuesday", "tue",
/// "dienstag" or "di", in any case — gives weekday 1 (Monday = 0).
pub proof fn law_tuesday_parses(s: Seq<char>)
    requires
        ({
            let l = s.map_values(|c: char| ascii_lower(c));
            l == "tuesday"@ || l == "tue"@ || l == "dienstag"@ || l == "di"@
        }),
    ensures
        weekday_of_name(s) == Some(1u32),
{
    lemma_tuesday_names();
    let l = s.map_values(|c: char| ascii_lower(c));
    lemma_parse_lowered(s, l);
}

/// Every way of writing Wednesday that `status` reads — "wednesday", "wed",
/// "mittwoch" or "mi", in any case — gives weekday 2 (Monday = 0).
pub proof fn law_wednesday_parses(s: Seq<char>)
    requires
        ({
            let l = s.map_values(|c: char| ascii_lower(c));
            l == "wednesday"@ || l == "wed"@ || l == "mittwoch"@ || l == "mi"@
        }),
    ensures
        weekday_of_name(s) == Some(2u32),
{
    lemma_wednesday_names();
    let l = s.map_values(|c: char| ascii_lower(c));
    lemma_parse_lowered(s, l);
}

/// Every way of writing Thursday that `status` reads — "thursday", "thu",
/// "donnerstag" or "do", in any case — gives weekday 3 (Monday = 0).
pub proof fn law_thursday_parses(s: Seq<char>)
    requires
        ({
            let l = s.map_values(|c: char| ascii_lower(c));
            l == "thursday"@ || l == "thu"@ || l == "donnerstag"@ || l == "do"@
        }),
    ensures
        weekday_of_name(s) == Some(3u32),
{
    lemma_thursday_names();
    let l = s.map_values(|c: char| ascii_lower(c));
    lemma_parse_lowered(s, l);
}

/// Every way of writing Friday that `status` reads — "friday", "fri",
/// "freitag" or "fr", in any case — gives weekday 4 (Monday = 0).
pub proof fn law_friday_parses(s: Seq<char>)
    requires
        ({
            let l = s.map_values(|c: char| ascii_lower(c));
            l == "friday"@ || l == "fri"@ || l == "freitag"@ || l == "fr"@
        }),
    ensures
        weekday_of_name(s) == Some(4u32),
{
    lemma_friday_names();
    let l = s.map_values(|c: char| ascii_lower(c));
    lemma_parse_lowered(s, l);
}

/// Every way of writing Saturday that `status` reads — "saturday", "sat",
/// "samstag" or "sa", in any case — gives weekday 5 (Monday = 0).
pub proof fn law_saturday_parses(s: Seq<char>)
    requires
        ({
            let l = s.map_values(|c: char| ascii_lower(c));
            l == "saturday"@ || l == "sat"@ || l == "samstag"@ || l == "sa"@
        }),
    ensures
        weekday_of_name(s) == Some(5u32),
{
    lemma_saturday_names();
    let l = s.map_values(|c: char| ascii_lower(c));
    lemma_parse_lowered(s, l);
}

/// Every way of writing Sunday that `status` reads — "sunday", "sun",
/// "sonntag" or "so", in any case — gives weekday 6 (Monday = 0).
pub proof fn law_sunday_parses(s: Seq<char>)
    requires
        ({
            let l = s.map_values(|c: char| ascii_lower(c));
            l == "sunday"@ || l == "sun"@ || l == "sonntag"@ || l == "so"@
        }),
    ensures
        weekday_of_name(s) == Some(6u32),
{
    lemma_sunday_names();
    let l = s.map_values(|c: char| ascii_lower(c));
    lemma_parse_lowered(s, l);
}

/// The weekdays are shown by their English names, Monday (0) to Sunday
/// (6); and each name shown, in full or cut to its first three letters,
/// reads back as the same weekday.
pub proof fn law_weekday_names_read_back()
    ensures
        weekday_name(0) == "Monday"@,
        weekday_name(1) == "Tuesday"@,
        weekday_name(2) == "Wednesday"@,
        weekday_name(3) == "Thursday"@,
        weekday_name(4) == "Friday"@,
        weekday_name(5) == "Saturday"@,
        weekday_name(6) == "Sunday"@,
        forall|w: int| 0 <= w < 7 ==> weekday_of_name(#[trigger] weekday_name(w)) == Some(w as u32),
        forall|w: int| 0 <= w < 7 ==> weekday_of_name(#[trigger] weekday_name(w).take(3)) == Some(w as u32),
{
    reveal_strlit("monday");
    reveal_strlit("mon");
    reveal_strlit("montag");
    reveal_strlit("mo");
    reveal_strlit("tuesday");
    reveal_strlit("tue");
    reveal_strlit("dienstag");
    reveal_strlit("di");
    reveal_strlit("wednesday");
    reveal_strlit("wed");
    reveal_strlit("mittwoch");
    reveal_strlit("mi");
    reveal_strlit("thursday");
    reveal_strlit("thu");
    reveal_strlit("donnerstag");
    reveal_strlit("do");
    reveal_strlit("friday");
    reveal_strlit("fri");
    reveal_strlit("freitag");
    reveal_strlit("fr");
    reveal_strlit("saturday");
    reveal_strlit("sat");
    reveal_strlit("samstag");
    reveal_strlit("sa");
    reveal_strlit("sunday");
    reveal_strlit("sun");
    reveal_strlit("sonntag");
    reveal_strlit("so");
    reveal_strlit("Monday");
    reveal_strlit("Tuesday");
    reveal_strlit("Wednesday");
    reveal_strlit("Thursday");
    reveal_strlit("Friday");
    reveal_strlit("Saturday");
    reveal_strlit("Sunday");
    reveal_strlit("Mon");
    reveal_strlit("Tue");
    reveal_strlit("Wed");
    reveal_strlit("Thu");
    reveal_strlit("Fri");
    reveal_strlit("Sat");
    reveal_strlit("Sun");
    assert("Monday"@.map_values(|c: char| ascii_lower(c)) =~= "monday"@);
    law_monday_parses("Monday"@);
    assert("Monday"@.take(3).map_values(|c: char| ascii_lower(c)) =~= "mon"@);
    law_monday_parses("Monday"@.take(3));
    assert("Tuesday"@.map_values(|c: char| ascii_lower(c)) =~= "tuesday"@);
    law_tuesday_parses("Tuesday"@);
    assert("Tuesday"@.take(3).map_values(|c: char| ascii_lower(c)) =~= "tue"@);
    law_tuesday_parses("Tuesday"@.take(3));
    assert("Wednesday"@.map_values(|c: char| ascii_lower(c)) =~= "wednesday"@);
    law_wednesday_parses("Wednesday"@);
    assert("Wednesday"@.take(3).map_values(|c: char| ascii_lower(c)) =~= "wed"@);
    law_wednesday_parses("Wednesday"@.take(3));
    assert("Thursday"@.map_values(|c: char| ascii_lower(c)) =~= "thursday"@);
    law_thursday_parses("Thursday"@);
    assert("Thursday"@.take(3).map_values(|c: char| ascii_lower(c)) =~= "thu"@);
    law_thursday_parses("Thursday"@.take(3));
    assert("Friday"@.map_values(|c: char| ascii_lower(c)) =~= "friday"@);
    law_friday_parses("Friday"@);
    assert("Friday"@.take(3).map_values(|c: char| ascii_lower(c)) =~= "fri"@);
    law_friday_parses("Friday"@.take(3));
    assert("Saturday"@.map_values(|c: char| ascii_lower(c)) =~= "saturday"@);
    law_saturday_parses("Saturday"@);
    assert("Saturday"@.take(3).map_values(|c: char| ascii_lower(c)) =~= "sat"@);
    law_saturday_parses("Saturday"@.take(3));
    assert("Sunday"@.map_values(|c: char| ascii_lower(c)) =~= "sunday"@);
    law_sunday_parses("Sunday"@);
    assert("Sunday"@.take(3).map_values(|c: char| ascii_lower(c)) =~= "sun"@);
    law_sunday_parses("Sunday"@.take(3));
    assert forall|w: int| 0 <= w < 7 implies weekday_of_name(#[trigger] weekday_name(w)) == Some(w as u32) by {
        if w == 0 {} else if w == 1 {} else if w == 2 {} else if w == 3 {} else if w == 4 {} else if w == 5 {} else {}
    }
    assert forall|w: int| 0 <= w < 7 implies weekday_of_name(#[trigger] weekday_name(w).take(3)) == Some(w as u32) by {
        if w == 0 {} else if w == 1 {} else if w == 2 {} else if w == 3 {} else if w == 4 {} else if w == 5 {} else {}
    }
}

/// The weekday of a date follows the calendar: 1 January 1970 was a
/// Thursday (3), every weekday is one of Monday (0) to Sunday (6), and each
/// next day of a month is the next weekday, Sunday followed by Monday.
pub proof fn law_weekdays_follow_the_calendar(year: int, month: int, day: int)
    requires
        1 <= month <= 12,
    ensures
        weekday_index(1970, 1, 1) == 3,
        0 <= weekday_index(year, month, day) < 7,
        weekday_index(year, month, day + 1) == (weekday_index(year, month, day) + 1) % 7,
{
    assert(days_from_epoch(1970, 1, 1) == 0);
    assert(days_from_epoch(year, month, day + 1) == days_from_epoch(year, month, day) + 1);
}

/// The long form of a date names its weekday in English, then gives the
/// date: on a Friday it reads "Friday, YYYY-MM-DD", on a Saturday
/// "Saturday, ...", and so on for each day of the week.
pub proof fn law_long_date_names_the_weekday(d: Date)
    ensures
        weekday_index(d.year as int, d.month as int, d.day as int) == 0 ==> long_date_text(d) == "Monday, "@ + iso_date_text(d),
        weekday_index(d.year as int, d.month as int, d.day as int) == 1 ==> long_date_text(d) == "Tuesday, "@ + iso_date_text(d),
        weekday_index(d.year as int, d.month as int, d.day as int) == 2 ==> long_date_text(d) == "Wednesday, "@ + iso_date_text(d),
        weekday_index(d.year as int, d.month as int, d.day as int) == 3 ==> long_date_text(d) == "Thursday, "@ + iso_date_text(d),
        weekday_index(d.year as int, d.month as int, d.day as int) == 4 ==> long_date_text(d) == "Friday, "@ + iso_date_text(d),
        weekday_index(d.year as int, d.month as int, d.day as int) == 5 ==> long_date_text(d) == "Saturday, "@ + iso_date_text(d),
        weekday_index(d.year as int, d.month as int, d.day as int) == 6 ==> long_date_text(d) == "Sunday, "@ + iso_date_text(d),
{
    law_weekday_names_read_back();
    reveal_strlit(", ");
    reveal_strlit("Monday, ");
    reveal_strlit("Tuesday, ");
    reveal_strlit("Wednesday, ");
    reveal_strlit("Thursday, ");
    reveal_strlit("Friday, ");
    reveal_strlit("Saturday, ");
    reveal_strlit("Sunday, ");
    reveal_strlit("Monday");
    reveal_strlit("Tuesday");
    reveal_strlit("Wednesday");
    reveal_strlit("Thursday");
    reveal_strlit("Friday");
    reveal_strlit("Saturday");
    reveal_strlit("Sunday");
    let w = weekday_index(d.year as int, d.month as int, d.day as int);
    let rest = iso_date_text(d);
    assert("Monday"@ + ", "@ + rest =~= "Monday, "@ + rest);
    assert("Tuesday"@ + ", "@ + rest =~= "Tuesday, "@ + rest);
    assert("Wednesday"@ + ", "@ + rest =~= "Wednesday, "@ + rest);
    assert("Thursday"@ + ", "@ + rest =~= "Thursday, "@ + rest);
    assert("Friday"@ + ", "@ + rest =~= "Friday, "@ + rest);
    assert("Saturday"@ + ", "@ + rest =~= "Saturday, "@ + rest);
    assert("Sunday"@ + ", "@ + rest =~= "Sunday, "@ + rest);
}

/// Nothing but the names of the weekdays parses: a text gives weekday `k`
/// only when, its capitals lowered, it is one of the English or German
/// names of that day, in full or short.
pub proof fn law_only_weekday_names_parse(s: Seq<char>)
    ensures
        ({
            let l = s.map_values(|c: char| ascii_lower(c));
            &&& weekday_of_name(s) matches Some(k) ==> k < 7
            &&& weekday_of_name(s) == Some(0u32) ==> (l == "monday"@ || l == "mon"@ || l == "montag"@ || l == "mo"@)
            &&& weekday_of_name(s) == Some(1u32) ==> (l == "tuesday"@ || l == "tue"@ || l == "dienstag"@ || l == "di"@)
            &&& weekday_of_name(s) == Some(2u32) ==> (l == "wednesday"@ || l == "wed"@ || l == "mittwoch"@ || l == "mi"@)
            &&& weekday_of_name(s) == Some(3u32) ==> (l == "thursday"@ || l == "thu"@ || l == "donnerstag"@ || l == "do"@)
            &&& weekday_of_name(s) == Some(4u32) ==> (l == "friday"@ || l == "fri"@ || l == "freitag"@ || l == "fr"@)
            &&& weekday_of_name(s) == Some(5u32) ==> (l == "saturday"@ || l == "sat"@ || l == "samstag"@ || l == "sa"@)
            &&& weekday_of_name(s) == Some(6u32) ==> (l == "sunday"@ || l == "sun"@ || l == "sonntag"@ || l == "so"@)
        }),
{
}

} // verus!
