//! Calendar date-times without an offset, their arithmetic and rendering.
//! Conversions to and from `chrono` happen only inside the trusted wrappers
//! at the end of this file.
use vstd::prelude::*;
use chrono::{Datelike, Timelike};
use std::fmt::Write;
use crate::numtext::{int_digits, nat_digits, padded_digits, padded_text, nat_text, int_text};
use crate::strings::{push_char, push_text};
use vstd::arithmetic::div_mod::{lemma_fundamental_div_mod_converse, lemma_mod_multiples_vanish};

verus! {

pub const MIN_YEAR: i32 = -262143;
pub const MAX_YEAR: i32 = 262142;
pub const NANOS_PER_SECOND: u32 = 1_000_000_000;

pub open spec fn is_leap_year(y: int) -> bool {
    y % 4 == 0 && (y % 100 != 0 || y % 400 == 0)
}

/// The number of days in month `m` (1 to 12) of year `y`.
pub open spec fn month_length(y: int, m: int) -> int {
    if m == 2 {
        if is_leap_year(y) {
            29
        } else {
            28
        }
    } else if m == 4 || m == 6 || m == 9 || m == 11 {
        30
    } else {
        31
    }
}

/// A day of the proleptic Gregorian calendar, within the supported years.
pub open spec fn valid_date(y: int, m: int, d: int) -> bool {
    MIN_YEAR <= y <= MAX_YEAR && 1 <= m <= 12 && 1 <= d <= month_length(y, m)
}

/// A wall-clock date and time with no offset.
#[derive(Clone, Copy, PartialEq, Eq, Structural, Debug)]
pub struct DateTime {
    pub year: i32,
    pub month: u32,
    pub day: u32,
    pub hour: u32,
    pub minute: u32,
    pub second: u32,
    pub nano: u32,
}

impl DateTime {
    pub open spec fn wf(&self) -> bool {
        &&& valid_date(self.year as int, self.month as int, self.day as int)
        &&& self.hour < 24
        &&& self.minute < 60
        &&& self.second < 60
        &&& self.nano < NANOS_PER_SECOND
    }

    /// The fields in order of significance, for comparisons.
    pub open spec fn key(&self) -> Seq<int> {
        seq![self.year as int, self.month as int, self.day as int, self.hour as int,
            self.minute as int, self.second as int, self.nano as int]
    }
}

pub open spec fn days_before_year(y: int) -> int {
    let p = y - 1;
    365 * p + p / 4 - p / 100 + p / 400
}

pub open spec fn days_before_month(y: int, m: int) -> int
    decreases m,
{
    if m <= 1 {
        0
    } else {
        days_before_month(y, m - 1) + month_length(y, m - 1)
    }
}

/// The number of the day, counted from the start of year 1.
pub open spec fn day_number(y: int, m: int, d: int) -> int {
    days_before_year(y) + days_before_month(y, m) + d - 1
}

/// The instant of a date-time, in nanoseconds from the start of year 1.
pub open spec fn instant(dt: DateTime) -> int {
    (day_number(dt.year as int, dt.month as int, dt.day as int) * 86400 + dt.hour as int * 3600
        + dt.minute as int * 60 + dt.second as int) * NANOS_PER_SECOND as int + dt.nano as int
}

pub open spec fn first_date() -> DateTime {
    DateTime { year: MIN_YEAR, month: 1, day: 1, hour: 0, minute: 0, second: 0, nano: 0 }
}

pub open spec fn last_date() -> DateTime {
    DateTime { year: MAX_YEAR, month: 12, day: 31, hour: 23, minute: 59, second: 59, nano: 999_999_999 }
}

/// Whether an instant lies within the supported range of date-times.
pub open spec fn representable(i: int) -> bool {
    instant(first_date()) <= i <= instant(last_date())
}

/// Division that rounds toward zero.
pub open spec fn trunc_div(x: int, d: int) -> int {
    if x >= 0 {
        x / d
    } else {
        -((-x) / d)
    }
}

/// Whether `a` sorts before `b`, field by field.
pub open spec fn key_less(a: Seq<int>, b: Seq<int>) -> bool
    decreases a.len(),
{
    if a.len() == 0 || b.len() == 0 {
        false
    } else if a[0] != b[0] {
        a[0] < b[0]
    } else {
        key_less(a.drop_first(), b.drop_first())
    }
}

/// Whether date-time `a` comes before `b`.
pub open spec fn date_before(a: DateTime, b: DateTime) -> bool {
    key_less(a.key(), b.key())
}

pub fn month_length_of(y: i32, m: u32) -> (r: u32)
    requires
        1 <= m <= 12,
    ensures
        r as int == month_length(y as int, m as int),
{
    if m == 2 {
        let yy: i64 = y as i64 + 2147484000;
        proof {
            lemma_mod_multiples_vanish(5368710, y as int, 400);
            lemma_mod_multiples_vanish(21474840, y as int, 100);
            lemma_mod_multiples_vanish(536871000, y as int, 4);
        }
        if yy % 4 == 0 && (yy % 100 != 0 || yy % 400 == 0) {
            29
        } else {
            28
        }
    } else if m == 4 || m == 6 || m == 9 || m == 11 {
        30
    } else {
        31
    }
}

/// Whether the year, month and day name a day of the calendar.
pub fn is_valid_date(y: i64, m: i64, d: i64) -> (r: bool)
    ensures
        r == valid_date(y as int, m as int, d as int),
{
    if y < MIN_YEAR as i64 || y > MAX_YEAR as i64 || m < 1 || m > 12 || d < 1 {
        false
    } else {
        d <= month_length_of(y as i32, m as u32) as i64
    }
}

impl DateTime {
    /// The same date-time in another year, if that day exists there.
    pub fn with_year(&self, year: i64) -> (r: Option<DateTime>)
        requires
            self.wf(),
        ensures
            valid_date(year as int, self.month as int, self.day as int) ==> r == Some(DateTime { year: year as i32, ..*self }),
            !valid_date(year as int, self.month as int, self.day as int) ==> r is None,
    {
        if is_valid_date(year, self.month as i64, self.day as i64) {
            Some(DateTime { year: year as i32, ..*self })
        } else {
            None
        }
    }

    /// Whether this date-time comes before `other`.
    pub fn is_before(&self, other: &DateTime) -> (r: bool)
        ensures
            r == date_before(*self, *other),
    {
        let a = self.key_vec();
        let b = other.key_vec();
        assert(self.key().subrange(0, 7) =~= self.key());
        assert(other.key().subrange(0, 7) =~= other.key());
        let mut i: usize = 0;
        while i < 7
            invariant
                a@.len() == 7,
                b@.len() == 7,
                forall|j: int| 0 <= j < 7 ==> a@[j] as int == self.key()[j],
                forall|j: int| 0 <= j < 7 ==> b@[j] as int == other.key()[j],
                i <= 7,
                key_less(self.key(), other.key()) == key_less(self.key().subrange(i as int, 7), other.key().subrange(i as int, 7)),
            decreases 7 - i,
        {
            let ghost sa = self.key().subrange(i as int, 7);
            let ghost sb = other.key().subrange(i as int, 7);
            assert(sa.drop_first() =~= self.key().subrange(i + 1, 7));
            assert(sb.drop_first() =~= other.key().subrange(i + 1, 7));
            if a[i] != b[i] {
                return a[i] < b[i];
            }
            i = i + 1;
        }
        false
    }

    fn key_vec(&self) -> (r: Vec<i64>)
        ensures
            r@.len() == 7,
            forall|i: int| 0 <= i < 7 ==> r@[i] as int == self.key()[i],
    {
        vec![self.year as i64, self.month as i64, self.day as i64, self.hour as i64,
            self.minute as i64, self.second as i64, self.nano as i64]
    }
}

/// The year as chrono renders it: four digits within 0 to 9999, else a
/// sign and at least four digits.
pub open spec fn year_text(y: int) -> Seq<char> {
    if 0 <= y <= 9999 {
        padded_digits(y as nat, 4)
    } else if y < 0 {
        seq!['-'] + padded_digits((-y) as nat, 4)
    } else {
        seq!['+'] + padded_digits(y as nat, 4)
    }
}

/// The fraction of a second: nothing when zero, else a point and three,
/// six or nine digits, the fewest that hold it.
pub open spec fn fraction_text(n: int) -> Seq<char> {
    if n == 0 {
        Seq::empty()
    } else if n % 1_000_000 == 0 {
        seq!['.'] + padded_digits((n / 1_000_000) as nat, 3)
    } else if n % 1000 == 0 {
        seq!['.'] + padded_digits((n / 1000) as nat, 6)
    } else {
        seq!['.'] + padded_digits(n as nat, 9)
    }
}

/// `YYYY-MM-DD HH:MM:SS[.fff]`.
pub open spec fn date_text(dt: DateTime) -> Seq<char> {
    day_text(dt) + seq![' '] + time_text(dt)
}

/// `YYYY-MM-DD`.
pub open spec fn day_text(dt: DateTime) -> Seq<char> {
    year_text(dt.year as int) + seq!['-'] + padded_digits(dt.month as nat, 2) + seq!['-']
        + padded_digits(dt.day as nat, 2)
}

/// `HH:MM:SS[.fff]`.
pub open spec fn time_text(dt: DateTime) -> Seq<char> {
    padded_digits(dt.hour as nat, 2) + seq![':'] + padded_digits(dt.minute as nat, 2) + seq![':']
        + padded_digits(dt.second as nat, 2) + fraction_text(dt.nano as int)
}

fn push_padded(s: &mut String, n: u64, width: usize)
    ensures
        final(s)@ == old(s)@ + padded_digits(n as nat, width as nat),
{
    let t = padded_text(n, width);
    push_text(s, t.as_str());
}

impl DateTime {
    /// Renders the fields as `YYYY-MM-DD HH:MM:SS`, with the fraction of a
    /// second when it is not zero. Fields out of range are rendered as they
    /// are, so that a message can name a day that does not exist.
    pub fn to_text(&self) -> (r: String)
        ensures
            r@ == date_text(*self),
    {
        let mut s = String::new();
        self.push_day(&mut s);
        push_char(&mut s, ' ');
        self.push_time(&mut s);
        assert(s@ =~= date_text(*self));
        s
    }

    fn push_day(&self, s: &mut String)
        ensures
            final(s)@ == old(s)@ + day_text(*self),
    {
        let y = self.year;
        if 0 <= y && y <= 9999 {
            push_padded(s, y as u64, 4);
        } else if y < 0 {
            push_char(s, '-');
            push_padded(s, (-(y as i64)) as u64, 4);
        } else {
            push_char(s, '+');
            push_padded(s, y as u64, 4);
        }
        assert(s@ =~= old(s)@ + year_text(y as int));
        push_char(s, '-');
        push_padded(s, self.month as u64, 2);
        push_char(s, '-');
        push_padded(s, self.day as u64, 2);
        assert(s@ =~= old(s)@ + day_text(*self));
    }

    fn push_time(&self, s: &mut String)
        ensures
            final(s)@ == old(s)@ + time_text(*self),
    {
        push_padded(s, self.hour as u64, 2);
        push_char(s, ':');
        push_padded(s, self.minute as u64, 2);
        push_char(s, ':');
        push_padded(s, self.second as u64, 2);
        let ghost before = s@;
        let n = self.nano;
        if n == 0 {
        } else if n % 1_000_000 == 0 {
            push_char(s, '.');
            push_padded(s, (n / 1_000_000) as u64, 3);
        } else if n % 1000 == 0 {
            push_char(s, '.');
            push_padded(s, (n / 1000) as u64, 6);
        } else {
            push_char(s, '.');
            push_padded(s, n as u64, 9);
        }
        assert(s@ =~= before + fraction_text(n as int));
        assert(s@ =~= old(s)@ + time_text(*self));
    }
}

/// The message for a year shift that leaves the calendar.
pub open spec fn add_years_message(years: int, dt: DateTime) -> Seq<char> {
    "Couldn't add "@ + int_digits(years) + " years to the date "@ + date_text(dt)
}

/// The message for a month that the day does not exist in.
pub open spec fn set_month_message(month: int, target: DateTime) -> Seq<char> {
    "Couldn't set "@ + int_digits(month) + " as month to the date "@ + date_text(target)
}

/// The year and month (1 to 12) reached by adding `months` to the month
/// `month` (1 to 12) of year `year`.
pub open spec fn shifted_month(year: int, month: int, months: int) -> (int, int) {
    let m0 = month - 1 + months;
    (year + m0 / 12, m0 % 12 + 1)
}

fn years_message(years: i64, dt: &DateTime) -> (r: String)
    ensures
        r@ == add_years_message(years as int, *dt),
{
    let mut m = String::new();
    push_text(&mut m, "Couldn't add ");
    let y = int_text(years);
    push_text(&mut m, y.as_str());
    push_text(&mut m, " years to the date ");
    let d = dt.to_text();
    push_text(&mut m, d.as_str());
    m
}

/// Adds `years` to the year, keeping month, day and time. Fails, naming
/// the given date, when that day does not exist in the new year or the
/// year leaves the supported range.
pub fn add_years(dt: &DateTime, years: i64) -> (r: Result<DateTime, String>)
    requires
        dt.wf(),
    ensures
        valid_date(dt.year + years, dt.month as int, dt.day as int) ==> r == Ok::<DateTime, String>(DateTime { year: (dt.year + years) as i32, ..*dt }),
        !valid_date(dt.year + years, dt.month as int, dt.day as int) ==> (r matches Err(m) && m@ == add_years_message(years as int, *dt)),
{
    if years > (MAX_YEAR as i64) - (MIN_YEAR as i64) || years < (MIN_YEAR as i64) - (MAX_YEAR as i64) {
        return Err(years_message(years, dt));
    }
    match dt.with_year(dt.year as i64 + years) {
        Some(d) => Ok(d),
        None => Err(years_message(years, dt)),
    }
}

/// Adds `months` to the month, carrying into the year in either direction,
/// and keeps the day of the month and the time. When the day does not exist
/// in the month reached, fails with a message that names that month and
/// the day that does not exist; when the year leaves the supported range,
/// fails with a message that names the years added and the given date.
pub fn add_months(dt: &DateTime, months: i64) -> (r: Result<DateTime, String>)
    requires
        dt.wf(),
    ensures
        ({
            let (y, m) = shifted_month(dt.year as int, dt.month as int, months as int);
            &&& valid_date(y, m, dt.day as int) ==> r == Ok::<DateTime, String>(DateTime { year: y as i32, month: m as u32, ..*dt })
            &&& (MIN_YEAR <= y <= MAX_YEAR && !valid_date(y, m, dt.day as int)) ==> (r matches Err(msg)
                && msg@ == set_month_message(m, DateTime { year: y as i32, month: m as u32, ..*dt }))
            &&& !(MIN_YEAR <= y <= MAX_YEAR) ==> (r matches Err(msg) && msg@ == add_years_message(y - dt.year, *dt))
        }),
{
    let m0: i128 = dt.month as i128 - 1 + months as i128;
    let mut years: i128 = m0 / 12;
    let mut new_m0: i128 = m0 % 12;
    if new_m0 < 0 {
        new_m0 = new_m0 + 12;
        years = years - 1;
    }
    proof {
        lemma_fundamental_div_mod_converse(m0 as int, 12, years as int, new_m0 as int);
    }
    let y: i128 = dt.year as i128 + years;
    if y < MIN_YEAR as i128 || y > MAX_YEAR as i128 {
        return Err(years_message(years as i64, dt));
    }
    let m: u32 = (new_m0 + 1) as u32;
    let target_dt = DateTime { year: y as i32, month: m, ..*dt };
    if is_valid_date(y as i64, m as i64, dt.day as i64) {
        Ok(target_dt)
    } else {
        let mut msg = String::new();
        push_text(&mut msg, "Couldn't set ");
        let mt = int_text(m as i64);
        push_text(&mut msg, mt.as_str());
        push_text(&mut msg, " as month to the date ");
        let d = target_dt.to_text();
        push_text(&mut msg, d.as_str());
        Err(msg)
    }
}

/// The fields of the UTC date-time that an RFC 3339 text denotes, if it
/// denotes one.
pub uninterp spec fn utc_reading(text: Seq<char>) -> Option<Seq<int>>;

/// What chrono's formatter renders for a date-time (given by its fields)
/// and a `strftime` format, if the format is one it accepts.
pub uninterp spec fn formatted_date(key: Seq<int>, format: Seq<char>) -> Option<Seq<char>>;

/// Relies on chrono's `FromStr` for `DateTime<Utc>` and on `naive_utc`: a
/// date-time with an offset, read as the UTC wall clock. A leap second
/// shows as a fraction of one second or more.
#[verifier::external_body]
pub(crate) fn parse_utc(text: &str) -> (r: Result<DateTime, String>)
    ensures
        match r {
            Ok(d) => utc_reading(text@) == Some(d.key()) && valid_date(d.year as int, d.month as int, d.day as int)
                && d.hour < 24 && d.minute < 60 && d.second < 60 && d.nano < 2 * NANOS_PER_SECOND,
            Err(_) => utc_reading(text@) is None,
        },
{
    match text.parse::<chrono::DateTime<chrono::Utc>>() {
        Ok(d) => {
            let x = d.naive_utc();
            Ok(DateTime { year: x.year(), month: x.month(), day: x.day(), hour: x.hour(),
                minute: x.minute(), second: x.second(), nano: x.nanosecond() })
        },
        Err(e) => Err(format!("{}", e)),
    }
}

/// Relies on chrono's `Utc::now`: the system clock, as a UTC wall clock.
#[verifier::external_body]
pub(crate) fn now_utc() -> (r: DateTime)
    ensures
        r.wf(),
{
    let x = chrono::Utc::now().naive_utc();
    DateTime { year: x.year(), month: x.month(), day: x.day(), hour: x.hour(),
        minute: x.minute(), second: x.second(), nano: x.nanosecond() }
}

/// Relies on chrono's `NaiveDateTime::checked_add_signed` with
/// `TimeDelta::seconds` (which accepts at most `i64::MAX / 1000` either way):
/// the date-time that many seconds later, unless it leaves the supported range.
#[verifier::external_body]
pub(crate) fn add_seconds(dt: &DateTime, secs: i64) -> (r: Option<DateTime>)
    requires
        dt.wf(),
        -(i64::MAX / 1000) <= secs <= i64::MAX / 1000,
    ensures
        match r {
            Some(x) => x.wf() && instant(x) == instant(*dt) + secs * NANOS_PER_SECOND,
            None => !representable(instant(*dt) + secs * NANOS_PER_SECOND),
        },
{
    let n = chrono::NaiveDate::from_ymd_opt(dt.year, dt.month, dt.day).unwrap()
        .and_hms_nano_opt(dt.hour, dt.minute, dt.second, dt.nano).unwrap();
    n.checked_add_signed(chrono::TimeDelta::seconds(secs)).map(|x| DateTime { year: x.year(),
        month: x.month(), day: x.day(), hour: x.hour(), minute: x.minute(), second: x.second(),
        nano: x.nanosecond() })
}

/// Relies on chrono's `NaiveDateTime::signed_duration_since` and
/// `TimeDelta::num_seconds`: whole seconds from `b` to `a`, rounded toward zero.
#[verifier::external_body]
pub(crate) fn seconds_between(a: &DateTime, b: &DateTime) -> (r: i64)
    requires
        a.wf(),
        b.wf(),
    ensures
        r as int == trunc_div(instant(*a) - instant(*b), NANOS_PER_SECOND as int),
{
    let x = chrono::NaiveDate::from_ymd_opt(a.year, a.month, a.day).unwrap()
        .and_hms_nano_opt(a.hour, a.minute, a.second, a.nano).unwrap();
    let y = chrono::NaiveDate::from_ymd_opt(b.year, b.month, b.day).unwrap()
        .and_hms_nano_opt(b.hour, b.minute, b.second, b.nano).unwrap();
    x.signed_duration_since(y).num_seconds()
}

/// Relies on chrono's `NaiveDateTime::format` written through `Display`,
/// which fails on a format item that chrono does not know.
#[verifier::external_body]
pub(crate) fn format_date(dt: &DateTime, format: &str) -> (r: Option<String>)
    requires
        dt.wf(),
    ensures
        match r {
            Some(t) => formatted_date(dt.key(), format@) == Some(t@),
            None => formatted_date(dt.key(), format@) is None,
        },
{
    let n = chrono::NaiveDate::from_ymd_opt(dt.year, dt.month, dt.day).unwrap()
        .and_hms_nano_opt(dt.hour, dt.minute, dt.second, dt.nano).unwrap();
    let mut s = String::new();
    match write!(s, "{}", n.format(format)) {
        Ok(()) => Some(s),
        Err(_) => None,
    }
}

/// The date-time with the chosen components (year, month, day, hour,
/// minute, second) set to 1. The result serves comparisons only and need
/// not be a day of the calendar.
pub open spec fn defaulted(dt: DateTime, flags: Seq<bool>) -> DateTime {
    DateTime {
        year: if flags[0] { 1 } else { dt.year },
        month: if flags[1] { 1 } else { dt.month },
        day: if flags[2] { 1 } else { dt.day },
        hour: if flags[3] { 1 } else { dt.hour },
        minute: if flags[4] { 1 } else { dt.minute },
        second: if flags[5] { 1 } else { dt.second },
        nano: dt.nano,
    }
}

/// Sets to 1 each component whose flag is set; see `defaulted`.
pub fn with_defaults(dt: &DateTime, flags: &Vec<bool>) -> (r: DateTime)
    requires
        flags@.len() == 6,
    ensures
        r == defaulted(*dt, flags@),
{
    DateTime {
        year: if flags[0] { 1 } else { dt.year },
        month: if flags[1] { 1 } else { dt.month },
        day: if flags[2] { 1 } else { dt.day },
        hour: if flags[3] { 1 } else { dt.hour },
        minute: if flags[4] { 1 } else { dt.minute },
        second: if flags[5] { 1 } else { dt.second },
        nano: dt.nano,
    }
}

/// The message for a text that is not a date.
pub open spec fn not_a_date_message(text: Seq<char>) -> Seq<char> {
    "'"@ + text + "' is not a date"@
}

/// Reads an RFC 3339 date-time with an offset as a UTC wall clock. A leap
/// second, which this library does not represent, is refused like any
/// other text that is not a date.
pub fn parse_date(text: &str) -> (r: Result<DateTime, String>)
    ensures
        match r {
            Ok(d) => d.wf() && utc_reading(text@) == Some(d.key()),
            Err(m) => match utc_reading(text@) {
                Some(k) => k[6] >= NANOS_PER_SECOND && m@ == not_a_date_message(text@),
                None => true,
            },
        },
{
    match parse_utc(text) {
        Ok(d) => {
            if d.nano < NANOS_PER_SECOND {
                Ok(d)
            } else {
                let mut m = String::new();
                push_text(&mut m, "'");
                push_text(&mut m, text);
                push_text(&mut m, "' is not a date");
                Err(m)
            }
        },
        Err(e) => Err(e),
    }
}

/// The date-time that a text reads as: an RFC 3339 date-time with an
/// offset, as a UTC wall clock, when it is not a leap second.
pub open spec fn read_date(t: Seq<char>) -> Option<DateTime> {
    match utc_reading(t) {
        Some(k) => if k.len() == 7 && k[6] < NANOS_PER_SECOND {
            Some(DateTime { year: k[0] as i32, month: k[1] as u32, day: k[2] as u32, hour: k[3] as u32,
                minute: k[4] as u32, second: k[5] as u32, nano: k[6] as u32 })
        } else {
            None
        },
        None => None,
    }
}

/// The same day at midnight.
pub fn start_of_day(dt: &DateTime) -> (r: DateTime)
    requires
        dt.wf(),
    ensures
        r.wf(),
        r == (DateTime { hour: 0, minute: 0, second: 0, nano: 0, ..*dt }),
{
    DateTime { hour: 0, minute: 0, second: 0, nano: 0, ..*dt }
}

/// Whole seconds since midnight.
pub fn seconds_of_day(dt: &DateTime) -> (r: i64)
    requires
        dt.wf(),
    ensures
        r == dt.hour * 3600 + dt.minute * 60 + dt.second,
{
    dt.hour as i64 * 3600 + dt.minute as i64 * 60 + dt.second as i64
}

/// The message for a shift that leaves the supported range of date-times.
pub open spec fn shift_message(secs: int, dt: DateTime) -> Seq<char> {
    "Couldn't add "@ + int_digits(secs) + " seconds to the date "@ + date_text(dt)
}

/// The date-time `secs` seconds later (earlier when negative). Fails when
/// the shift is too large for a time span or leaves the supported range.
pub fn shift_seconds(dt: &DateTime, secs: i64) -> (r: Result<DateTime, String>)
    requires
        dt.wf(),
    ensures
        match r {
            Ok(x) => x.wf() && instant(x) == instant(*dt) + secs * NANOS_PER_SECOND,
            Err(m) => m@ == shift_message(secs as int, *dt) && (-(i64::MAX / 1000) <= secs <= i64::MAX / 1000
                ==> !representable(instant(*dt) + secs * NANOS_PER_SECOND)),
        },
{
    let shifted = if -(i64::MAX / 1000) <= secs && secs <= i64::MAX / 1000 {
        add_seconds(dt, secs)
    } else {
        None
    };
    match shifted {
        Some(x) => Ok(x),
        None => {
            let mut m = String::new();
            push_text(&mut m, "Couldn't add ");
            let t = int_text(secs);
            push_text(&mut m, t.as_str());
            push_text(&mut m, " seconds to the date ");
            let d = dt.to_text();
            push_text(&mut m, d.as_str());
            Err(m)
        },
    }
}

} // verus!
