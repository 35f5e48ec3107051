//! Points in time and academic-calendar arithmetic.

use crate::errors::SharedError;
use crate::text::{join_texts, from_chars, push_signed_decimal, signed_decimal};
use vstd::prelude::*;

verus! {

/// A point in time: whole seconds since the start of 1970 in UTC, and the
/// nanoseconds past that second. Points are ordered by seconds, then by
/// nanoseconds.
#[derive(Debug, Clone, Copy, PartialEq, Eq, Structural)]
pub struct Timestamp {
    pub secs: i64,
    pub nanos: u32,
}

impl Timestamp {
    /// Whether this point is not later than `other`.
    pub open spec fn at_most(self, other: Timestamp) -> bool {
        self.secs < other.secs || (self.secs == other.secs && self.nanos <= other.nanos)
    }

    /// Whether this point is not later than `other`.
    pub fn not_after(&self, other: &Timestamp) -> (b: bool)
        ensures
            b == self.at_most(*other),
    {
        self.secs < other.secs || (self.secs == other.secs && self.nanos <= other.nanos)
    }
}

/// Seconds before and after 1970 within which every point in time lies that
/// `chrono` can hold: its days are counted in 32 bits.
pub const CLOCK_RANGE_SECS: i64 = 185_604_722_870_400;

/// The current time, read from the system clock with `chrono::Utc::now`,
/// which hands out points in time that `chrono` can hold and no others.
/// Nothing else is promised of the value.
#[verifier::external_body]
pub fn now_utc() -> (t: Timestamp)
    ensures
        -CLOCK_RANGE_SECS <= t.secs <= CLOCK_RANGE_SECS,
{
    let now = chrono::Utc::now();
    Timestamp { secs: now.timestamp(), nanos: now.timestamp_subsec_nanos() }
}

/// The current time as an RFC 3339 text, from `chrono::Utc::now` and
/// `chrono::DateTime::to_rfc3339`. Nothing is promised of the value.
#[verifier::external_body]
pub(crate) fn now_rfc3339() -> (r: String) {
    chrono::Utc::now().to_rfc3339()
}

/// An academic year as text: the year it starts in, a slash, the next year.
pub open spec fn academic_year_text(year: i32) -> Seq<char> {
    signed_decimal(year as int) + seq!['/'] + signed_decimal(year + 1)
}

/// Formats an academic year, such as `2024/2025`.
pub fn format_academic_year(year: i32) -> (r: String)
    requires
        year < i32::MAX,
    ensures
        r@ == academic_year_text(year),
{
    let mut out: Vec<char> = Vec::new();
    push_signed_decimal(&mut out, year as i64);
    out.push('/');
    push_signed_decimal(&mut out, (year + 1) as i64);
    assert(out@ == academic_year_text(year));
    from_chars(&out)
}

// ---------------------------------------------------------------------------
// Deadlines
// ---------------------------------------------------------------------------

/// Nanoseconds in a second.
pub const NANOS_PER_SECOND: i128 = 1_000_000_000;

impl Timestamp {
    /// Nanoseconds since the start of 1970.
    pub open spec fn total_nanos(self) -> int {
        self.secs * 1_000_000_000 + self.nanos
    }
}

/// The quotient of `a` by the positive `b`, rounded towards zero.
pub open spec fn quotient_towards_zero(a: int, b: int) -> int {
    if a >= 0 {
        a / b
    } else {
        -((-a) / b)
    }
}

/// Whole periods of `period_secs` seconds from `now` until `deadline`,
/// negative where the deadline has passed.
pub open spec fn periods_until(now: Timestamp, deadline: Timestamp, period_secs: int) -> int {
    quotient_towards_zero(deadline.total_nanos() - now.total_nanos(), period_secs * 1_000_000_000)
}

fn whole_periods(now: &Timestamp, deadline: &Timestamp, period_secs: i128) -> (r: i64)
    requires
        period_secs == 3600 || period_secs == 86400,
    ensures
        r == periods_until(*now, *deadline, period_secs as int),
{
    let from: i128 = (now.secs as i128) * NANOS_PER_SECOND + (now.nanos as i128);
    let to: i128 = (deadline.secs as i128) * NANOS_PER_SECOND + (deadline.nanos as i128);
    let span: i128 = to - from;
    let period: i128 = period_secs * NANOS_PER_SECOND;
    if span >= 0 {
        (span / period) as i64
    } else {
        (-((-span) / period)) as i64
    }
}

/// Whole days from `now` until `deadline`, negative where it has passed.
pub fn days_between(now: &Timestamp, deadline: &Timestamp) -> (r: i64)
    ensures
        r == periods_until(*now, *deadline, 86400),
{
    whole_periods(now, deadline, 86400)
}

/// Whole hours from `now` until `deadline`, negative where it has passed.
pub fn hours_between(now: &Timestamp, deadline: &Timestamp) -> (r: i64)
    ensures
        r == periods_until(*now, *deadline, 3600),
{
    whole_periods(now, deadline, 3600)
}

/// Whether `deadline` lies before `now`.
pub fn has_passed(now: &Timestamp, deadline: &Timestamp) -> (r: bool)
    ensures
        r == !now.at_most(*deadline),
{
    !now.not_after(deadline)
}

/// Whether `deadline` has not passed at `now` and is at most `days` whole
/// days away.
pub fn is_soon(now: &Timestamp, deadline: &Timestamp, days: i64) -> (r: bool)
    ensures
        r == (now.at_most(*deadline) && periods_until(*now, *deadline, 86400) <= days),
{
    if has_passed(now, deadline) {
        return false;
    }
    days_between(now, deadline) <= days
}

/// Whole days from now until `deadline`.
pub fn days_until(deadline: &Timestamp) -> (r: i64)
    ensures
        exists|now: Timestamp| r == periods_until(now, *deadline, 86400),
{
    let now = now_utc();
    days_between(&now, deadline)
}

/// Whole hours from now until `deadline`.
pub fn hours_until(deadline: &Timestamp) -> (r: i64)
    ensures
        exists|now: Timestamp| r == periods_until(now, *deadline, 3600),
{
    let now = now_utc();
    hours_between(&now, deadline)
}

/// Whether `deadline` has passed.
pub fn is_overdue(deadline: &Timestamp) -> (r: bool)
    ensures
        exists|now: Timestamp| r == !now.at_most(*deadline),
{
    let now = now_utc();
    has_passed(&now, deadline)
}

/// Whether `deadline` has not passed and is at most `days` whole days away.
pub fn is_deadline_soon(deadline: &Timestamp, days: i64) -> (r: bool)
    ensures
        exists|now: Timestamp|
            r == (now.at_most(*deadline) && periods_until(now, *deadline, 86400) <= days),
{
    let now = now_utc();
    is_soon(&now, deadline, days)
}

// ---------------------------------------------------------------------------
// Calendar dates
// ---------------------------------------------------------------------------

/// A date of the proleptic Gregorian calendar.
#[derive(Debug, Clone, Copy, PartialEq, Eq, Structural)]
pub struct Date {
    pub year: i32,
    pub month: u32,
    pub day: u32,
}

/// Month in which the academic year starts.
pub const ACADEMIC_YEAR_START_MONTH: u32 = 10;

/// Day of the month on which the academic year starts.
pub const ACADEMIC_YEAR_START_DAY: u32 = 1;

/// First year that the calendar covers.
pub const MIN_YEAR: i32 = -262_143;

/// Last year that the calendar covers.
pub const MAX_YEAR: i32 = 262_142;

/// Whether February has 29 days in the year.
pub open spec fn is_leap_year(year: int) -> bool {
    year % 4 == 0 && (year % 100 != 0 || year % 400 == 0)
}

/// Number of days of a month.
pub open spec fn days_in_month(year: int, month: int) -> int {
    if month == 2 {
        if is_leap_year(year) {
            29
        } else {
            28
        }
    } else if month == 4 || month == 6 || month == 9 || month == 11 {
        30
    } else {
        31
    }
}

impl Date {
    /// Whether this is a date that the calendar covers.
    pub open spec fn is_calendar_date(self) -> bool {
        &&& MIN_YEAR <= self.year <= MAX_YEAR
        &&& 1 <= self.month <= 12
        &&& 1 <= self.day <= days_in_month(self.year as int, self.month as int)
    }

    /// Whether the calendar covers the day after this date: it does for
    /// every date that it covers but the last.
    pub open spec fn has_successor(self) -> bool {
        self.is_calendar_date() && !(self.year == MAX_YEAR && self.month == 12 && self.day == 31)
    }

    /// Whether this date lies before `other`.
    pub open spec fn is_before(self, other: Date) -> bool {
        self.year < other.year || (self.year == other.year && (self.month < other.month || (
        self.month == other.month && self.day < other.day)))
    }

    /// The date of the next day.
    pub open spec fn successor(self) -> Date {
        if self.day < days_in_month(self.year as int, self.month as int) {
            Date { year: self.year, month: self.month, day: (self.day + 1) as u32 }
        } else if self.month < 12 {
            Date { year: self.year, month: (self.month + 1) as u32, day: 1 }
        } else {
            Date { year: (self.year + 1) as i32, month: 1, day: 1 }
        }
    }

    /// The date `k` days on.
    pub open spec fn days_on(self, k: nat) -> Date
        decreases k,
    {
        if k == 0 {
            self
        } else {
            self.days_on((k - 1) as nat).successor()
        }
    }

    /// Whether the date falls on a day from Monday to Friday.
    pub open spec fn is_working_day(self) -> bool {
        day_of_week(self.year as int, self.month as int, self.day as int) < 5
    }

    /// How many of the `k` days after this date are working days.
    pub open spec fn working_days_within(self, k: nat) -> nat
        decreases k,
    {
        if k == 0 {
            0
        } else {
            self.working_days_within((k - 1) as nat) + if self.days_on(k).is_working_day() {
                1nat
            } else {
                0nat
            }
        }
    }

    /// Whether this date lies before `other`.
    pub fn before(&self, other: &Date) -> (r: bool)
        ensures
            r == self.is_before(*other),
    {
        self.year < other.year || (self.year == other.year && (self.month < other.month || (
        self.month == other.month && self.day < other.day)))
    }
}

/// The day of the week of a date, counted from Monday as 0.
pub uninterp spec fn day_of_week(year: int, month: int, day: int) -> int;

/// What parsing a text as a date in the form year-month-day gives: the date,
/// or the message of the failure.
pub uninterp spec fn date_parse_outcome(text: Seq<char>) -> Result<Date, Seq<char>>;

/// A calendar date in the form year-month-day.
pub uninterp spec fn date_text(year: int, month: int, day: int) -> Seq<char>;

/// The day after a date, from `chrono::NaiveDate::succ_opt`. There is one for
/// every date of the calendar but the last. It falls on the next day of the
/// week.
#[verifier::external_body]
fn next_day(d: Date) -> (r: Option<Date>)
    ensures
        r is Some <==> d.has_successor(),
        r matches Some(n) ==> n == d.successor(),
        r matches Some(n) ==> n.is_calendar_date(),
        r matches Some(n) ==> day_of_week(n.year as int, n.month as int, n.day as int) == (
        day_of_week(d.year as int, d.month as int, d.day as int) + 1) % 7,
{
    let next = chrono::NaiveDate::from_ymd_opt(d.year, d.month, d.day)?.succ_opt()?;
    Some(
        Date {
            year: chrono::Datelike::year(&next),
            month: chrono::Datelike::month(&next),
            day: chrono::Datelike::day(&next),
        },
    )
}

/// The day of the week of a calendar date, from `chrono::Datelike::weekday`,
/// counted from Monday as 0.
#[verifier::external_body]
fn weekday_from_monday(d: Date) -> (r: u32)
    requires
        d.is_calendar_date(),
    ensures
        r == day_of_week(d.year as int, d.month as int, d.day as int),
        r < 7,
{
    let date = chrono::NaiveDate::from_ymd_opt(d.year, d.month, d.day).unwrap();
    chrono::Datelike::weekday(&date).num_days_from_monday()
}

/// Parses with `chrono::NaiveDate::parse_from_str` and the format
/// `%Y-%m-%d`, and hands out the date or the text of the error.
#[verifier::external_body]
fn parse_ymd(text: &str) -> (r: Result<Date, String>)
    ensures
        match r {
            Ok(d) => date_parse_outcome(text@) == Ok::<Date, Seq<char>>(d),
            Err(message) => date_parse_outcome(text@) == Err::<Date, Seq<char>>(message@),
        },
        r matches Ok(d) ==> d.is_calendar_date(),
{
    match chrono::NaiveDate::parse_from_str(text, "%Y-%m-%d") {
        Ok(d) => Ok(
            Date {
                year: chrono::Datelike::year(&d),
                month: chrono::Datelike::month(&d),
                day: chrono::Datelike::day(&d),
            },
        ),
        Err(e) => Err(e.to_string()),
    }
}

/// Formats a calendar date with `chrono::NaiveDate::format` and the format
/// `%Y-%m-%d`.
#[verifier::external_body]
fn format_ymd(d: Date) -> (r: String)
    requires
        d.is_calendar_date(),
    ensures
        r@ == date_text(d.year as int, d.month as int, d.day as int),
{
    chrono::NaiveDate::from_ymd_opt(d.year, d.month, d.day).unwrap().format("%Y-%m-%d").to_string()
}

/// Reads a date in the form year-month-day.
pub fn parse_date(date_str: &str) -> (r: Result<Date, SharedError>)
    ensures
        match r {
            Ok(d) => date_parse_outcome(date_str@) == Ok::<Date, Seq<char>>(d)
                && d.is_calendar_date(),
            Err(SharedError::Time(reason)) => date_parse_outcome(date_str@) is Err && reason@
                == "Failed to parse date: "@ + date_parse_outcome(date_str@)->Err_0,
            Err(_) => false,
        },
{
    match parse_ymd(date_str) {
        Ok(d) => Ok(d),
        Err(message) => Err(SharedError::Time(join_texts("Failed to parse date: ", message.as_str()))),
    }
}

/// Writes a calendar date in the form year-month-day.
pub fn format_date(date: &Date) -> (r: String)
    requires
        date.is_calendar_date(),
    ensures
        r@ == date_text(date.year as int, date.month as int, date.day as int),
{
    format_ymd(*date)
}

/// The academic year of a date: the year in which the October before the
/// date, or of the date, lies.
pub fn get_academic_year(date: &Date) -> (r: i32)
    requires
        date.year > i32::MIN,
    ensures
        r == if date.month >= ACADEMIC_YEAR_START_MONTH {
            date.year as int
        } else {
            date.year - 1
        },
{
    if date.month >= ACADEMIC_YEAR_START_MONTH {
        date.year
    } else {
        date.year - 1
    }
}

/// The first day of an academic year: the first of October.
pub fn academic_year_start(year: i32) -> (d: Date)
    ensures
        d == (Date { year, month: 10, day: 1 }),
{
    Date { year, month: ACADEMIC_YEAR_START_MONTH, day: ACADEMIC_YEAR_START_DAY }
}

/// The last day of an academic year: the thirtieth of September of the next
/// year.
pub fn academic_year_end(year: i32) -> (d: Date)
    requires
        year < i32::MAX,
    ensures
        d == (Date { year: (year + 1) as i32, month: 9, day: 30 }),
{
    Date { year: year + 1, month: 9, day: 30 }
}

/// The semester of a month: autumn from October to January, spring from
/// February to May, summer from June to September.
pub open spec fn semester_of(month: u32) -> Seq<char> {
    if month >= 10 || month == 1 {
        "Autumn"@
    } else if month <= 5 {
        "Spring"@
    } else {
        "Summer"@
    }
}

/// The semester in which a date lies.
pub fn get_current_semester(date: &Date) -> (r: &'static str)
    requires
        1 <= date.month <= 12,
    ensures
        r@ == semester_of(date.month),
{
    if date.month >= 10 || date.month == 1 {
        "Autumn"
    } else if date.month <= 5 {
        "Spring"
    } else {
        "Summer"
    }
}

/// How far the next working day is at most, as a measure that falls from day
/// to day until a working day comes.
spec fn weekend_left(weekday: int) -> int {
    if weekday >= 4 {
        6 - weekday
    } else {
        0
    }
}

/// The date reached by going on day by day from `start_date` until
/// `working_days` working days have been passed, the last of them being the
/// date reached. Nothing or less to add gives the start itself. There is no
/// result where the start is no calendar date or the calendar ends first.
pub fn add_working_days(start_date: &Date, working_days: i64) -> (r: Option<Date>)
    ensures
        working_days <= 0 ==> r == Some(*start_date),
        r matches Some(end) ==> exists|k: nat|
            {
                &&& end == start_date.days_on(k)
                &&& start_date.working_days_within(k) == if working_days > 0 {
                    working_days as int
                } else {
                    0
                }
                &&& k > 0 ==> end.is_working_day()
            },
        r is None ==> !start_date.is_calendar_date() || exists|k: nat|
            start_date.days_on(k) == (Date { year: MAX_YEAR, month: 12, day: 31 }),
{
    let mut current = *start_date;
    let mut days_added: i64 = 0;
    let ghost mut k: nat = 0;
    if working_days <= 0 {
        assert(start_date.working_days_within(0) == 0);
        assert(start_date.days_on(0) == *start_date);
        return Some(current);
    }
    let mut weekday: u32 = 0;
    let ghost mut known = false;
    while days_added < working_days
        invariant
            0 <= days_added <= working_days,
            current == start_date.days_on(k),
            start_date.working_days_within(k) == days_added,
            k > 0 ==> current.is_calendar_date() && known,
            known ==> weekday == day_of_week(
                current.year as int,
                current.month as int,
                current.day as int,
            ) && weekday < 7,
            k > 0 && days_added == working_days ==> current.is_working_day(),
            !known ==> k == 0,
        decreases working_days - days_added, if known { weekend_left(weekday as int) } else { 7 },
    {
        let next = match next_day(current) {
            Some(n) => n,
            None => {
                proof {
                    if start_date.is_calendar_date() {
                        assert(current.is_calendar_date());
                        assert(current == (Date { year: MAX_YEAR, month: 12, day: 31 }));
                    }
                }
                return None;
            },
        };
        let next_weekday = weekday_from_monday(next);
        proof {
            k = k + 1;
            assert(start_date.days_on(k) == next);
        }
        current = next;
        if next_weekday < 5 {
            days_added += 1;
        }
        weekday = next_weekday;
        proof {
            known = true;
        }
    }
    Some(current)
}

/// A measure of the days from `from` to `to` that falls with every day.
spec fn days_measure(from: Date, to: Date) -> int {
    (to.year - from.year) * 372 + (to.month - from.month) * 31 + (to.day - from.day)
}

/// The number of working days after `start_date` up to `end_date`, which
/// counts where it is one. There is none where the end is not after the
/// start.
pub fn working_days_between(start_date: &Date, end_date: &Date) -> (r: i64)
    requires
        start_date.is_calendar_date(),
        end_date.is_calendar_date(),
    ensures
        !start_date.is_before(*end_date) ==> r == 0,
        start_date.is_before(*end_date) ==> exists|k: nat|
            start_date.days_on(k) == *end_date && r == start_date.working_days_within(k),
{
    if !start_date.before(end_date) {
        return 0;
    }
    let mut count: i64 = 0;
    let mut current = *start_date;
    let ghost mut k: nat = 0;
    while current.before(end_date)
        invariant
            current.is_calendar_date(),
            end_date.is_calendar_date(),
            current == start_date.days_on(k),
            count == start_date.working_days_within(k),
            0 <= count,
            count + days_measure(current, *end_date) <= days_measure(*start_date, *end_date),
            current.is_before(*end_date) || current == *end_date,
        decreases days_measure(current, *end_date),
    {
        let next = next_day(current).unwrap();
        let weekday = weekday_from_monday(next);
        proof {
            k = k + 1;
            assert(start_date.days_on(k) == next);
        }
        if weekday < 5 {
            count += 1;
        }
        current = next;
    }
    count
}

} // verus!
