//! The one place an envelope's `ts` is rendered: RFC 3339, millisecond precision,
//! UTC.
//!
//! Merge order across streams is `(ts, stream, seq)`, so every producer in a run
//! has to spell the same instant the same way. An instant before the epoch is
//! rendered as the epoch rather than refused.

use vstd::prelude::*;
use vstd::string::StringExecFns;

use crate::text::{decimal, pad, write_decimal, zero_padded};

verus! {

/// Where an instant lies from the Unix epoch.
#[derive(Debug, Clone, Copy, PartialEq, Eq, Structural)]
pub enum Instant {
    /// Earlier than the epoch.
    BeforeEpoch,
    /// This many whole milliseconds after it.
    Since(u128),
}

/// The milliseconds in a day.
pub const DAY_MILLIS: u64 = 86_400_000;

/// `SystemTime::now`, as the milliseconds `duration_since` counts from
/// `UNIX_EPOCH`. The clock decides the answer, so nothing is claimed of it.
#[verifier::external_body]
fn now() -> (at: Instant) {
    match std::time::SystemTime::now().duration_since(std::time::UNIX_EPOCH) {
        Ok(since) => Instant::Since(since.as_millis()),
        Err(_) => Instant::BeforeEpoch,
    }
}

/// The milliseconds an instant counts from the epoch: none before it, and no
/// more than a `u64` holds.
pub open spec fn millis_of(at: Instant) -> u64 {
    match at {
        Instant::BeforeEpoch => 0,
        Instant::Since(millis) => if millis > u64::MAX {
            u64::MAX
        } else {
            millis as u64
        },
    }
}

/// Milliseconds since the Unix epoch, as the run record and the schedules count
/// them.
pub fn unix_millis(at: Instant) -> (millis: u64)
    ensures
        millis == millis_of(at),
{
    match at {
        Instant::BeforeEpoch => 0,
        Instant::Since(millis) => if millis > 0xffff_ffff_ffff_ffff {
            u64::MAX
        } else {
            millis as u64
        },
    }
}

/// Whether `year` is a Gregorian leap year.
pub open spec fn leap(year: int) -> bool {
    year % 4 == 0 && (year % 100 != 0 || year % 400 == 0)
}

/// The days in a year.
pub open spec fn year_days(year: int) -> int {
    if leap(year) {
        366
    } else {
        365
    }
}

/// The days in a month, counted from January as the first.
pub open spec fn month_days(year: int, month: int) -> int {
    if month == 2 {
        if leap(year) {
            29
        } else {
            28
        }
    } else if month == 4 || month == 6 || month == 9 || month == 11 {
        30
    } else {
        31
    }
}

/// The days from 1970-01-01 to the first day of `year`.
pub open spec fn days_to_year(year: int) -> int
    decreases year,
{
    if year <= 1970 {
        0
    } else {
        days_to_year(year - 1) + year_days(year - 1)
    }
}

/// The days from the first day of `year` to the first day of `month`.
pub open spec fn days_to_month(year: int, month: int) -> int
    decreases month,
{
    if month <= 1 {
        0
    } else {
        days_to_month(year, month - 1) + month_days(year, month - 1)
    }
}

/// A day of the proleptic Gregorian calendar.
pub struct Date {
    /// The year.
    pub year: int,
    /// The month, from 1.
    pub month: int,
    /// The day of the month, from 1.
    pub day: int,
}

impl Date {
    /// Whether this is a day the calendar has, on or after 1970-01-01.
    pub open spec fn exists_in_calendar(self) -> bool {
        &&& self.year >= 1970
        &&& 1 <= self.month <= 12
        &&& 1 <= self.day <= month_days(self.year, self.month)
    }

    /// How many days after 1970-01-01 this day is.
    pub open spec fn number(self) -> int {
        days_to_year(self.year) + days_to_month(self.year, self.month) + self.day - 1
    }
}

/// The day that is `days` after 1970-01-01.
pub open spec fn date_of(days: int) -> Date {
    choose|date: Date| date.exists_in_calendar() && #[trigger] date.number() == days
}

pub(crate) proof fn a_year_is_its_months(year: int)
    ensures
        days_to_month(year, 13) == year_days(year),
        forall|month: int|
            1 <= month <= 12 ==> 0 <= #[trigger] days_to_month(year, month) && days_to_month(
                year,
                month,
            ) + month_days(year, month) <= year_days(year),
{
    reveal_with_fuel(days_to_month, 14);
    assert forall|month: int| 1 <= month <= 12 implies 0 <= #[trigger] days_to_month(year, month)
        && days_to_month(year, month) + month_days(year, month) <= year_days(year) by {
        assert(month == 1 || month == 2 || month == 3 || month == 4 || month == 5 || month == 6
            || month == 7 || month == 8 || month == 9 || month == 10 || month == 11 || month == 12);
    }
}

proof fn years_accumulate(earlier: int, later: int)
    requires
        1970 <= earlier < later,
    ensures
        days_to_year(earlier) + year_days(earlier) <= days_to_year(later),
    decreases later,
{
    if earlier < later - 1 {
        years_accumulate(earlier, later - 1);
    }
}

proof fn months_accumulate(year: int, earlier: int, later: int)
    requires
        1 <= earlier < later <= 13,
    ensures
        days_to_month(year, earlier) + month_days(year, earlier) <= days_to_month(year, later),
    decreases later,
{
    if earlier < later - 1 {
        months_accumulate(year, earlier, later - 1);
    }
}

/// A later day has a larger number, so no two days share one.
pub proof fn days_are_numbered_in_order(a: Date, b: Date)
    requires
        a.exists_in_calendar(),
        b.exists_in_calendar(),
    ensures
        a.number() < b.number() <==> a.year < b.year || (a.year == b.year && (a.month < b.month || (
        a.month == b.month && a.day < b.day))),
        a.number() == b.number() ==> a == b,
{
    a_year_is_its_months(a.year);
    a_year_is_its_months(b.year);
    if a.year < b.year {
        years_accumulate(a.year, b.year);
    } else if b.year < a.year {
        years_accumulate(b.year, a.year);
    } else if a.month < b.month {
        months_accumulate(a.year, a.month, b.month);
    } else if b.month < a.month {
        months_accumulate(a.year, b.month, a.month);
    }
}

/// The day `date_of` names is the one with that number.
pub proof fn a_day_is_known_by_its_number(date: Date)
    requires
        date.exists_in_calendar(),
    ensures
        date_of(date.number()) == date,
{
    let named = date_of(date.number());
    assert(date.exists_in_calendar() && date.number() == date.number());
    days_are_numbered_in_order(named, date);
}

/// Whether `year` is a leap year.
fn is_leap(year: u64) -> (answer: bool)
    ensures
        answer == leap(year as int),
{
    year % 4 == 0 && (year % 100 != 0 || year % 400 == 0)
}

/// The civil date `days` after 1970-01-01.
fn civil_from_days(days: u64) -> (date: (u64, u64, u64))
    ensures
        ({
            let found = Date { year: date.0 as int, month: date.1 as int, day: date.2 as int };
            found.exists_in_calendar() && found.number() == days && date_of(days as int) == found
        }),
        date.0 <= 1970 + days,
{
    let mut remaining: u64 = days;
    let mut year: u64 = 1970;
    loop
        invariant
            year >= 1970,
            365 * (year - 1970) <= days - remaining,
            days_to_year(year as int) + remaining == days,
        ensures
            year >= 1970,
            365 * (year - 1970) <= days - remaining,
            days_to_year(year as int) + remaining == days,
            remaining < year_days(year as int),
        decreases remaining,
    {
        let in_year: u64 = if is_leap(year) {
            366
        } else {
            365
        };
        if remaining < in_year {
            break;
        }
        remaining = remaining - in_year;
        year = year + 1;
    }
    proof {
        a_year_is_its_months(year as int);
    }
    let mut month: u64 = 1;
    loop
        invariant
            1 <= month <= 12,
            remaining < year_days(year as int) - days_to_month(year as int, month as int),
            days_to_month(year as int, 13) == year_days(year as int),
            days_to_year(year as int) + days_to_month(year as int, month as int) + remaining
                == days,
        ensures
            1 <= month <= 12,
            remaining < month_days(year as int, month as int),
            days_to_year(year as int) + days_to_month(year as int, month as int) + remaining
                == days,
        decreases 12 - month,
    {
        let in_month: u64 = if month == 2 {
            if is_leap(year) {
                29
            } else {
                28
            }
        } else if month == 4 || month == 6 || month == 9 || month == 11 {
            30
        } else {
            31
        };
        if remaining < in_month {
            break;
        }
        remaining = remaining - in_month;
        month = month + 1;
        assert(month != 13);
    }
    proof {
        a_day_is_known_by_its_number(
            Date { year: year as int, month: month as int, day: remaining + 1 },
        );
    }
    (year, month, remaining + 1)
}

/// A number in decimal, at least `width` digits long.
pub open spec fn field(value: int, width: nat) -> Seq<char> {
    zero_padded(decimal(value as nat), width)
}

/// How the instant `millis` after the epoch is written.
pub open spec fn rendered(millis: int) -> Seq<char> {
    let date = date_of(millis / 86_400_000);
    let time = millis % 86_400_000;
    field(date.year, 4) + "-"@ + field(date.month, 2) + "-"@ + field(date.day, 2) + "T"@ + field(
        time / 3_600_000,
        2,
    ) + ":"@ + field((time / 60_000) % 60, 2) + ":"@ + field((time / 1_000) % 60, 2) + "."@ + field(
        time % 1_000,
        3,
    ) + "Z"@
}

fn write_field(value: u64, width: usize) -> (text: String)
    ensures
        text@ == field(value as int, width as nat),
{
    let digits = write_decimal(value);
    pad(digits.as_str(), width)
}

/// Render one instant as RFC 3339 with millisecond precision, in UTC.
pub fn rfc3339(at: Instant) -> (text: String)
    ensures
        text@ == rendered(millis_of(at) as int),
{
    let millis = unix_millis(at);
    let days: u64 = millis / DAY_MILLIS;
    let time: u64 = millis % DAY_MILLIS;
    let (year, month, day) = civil_from_days(days);
    let mut text = write_field(year, 4);
    text.append("-");
    text.append(write_field(month, 2).as_str());
    text.append("-");
    text.append(write_field(day, 2).as_str());
    text.append("T");
    text.append(write_field(time / 3_600_000, 2).as_str());
    text.append(":");
    text.append(write_field((time / 60_000) % 60, 2).as_str());
    text.append(":");
    text.append(write_field((time / 1_000) % 60, 2).as_str());
    text.append(".");
    text.append(write_field(time % 1_000, 3).as_str());
    text.append("Z");
    text
}

/// Now, as an envelope spells it.
pub fn now_rfc3339() -> (text: String)
    ensures
        exists|at: Instant| text@ == rendered(#[trigger] millis_of(at) as int),
{
    let at = now();
    let text = rfc3339(at);
    assert(text@ == rendered(millis_of(at) as int));
    text
}

} // verus!
