//! Calendar days of the proleptic Gregorian calendar, held as Julian day
//! numbers so that order and day arithmetic are plain integer order and
//! arithmetic.

use vstd::prelude::*;
use crate::rank::{Rank, int_rank};

verus! {

/// Julian day number of the first representable day, 1 January of year -9999.
pub const MIN_DAY: i32 = -1_930_999;

/// Julian day number of the last representable day, 31 December of year 9999.
pub const MAX_DAY: i32 = 5_373_484;

/// How catalogue dates are written: four-digit year, month and day of month.
pub const DATE_FORMAT: &'static str = "[year]-[month]-[day]";

/// What `time::Date::parse` makes of `text` under the format description
/// that `time::format_description::parse_borrowed::<1>` builds from `format`,
/// as a Julian day number; `None` where either of the two rejects its input.
pub uninterp spec fn parsed_julian_day(text: Seq<char>, format: Seq<char>) -> Option<i32>;

/// Calls `time::format_description::parse_borrowed::<1>` on `format` and
/// `time::Date::parse` on `text` with the description obtained, then
/// `time::Date::to_julian_day` on the date.
///
/// Trusted: the result is the named value `parsed_julian_day`, a function of
/// the two strings alone, and since every `time::Date` lies between
/// `Date::MIN` and `Date::MAX`, its day number lies between `MIN_DAY` and
/// `MAX_DAY`.
#[verifier::external_body]
fn parse_julian_day(text: &str, format: &str) -> (r: Option<i32>)
    ensures
        r == parsed_julian_day(text@, format@),
        r matches Some(n) ==> MIN_DAY <= n <= MAX_DAY,
{
    let Ok(items) = time::format_description::parse_borrowed::<1>(format) else {
        return None;
    };
    match time::Date::parse(text, &items) {
        Ok(date) => Some(date.to_julian_day()),
        Err(_) => None,
    }
}

/// Calls `time::OffsetDateTime::now_utc`, takes its `date` and that date's
/// `to_julian_day`.
///
/// Trusted: only that the day number read from the clock is that of a
/// `time::Date`, hence between `MIN_DAY` and `MAX_DAY`. Nothing links two
/// readings.
#[verifier::external_body]
fn utc_julian_day() -> (n: i32)
    ensures
        MIN_DAY <= n <= MAX_DAY,
{
    time::OffsetDateTime::now_utc().date().to_julian_day()
}

/// A calendar day.
#[derive(Clone, Copy, Debug, PartialEq, Eq, Structural)]
pub struct Day {
    number: i32,
}

impl View for Day {
    type V = int;

    /// The Julian day number.
    closed spec fn view(&self) -> int {
        self.number as int
    }
}

/// The day that a catalogue date text stands for, if it is one.
pub open spec fn parsed_day(text: Seq<char>) -> Option<int> {
    match parsed_julian_day(text, DATE_FORMAT@) {
        Some(n) => Some(n as int),
        None => None,
    }
}

/// The view of an optional day.
pub open spec fn day_view(day: Option<Day>) -> Option<int> {
    match day {
        Some(d) => Some(d@),
        None => None,
    }
}

/// Rank of two optional days: an absent day stands before every day.
pub open spec fn date_rank(a: Option<int>, b: Option<int>) -> Rank {
    match (a, b) {
        (None, None) => Rank::Same,
        (None, Some(_)) => Rank::Before,
        (Some(_), None) => Rank::After,
        (Some(x), Some(y)) => int_rank(x, y),
    }
}

impl Day {
    #[verifier::type_invariant]
    spec fn in_range(self) -> bool {
        MIN_DAY <= self.number <= MAX_DAY
    }

    /// The day with the given Julian day number, if it is representable.
    pub fn from_julian_day(number: i32) -> (r: Option<Day>)
        ensures
            r is Some <==> MIN_DAY <= number <= MAX_DAY,
            r matches Some(d) ==> d@ == number,
    {
        if MIN_DAY <= number && number <= MAX_DAY {
            Some(Day { number })
        } else {
            None
        }
    }

    /// The Julian day number of this day.
    pub fn julian_day(self) -> (n: i32)
        ensures
            n == self@,
            MIN_DAY <= n <= MAX_DAY,
    {
        proof {
            use_type_invariant(self);
        }
        self.number
    }

    /// Reads a catalogue date written as year, month and day of month.
    pub fn parse(text: &str) -> (r: Option<Day>)
        ensures
            day_view(r) == parsed_day(text@),
    {
        match parse_julian_day(text, DATE_FORMAT) {
            Some(number) => Day::from_julian_day(number),
            None => None,
        }
    }

    /// The current day in UTC, as the system clock has it.
    pub fn today() -> (day: Day)
        ensures
            MIN_DAY <= day@ <= MAX_DAY,
    {
        let number = utc_julian_day();
        Day { number }
    }

    /// The day `days` days before this one, if it is representable.
    pub fn days_before(self, days: u64) -> (r: Option<Day>)
        ensures
            r is Some <==> self@ - days >= MIN_DAY,
            r matches Some(d) ==> d@ == self@ - days,
    {
        let number = self.julian_day();
        if days <= 7_304_483 {
            let back: i32 = days as i32;
            Day::from_julian_day(number - back)
        } else {
            None
        }
    }

    /// The day before this one.
    pub fn day_before(self) -> (r: Day)
        requires
            self@ > MIN_DAY,
        ensures
            r@ == self@ - 1,
    {
        proof {
            use_type_invariant(self);
        }
        Day { number: self.number - 1 }
    }

    /// Rank of this day relative to `other`, in calendar order.
    pub fn rank(self, other: Day) -> (r: Rank)
        ensures
            r == int_rank(self@, other@),
    {
        if self.number < other.number {
            Rank::Before
        } else if self.number == other.number {
            Rank::Same
        } else {
            Rank::After
        }
    }

    /// Whether this day is `other` or a later day.
    pub fn at_or_after(self, other: Day) -> (r: bool)
        ensures
            r == (self@ >= other@),
    {
        self.number >= other.number
    }
}

/// Rank of two optional days, an absent day standing first.
pub fn rank_dates(a: Option<Day>, b: Option<Day>) -> (r: Rank)
    ensures
        r == date_rank(day_view(a), day_view(b)),
{
    match (a, b) {
        (None, None) => Rank::Same,
        (None, Some(_)) => Rank::Before,
        (Some(_), None) => Rank::After,
        (Some(x), Some(y)) => x.rank(y),
    }
}

} // verus!
