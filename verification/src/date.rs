//! Calendar dates and timestamps.
//!
//! The store keeps every timestamp as a calendar date plus a second-of-day
//! offset, and the aggregation queries work on the calendar-date portion
//! alone.  Date arithmetic follows the proleptic Gregorian calendar over the
//! four-digit year range.

use vstd::prelude::*;

verus! {

/// A calendar date in the Gregorian calendar, with a four-digit year.
#[derive(Clone, Copy, PartialEq, Eq, Structural, Debug, Hash)]
pub struct Date {
    pub year: i32,
    pub month: i32,
    pub day: i32,
}

pub open spec fn spec_is_leap_year(y: int) -> bool {
    y % 4 == 0 && (y % 100 != 0 || y % 400 == 0)
}

pub open spec fn spec_days_in_month(y: int, m: int) -> int {
    if m == 2 {
        if spec_is_leap_year(y) {
            29
        } else {
            28
        }
    } else if m == 4 || m == 6 || m == 9 || m == 11 {
        30
    } else {
        31
    }
}

/// Whether `y` is a leap year.
pub fn is_leap_year(y: i32) -> (r: bool)
    ensures
        r == spec_is_leap_year(y as int),
{
    y % 4 == 0 && (y % 100 != 0 || y % 400 == 0)
}

/// The number of days in month `m` of year `y`.
pub fn days_in_month(y: i32, m: i32) -> (r: i32)
    requires
        1 <= m <= 12,
    ensures
        r == spec_days_in_month(y as int, m as int),
{
    if m == 2 {
        if is_leap_year(y) {
            29
        } else {
            28
        }
    } else if m == 4 || m == 6 || m == 9 || m == 11 {
        30
    } else {
        31
    }
}

impl Date {
    /// A well-formed calendar date: month and day in range for the year.
    pub open spec fn valid(self) -> bool {
        &&& 1 <= self.year <= 9999
        &&& 1 <= self.month <= 12
        &&& 1 <= self.day <= spec_days_in_month(self.year as int, self.month as int)
    }

    /// The greatest representable date; the day sequence stops here.
    pub open spec fn is_last_representable(self) -> bool {
        self.year == 9999 && self.month == 12 && self.day == 31
    }

    /// A measure that strictly increases day by day; used for termination.
    pub open spec fn idx(self) -> int {
        self.year as int * 372 + self.month as int * 31 + self.day as int
    }

    /// Calendar order.
    pub open spec fn spec_le(self, o: Date) -> bool {
        ||| self.year < o.year
        ||| (self.year == o.year && self.month < o.month)
        ||| (self.year == o.year && self.month == o.month && self.day <= o.day)
    }

    pub open spec fn spec_lt(self, o: Date) -> bool {
        self.spec_le(o) && self != o
    }

    /// The day after `self`.
    pub open spec fn spec_next(self) -> Date {
        if self.day < spec_days_in_month(self.year as int, self.month as int) {
            Date { year: self.year, month: self.month, day: (self.day + 1) as i32 }
        } else if self.month < 12 {
            Date { year: self.year, month: (self.month + 1) as i32, day: 1 }
        } else {
            Date { year: (self.year + 1) as i32, month: 1, day: 1 }
        }
    }

    /// Whether this date is well formed.
    pub fn check_valid(&self) -> (r: bool)
        ensures
            r == self.valid(),
    {
        1 <= self.year && self.year <= 9999 && 1 <= self.month && self.month <= 12 && 1 <= self.day
            && self.day <= days_in_month(self.year, self.month)
    }

    /// Calendar-order comparison.
    pub fn le(&self, o: &Date) -> (r: bool)
        ensures
            r == self.spec_le(*o),
    {
        self.year < o.year || (self.year == o.year && self.month < o.month) || (self.year == o.year
            && self.month == o.month && self.day <= o.day)
    }

    /// The day after `self`.
    pub fn next_day(&self) -> (r: Date)
        requires
            self.valid(),
            !self.is_last_representable(),
        ensures
            r == self.spec_next(),
            r.valid(),
            self.spec_lt(r),
    {
        if self.day < days_in_month(self.year, self.month) {
            Date { year: self.year, month: self.month, day: self.day + 1 }
        } else if self.month < 12 {
            Date { year: self.year, month: self.month + 1, day: 1 }
        } else {
            Date { year: self.year + 1, month: 1, day: 1 }
        }
    }
}

/// Strict calendar order agrees with the `idx` measure on well-formed dates.
pub proof fn lemma_lt_idx(a: Date, b: Date)
    requires
        a.valid(),
        b.valid(),
        a.spec_lt(b),
    ensures
        a.idx() < b.idx(),
{
}

/// Stepping to the next day moves strictly up the `idx` measure.
pub proof fn lemma_next_idx(d: Date)
    requires
        d.valid(),
        !d.is_last_representable(),
    ensures
        d.spec_next().valid(),
        d.spec_lt(d.spec_next()),
        d.idx() < d.spec_next().idx(),
{
}

/// The ordered sequence of calendar dates from `d0` to `d1`, both inclusive;
/// empty when the range is empty or a bound is malformed.
pub open spec fn date_range(d0: Date, d1: Date) -> Seq<Date>
    decreases (if d0.valid() && d1.valid() && d0.spec_le(d1) {
        d1.idx() - d0.idx() + 1
    } else {
        0
    }),
{
    if d0.valid() && d1.valid() && d0.spec_le(d1) {
        if d0 == d1 {
            seq![d0]
        } else {
            seq![d0] + date_range(d0.spec_next(), d1)
        }
    } else {
        Seq::empty()
    }
}

/// A one-day range holds exactly its bound.
pub proof fn lemma_date_range_single(d: Date)
    requires
        d.valid(),
    ensures
        date_range(d, d) =~= seq![d],
{
    reveal_with_fuel(date_range, 2);
}

/// A two-day range holds exactly its bounds, in ascending order.
pub proof fn lemma_date_range_adjacent(d: Date)
    requires
        d.valid(),
        !d.is_last_representable(),
    ensures
        date_range(d, d.spec_next()) =~= seq![d, d.spec_next()],
{
    reveal_with_fuel(date_range, 3);
}

/// Every range is ascending, starts at its lower bound, and covers each day
/// exactly once.
pub proof fn lemma_date_range_props(d0: Date, d1: Date)
    requires
        d0.valid(),
        d1.valid(),
        d0.spec_le(d1),
    ensures
        date_range(d0, d1).len() >= 1,
        date_range(d0, d1)[0] == d0,
        date_range(d0, d1).last() == d1,
        forall|i: int|
            0 <= i < date_range(d0, d1).len() ==> (#[trigger] date_range(d0, d1)[i]).valid(),
        forall|i: int|
            0 <= i < date_range(d0, d1).len() - 1 ==> (#[trigger] date_range(d0, d1)[i]).spec_lt(
                date_range(d0, d1)[i + 1],
            ),
    decreases d1.idx() - d0.idx(),
{
    if d0 == d1 {
    } else {
        lemma_next_idx(d0);
        lemma_lt_idx(d0, d1);
        if d0.spec_next().spec_le(d1) {
            lemma_date_range_props(d0.spec_next(), d1);
        } else {
            lemma_between(d0, d1);
        }
    }
}

/// There is no date strictly between a day and the next.
pub proof fn lemma_between(d0: Date, d1: Date)
    requires
        d0.valid(),
        d1.valid(),
        d0.spec_lt(d1),
        !d0.is_last_representable(),
    ensures
        d0.spec_next().spec_le(d1),
{
}

/// A timestamp: a calendar date plus a second-of-day offset.
#[derive(Clone, Copy, PartialEq, Eq, Structural, Debug)]
pub struct Timestamp {
    pub date: Date,
    pub second_of_day: u32,
}

impl Timestamp {
    pub open spec fn valid(self) -> bool {
        self.date.valid() && self.second_of_day < 86400
    }

    /// Chronological order: by date, then by second of day.
    pub open spec fn spec_le(self, o: Timestamp) -> bool {
        self.date.spec_lt(o.date) || (self.date == o.date && self.second_of_day
            <= o.second_of_day)
    }

    /// Whether this timestamp is well formed.
    pub fn check_valid(&self) -> (r: bool)
        ensures
            r == self.valid(),
    {
        self.date.check_valid() && self.second_of_day < 86400
    }

    /// Chronological order is total: of any two timestamps one precedes the
    /// other.
    pub proof fn lemma_le_total(a: Timestamp, b: Timestamp)
        ensures
            a.spec_le(b) || b.spec_le(a),
    {
    }

    /// Chronological comparison.
    pub fn le(&self, o: &Timestamp) -> (r: bool)
        ensures
            r == self.spec_le(*o),
    {
        if self.date == o.date {
            self.second_of_day <= o.second_of_day
        } else {
            self.date.le(&o.date)
        }
    }
}

} // verus!
