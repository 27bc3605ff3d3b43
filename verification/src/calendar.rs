//! Calendar arithmetic for monthly billing cycles.
//!
//! A plan renews on the same day of every month when that day exists, and on
//! the month's last day when it does not.  Dates come from file names and the
//! system clock without validation, so the functions here accept any numbers
//! and only leave out the inputs on which a counter would overflow.

use vstd::prelude::*;

verus! {

/// A calendar date.  Its fields are not validated: a month may lie outside
/// 1..=12 and a day outside the month.
#[derive(Clone, Copy, Debug, PartialEq, Eq, Structural, PartialOrd, Ord)]
pub struct DateKey {
    pub year: u16,
    pub month: u16,
    pub day: u16,
}

impl DateKey {
    /// Lexicographic order on (year, month, day): `self` comes strictly first.
    pub open spec fn before(self, other: DateKey) -> bool {
        ||| self.year < other.year
        ||| (self.year == other.year && self.month < other.month)
        ||| (self.year == other.year && self.month == other.month && self.day < other.day)
    }

    /// `self` is `other` or comes before it.
    pub open spec fn not_after(self, other: DateKey) -> bool {
        self.before(other) || self == other
    }

    /// A date that exists in the proleptic Gregorian calendar.
    pub open spec fn is_valid(self) -> bool {
        &&& 1 <= self.month <= 12
        &&& 1 <= self.day <= spec_last_day_of_month(self.year as int, self.month as int)
    }

    /// Whether `self` comes strictly before `other`.
    pub fn is_before(&self, other: &DateKey) -> (r: bool)
        ensures
            r == self.before(*other),
    {
        self.year < other.year || (self.year == other.year && self.month < other.month) || (
        self.year == other.year && self.month == other.month && self.day < other.day)
    }

    /// Whether `self` is `other` or comes before it.
    pub fn is_not_after(&self, other: &DateKey) -> (r: bool)
        ensures
            r == self.not_after(*other),
    {
        self.is_before(other) || (self.year == other.year && self.month == other.month
            && self.day == other.day)
    }
}

/// Gregorian leap years.
pub open spec fn spec_is_leap_year(year: int) -> bool {
    (year % 4 == 0 && year % 100 != 0) || year % 400 == 0
}

/// Whether `year` is a Gregorian leap year.
pub fn is_leap_year(year: u16) -> (r: bool)
    ensures
        r == spec_is_leap_year(year as int),
{
    (year % 4 == 0 && year % 100 != 0) || year % 400 == 0
}

/// Number of days in a month; a month number outside 1..=12 counts 31 days.
pub open spec fn spec_last_day_of_month(year: int, month: int) -> int {
    if month == 1 || month == 3 || month == 5 || month == 7 || month == 8 || month == 10 || month
        == 12 {
        31
    } else if month == 4 || month == 6 || month == 9 || month == 11 {
        30
    } else if month == 2 {
        if spec_is_leap_year(year) {
            29
        } else {
            28
        }
    } else {
        31
    }
}

/// The last day of `month` in `year`.
pub fn last_day_of_month(year: u16, month: u16) -> (r: u16)
    ensures
        r == spec_last_day_of_month(year as int, month as int),
        28 <= r <= 31,
{
    match month {
        1 | 3 | 5 | 7 | 8 | 10 | 12 => 31,
        4 | 6 | 9 | 11 => 30,
        2 => if is_leap_year(year) {
            29
        } else {
            28
        },
        _ => 31,
    }
}

/// The month after (year, month).
pub open spec fn spec_next_month(year: u16, month: u16) -> (u16, u16) {
    if month == 12 {
        ((year + 1) as u16, 1)
    } else {
        (year, (month + 1) as u16)
    }
}

/// The step to the next month stays within `u16`.
pub open spec fn next_month_defined(year: u16, month: u16) -> bool {
    if month == 12 {
        year < u16::MAX
    } else {
        month < u16::MAX
    }
}

/// The month after (year, month): December rolls over into January of the
/// next year.
pub fn next_month(year: u16, month: u16) -> (r: (u16, u16))
    requires
        next_month_defined(year, month),
    ensures
        r == spec_next_month(year, month),
{
    if month == 12 {
        (year + 1, 1)
    } else {
        (year, month + 1)
    }
}

/// The month before (year, month); the year does not go below zero.
pub open spec fn spec_previous_month(year: u16, month: u16) -> (u16, u16) {
    if month == 1 {
        (
            if year == 0 {
                0u16
            } else {
                (year - 1) as u16
            },
            12,
        )
    } else {
        (year, (month - 1) as u16)
    }
}

/// The month before (year, month): January rolls back into December of the
/// previous year, and year zero stays zero.
pub fn previous_month(year: u16, month: u16) -> (r: (u16, u16))
    requires
        month != 0,
    ensures
        r == spec_previous_month(year, month),
{
    if month == 1 {
        (year.saturating_sub(1), 12)
    } else {
        (year, month - 1)
    }
}

/// A plan start day brought into 1..=31.
pub open spec fn clamp_cycle_day(cycle_day: int) -> int {
    if cycle_day < 1 {
        1
    } else if cycle_day > 31 {
        31
    } else {
        cycle_day
    }
}

/// The day on which a cycle anchored at `cycle_day` starts in a month: the
/// anchor day itself, or the month's last day when the month is shorter.
pub open spec fn anchored_day(cycle_day: int, year: int, month: int) -> int {
    let day = clamp_cycle_day(cycle_day);
    let last = spec_last_day_of_month(year, month);
    if day < last {
        day
    } else {
        last
    }
}

/// The start of the cycle anchored at `cycle_day` within today's month.
pub open spec fn this_month_start(today: DateKey, cycle_day: int) -> DateKey {
    DateKey {
        year: today.year,
        month: today.month,
        day: anchored_day(cycle_day, today.year as int, today.month as int) as u16,
    }
}

/// The start of the billing cycle that contains `today`.
pub open spec fn spec_current_cycle_start(today: DateKey, cycle_day: int) -> DateKey {
    let this_start = this_month_start(today, cycle_day);
    if this_start.not_after(today) {
        this_start
    } else {
        let (year, month) = spec_previous_month(today.year, today.month);
        DateKey { year, month, day: anchored_day(cycle_day, year as int, month as int) as u16 }
    }
}

/// The start of the current cycle can be computed without stepping back
/// from month zero.
pub open spec fn cycle_start_defined(today: DateKey, cycle_day: int) -> bool {
    this_month_start(today, cycle_day).not_after(today) || today.month != 0
}

/// The start of the billing cycle that contains `today`, for a plan that
/// renews on `cycle_day` (brought into 1..=31).
pub fn current_cycle_start(today: DateKey, cycle_day: u16) -> (r: DateKey)
    requires
        cycle_start_defined(today, cycle_day as int),
    ensures
        r == spec_current_cycle_start(today, cycle_day as int),
{
    let cycle_day = if cycle_day < 1 {
        1
    } else if cycle_day > 31 {
        31
    } else {
        cycle_day
    };
    let last = last_day_of_month(today.year, today.month);
    let this_start = DateKey {
        year: today.year,
        month: today.month,
        day: if cycle_day < last {
            cycle_day
        } else {
            last
        },
    };
    if this_start.is_not_after(&today) {
        this_start
    } else {
        let (year, month) = previous_month(today.year, today.month);
        let last = last_day_of_month(year, month);
        DateKey {
            year,
            month,
            day: if cycle_day < last {
                cycle_day
            } else {
                last
            },
        }
    }
}

/// The start of the billing cycle after the one that contains `today`.
pub open spec fn spec_next_cycle_start(today: DateKey, cycle_day: int) -> DateKey {
    let start = spec_current_cycle_start(today, cycle_day);
    let (year, month) = spec_next_month(start.year, start.month);
    DateKey { year, month, day: anchored_day(cycle_day, year as int, month as int) as u16 }
}

/// The next cycle start can be computed without overflow.
pub open spec fn next_cycle_start_defined(today: DateKey, cycle_day: int) -> bool {
    &&& cycle_start_defined(today, cycle_day)
    &&& next_month_defined(
        spec_current_cycle_start(today, cycle_day).year,
        spec_current_cycle_start(today, cycle_day).month,
    )
}

/// The date on which the cycle after the current one starts.
pub fn next_cycle_start(today: DateKey, cycle_day: u16) -> (r: DateKey)
    requires
        next_cycle_start_defined(today, cycle_day as int),
    ensures
        r == spec_next_cycle_start(today, cycle_day as int),
{
    let start = current_cycle_start(today, cycle_day);
    let clamped = if cycle_day < 1 {
        1
    } else if cycle_day > 31 {
        31
    } else {
        cycle_day
    };
    let (year, month) = next_month(start.year, start.month);
    let last = last_day_of_month(year, month);
    DateKey {
        year,
        month,
        day: if clamped < last {
            clamped
        } else {
            last
        },
    }
}

/// Days from 0001-01-01 (day 1) to the first day of `year`, minus one;
/// year zero counts one plain year before year one.
pub open spec fn days_before_year(year: int) -> int {
    if year <= 0 {
        -365
    } else {
        (year - 1) * 365 + (year - 1) / 4 - (year - 1) / 100 + (year - 1) / 400
    }
}

/// Days in the months of `year` that come before `month`.
pub open spec fn days_before_month(year: int, month: int) -> int
    decreases month,
{
    if month <= 1 {
        0
    } else {
        days_before_month(year, month - 1) + spec_last_day_of_month(year, month - 1)
    }
}

/// The day number of `date`, counted so that 0001-01-01 is day 1.
pub open spec fn spec_ordinal_day(date: DateKey) -> int {
    days_before_year(date.year as int) + days_before_month(date.year as int, date.month as int)
        + date.day
}

proof fn lemma_days_before_month_bounds(year: int, month: int)
    ensures
        0 <= days_before_month(year, month),
        month >= 1 ==> days_before_month(year, month) <= 31 * (month - 1),
        month >= 1 ==> days_before_month(year, month) >= 28 * (month - 1),
    decreases month,
{
    if month > 1 {
        lemma_days_before_month_bounds(year, month - 1);
    }
}

/// The day number of `date`, counted so that 0001-01-01 is day 1.
pub fn ordinal_day(date: DateKey) -> (r: i32)
    ensures
        r == spec_ordinal_day(date),
{
    let year = date.year as i32;
    let years_before = year - 1;
    let leap_days = if years_before < 0 {
        0
    } else {
        years_before / 4 - years_before / 100 + years_before / 400
    };
    let mut days: i32 = years_before * 365 + leap_days;
    let mut month: u16 = 1;
    assert(days == days_before_year(date.year as int) + days_before_month(date.year as int, 1));
    while month < date.month
        invariant
            1 <= month,
            date.month >= 1 ==> month <= date.month,
            date.month == 0 ==> month == 1,
            days == days_before_year(date.year as int) + days_before_month(
                date.year as int,
                month as int,
            ),
            days_before_year(date.year as int) <= 24000000,
            days_before_year(date.year as int) >= -365,
            0 <= days_before_month(date.year as int, month as int) <= 31 * (month - 1),
        decreases date.month - month,
    {
        proof {
            lemma_days_before_month_bounds(date.year as int, month as int + 1);
        }
        days = days + last_day_of_month(date.year, month) as i32;
        month = month + 1;
    }
    if date.month == 0 {
        assert(days_before_month(date.year as int, 0) == 0);
        assert(days_before_month(date.year as int, 1) == 0);
    } else {
        assert(month == date.month);
    }
    assert(days_before_month(date.year as int, month as int) == days_before_month(
        date.year as int,
        date.month as int,
    ));
    days + date.day as i32
}

/// The number of days from `start` to `end` (negative when `end` comes
/// first).
pub fn days_between(start: DateKey, end: DateKey) -> (r: i32)
    ensures
        r == spec_ordinal_day(end) - spec_ordinal_day(start),
{
    proof {
        lemma_days_before_month_bounds(start.year as int, start.month as int);
        lemma_days_before_month_bounds(end.year as int, end.month as int);
    }
    ordinal_day(end) - ordinal_day(start)
}

/// The months from (year, month) on, one month at a time, up to and
/// including (end_year, end_month), and at most `limit` of them.
pub open spec fn month_walk(year: u16, month: u16, end_year: u16, end_month: u16, limit: nat) -> Seq<
    (u16, u16),
>
    decreases limit,
{
    if limit == 0 {
        seq![]
    } else if year == end_year && month == end_month {
        seq![(year, month)]
    } else {
        let (next_year, next_month) = spec_next_month(year, month);
        seq![(year, month)] + month_walk(next_year, next_month, end_year, end_month, (limit - 1) as nat)
    }
}

/// Every step that the walk over `limit` months takes stays within `u16`.
pub open spec fn walk_defined(year: u16, month: u16, end_year: u16, end_month: u16, limit: nat) -> bool
    decreases limit,
{
    if limit == 0 {
        true
    } else if year == end_year && month == end_month {
        true
    } else {
        let (next_year, next_month) = spec_next_month(year, month);
        next_month_defined(year, month) && walk_defined(
            next_year,
            next_month,
            end_year,
            end_month,
            (limit - 1) as nat,
        )
    }
}

/// The (year, month) pairs of the session folders to scan from `start` to
/// `end`: each month from `start` on, up to and including `end`'s month, and
/// at most fourteen of them.
pub fn cycle_month_dirs(start: DateKey, end: DateKey) -> (r: Vec<(u16, u16)>)
    requires
        walk_defined(start.year, start.month, end.year, end.month, 14),
    ensures
        r@ == month_walk(start.year, start.month, end.year, end.month, 14),
{
    let mut dirs: Vec<(u16, u16)> = Vec::new();
    let mut year = start.year;
    let mut month = start.month;
    let mut step: u32 = 0;
    while step < 14
        invariant_except_break
            step <= 14,
            walk_defined(year, month, end.year, end.month, (14 - step) as nat),
            dirs@ + month_walk(year, month, end.year, end.month, (14 - step) as nat) == month_walk(
                start.year,
                start.month,
                end.year,
                end.month,
                14,
            ),
        ensures
            dirs@ == month_walk(start.year, start.month, end.year, end.month, 14),
        decreases 14 - step,
    {
        dirs.push((year, month));
        if year == end.year && month == end.month {
            break;
        }
        let ghost old_dirs = dirs@;
        if month == 12 {
            year = year + 1;
            month = 1;
        } else {
            month = month + 1;
        }
        step = step + 1;
        assert(old_dirs + month_walk(year, month, end.year, end.month, (14 - step) as nat)
            =~= dirs@ + month_walk(year, month, end.year, end.month, (14 - step) as nat));
    }
    dirs
}

/// The session months to scan for the cycle that starts at `cycle_start`:
/// from the month before it through today's month.  Sessions started in the
/// month before can still hold events inside the cycle.
pub fn cycle_scan_month_dirs(cycle_start: DateKey, today: DateKey) -> (r: Vec<(u16, u16)>)
    requires
        cycle_start.month != 0,
        walk_defined(
            spec_previous_month(cycle_start.year, cycle_start.month).0,
            spec_previous_month(cycle_start.year, cycle_start.month).1,
            today.year,
            today.month,
            14,
        ),
    ensures
        r@ == month_walk(
            spec_previous_month(cycle_start.year, cycle_start.month).0,
            spec_previous_month(cycle_start.year, cycle_start.month).1,
            today.year,
            today.month,
            14,
        ),
{
    let (year, month) = previous_month(cycle_start.year, cycle_start.month);
    cycle_month_dirs(DateKey { year, month, day: 1 }, today)
}

/// The calendar day after `date`.
pub open spec fn next_day(date: DateKey) -> DateKey {
    if (date.day as int) < spec_last_day_of_month(date.year as int, date.month as int) {
        DateKey { year: date.year, month: date.month, day: (date.day + 1) as u16 }
    } else if date.month < 12 {
        DateKey { year: date.year, month: (date.month + 1) as u16, day: 1 }
    } else {
        DateKey { year: (date.year + 1) as u16, month: 1, day: 1 }
    }
}

/// Stepping a month forward undoes stepping it back, and stepping it back
/// undoes stepping it forward, for real months away from the ends of the
/// `u16` year range.
pub proof fn lemma_month_steps_invert(year: u16, month: u16)
    requires
        1 <= month <= 12,
    ensures
        (year >= 1 || month >= 2) ==> spec_next_month(
            spec_previous_month(year, month).0,
            spec_previous_month(year, month).1,
        ) == (year, month),
        next_month_defined(year, month) ==> spec_previous_month(
            spec_next_month(year, month).0,
            spec_next_month(year, month).1,
        ) == (year, month),
{
}

/// For a real date, the current cycle starts on or before today, in today's
/// month or the one before, and the next cycle starts after today, one month
/// after the current start.  Both starts fall on the plan day, or on the
/// month's last day when the month is shorter.
pub proof fn lemma_cycle_brackets_today(today: DateKey, cycle_day: u16)
    requires
        today.is_valid(),
        today.year >= 1 || today.month >= 2,
        next_cycle_start_defined(today, cycle_day as int),
    ensures
        ({
            let start = spec_current_cycle_start(today, cycle_day as int);
            let next = spec_next_cycle_start(today, cycle_day as int);
            &&& start.not_after(today)
            &&& today.before(next)
            &&& (start.year, start.month) == (today.year, today.month) || spec_next_month(
                start.year,
                start.month,
            ) == (today.year, today.month)
            &&& (next.year, next.month) == spec_next_month(start.year, start.month)
            &&& start.day as int == anchored_day(cycle_day as int, start.year as int, start.month as int)
            &&& next.day as int == anchored_day(cycle_day as int, next.year as int, next.month as int)
            &&& start.is_valid()
            &&& next.is_valid()
        }),
{
}

/// Counting days from the previous year: a year adds 365 days, plus one in a
/// leap year.
proof fn lemma_days_before_year_step(year: int)
    requires
        year >= 1,
    ensures
        days_before_year(year + 1) == days_before_year(year) + 365 + if spec_is_leap_year(year) {
            1int
        } else {
            0int
        },
{
    assert((year / 4 - (year - 1) / 4) == if year % 4 == 0 { 1int } else { 0int }) by (nonlinear_arith)
        requires year >= 1;
    assert((year / 100 - (year - 1) / 100) == if year % 100 == 0 { 1int } else { 0int }) by (nonlinear_arith)
        requires year >= 1;
    assert((year / 400 - (year - 1) / 400) == if year % 400 == 0 { 1int } else { 0int }) by (nonlinear_arith)
        requires year >= 1;
    assert(year % 400 == 0 ==> year % 100 == 0) by (nonlinear_arith);
    assert(year % 100 == 0 ==> year % 4 == 0) by (nonlinear_arith);
}

/// The months of a year add up to 365 days, or 366 in a leap year.
proof fn lemma_year_length(year: int)
    ensures
        days_before_month(year, 13) == 365 + if spec_is_leap_year(year) {
            1int
        } else {
            0int
        },
{
    reveal_with_fuel(days_before_month, 13);
}

/// Consecutive days have consecutive day numbers, across month and year
/// ends, from year one on.
pub proof fn lemma_ordinal_day_successor(date: DateKey)
    requires
        date.is_valid(),
        1 <= date.year < u16::MAX,
    ensures
        spec_ordinal_day(next_day(date)) == spec_ordinal_day(date) + 1,
{
    if (date.day as int) < spec_last_day_of_month(date.year as int, date.month as int) {
    } else if date.month < 12 {
        assert(days_before_month(date.year as int, date.month + 1) == days_before_month(
            date.year as int,
            date.month as int,
        ) + spec_last_day_of_month(date.year as int, date.month as int));
    } else {
        lemma_days_before_year_step(date.year as int);
        lemma_year_length(date.year as int);
        assert(days_before_month(date.year as int, 13) == days_before_month(date.year as int, 12)
            + 31);
    }
}

proof fn lemma_days_before_month_monotone(year: int, m1: int, m2: int)
    requires
        m1 <= m2,
    ensures
        days_before_month(year, m1) <= days_before_month(year, m2),
    decreases m2 - m1,
{
    if m1 < m2 {
        lemma_days_before_month_monotone(year, m1, m2 - 1);
        if m2 > 1 {
            assert(days_before_month(year, m2) == days_before_month(year, m2 - 1)
                + spec_last_day_of_month(year, m2 - 1));
        }
    }
}

proof fn lemma_days_before_year_monotone(y1: int, y2: int)
    requires
        1 <= y1 <= y2,
    ensures
        days_before_year(y1) <= days_before_year(y2),
    decreases y2 - y1,
{
    if y1 < y2 {
        lemma_days_before_year_monotone(y1, y2 - 1);
        lemma_days_before_year_step(y2 - 1);
    }
}

/// Day numbers follow calendar order on real dates from year one on.
pub proof fn lemma_ordinal_day_monotone(a: DateKey, b: DateKey)
    requires
        a.is_valid(),
        b.is_valid(),
        a.year >= 1,
        a.before(b),
    ensures
        spec_ordinal_day(a) < spec_ordinal_day(b),
{
    let ya = a.year as int;
    if a.year == b.year && a.month == b.month {
    } else if a.year == b.year {
        assert(days_before_month(ya, a.month + 1) == days_before_month(ya, a.month as int)
            + spec_last_day_of_month(ya, a.month as int));
        lemma_days_before_month_monotone(ya, a.month + 1, b.month as int);
    } else {
        lemma_days_before_month_monotone(ya, a.month as int, 12);
        assert(days_before_month(ya, 13) == days_before_month(ya, 12) + 31);
        lemma_year_length(ya);
        lemma_days_before_year_step(ya);
        lemma_days_before_year_monotone(ya + 1, b.year as int);
        lemma_days_before_month_bounds(b.year as int, b.month as int);
    }
}

/// For a real date, the number of days until the next cycle starts is
/// positive, so the count shown to the user never needs clamping.
pub proof fn lemma_days_until_reset_positive(today: DateKey, cycle_day: u16)
    requires
        today.is_valid(),
        today.year >= 1,
        next_cycle_start_defined(today, cycle_day as int),
    ensures
        spec_ordinal_day(spec_next_cycle_start(today, cycle_day as int)) - spec_ordinal_day(today)
            > 0,
{
    lemma_cycle_brackets_today(today, cycle_day);
    lemma_ordinal_day_monotone(today, spec_next_cycle_start(today, cycle_day as int));
}

/// A cycle renews on the plan's day of the month (brought into 1..=31), or
/// on the month's last day when the month has no such day.
pub proof fn lemma_next_cycle_keeps_anchor(today: DateKey, cycle_day: u16)
    requires
        next_cycle_start_defined(today, cycle_day as int),
    ensures
        ({
            let next = spec_next_cycle_start(today, cycle_day as int);
            let day = clamp_cycle_day(cycle_day as int);
            let last = spec_last_day_of_month(next.year as int, next.month as int);
            next.day == if day <= last {
                day
            } else {
                last
            }
        }),
{
}

/// Whether the step to the next month stays within `u16`.
pub fn next_month_is_defined(year: u16, month: u16) -> (r: bool)
    ensures
        r == next_month_defined(year, month),
{
    if month == 12 {
        year < u16::MAX
    } else {
        month < u16::MAX
    }
}

/// Whether the current and next cycle starts can be computed for `today`
/// (false only at the very end of the `u16` calendar or for month zero).
pub fn next_cycle_start_is_defined(today: DateKey, cycle_day: u16) -> (r: bool)
    ensures
        r == next_cycle_start_defined(today, cycle_day as int),
{
    let cycle_day_clamped = if cycle_day < 1 {
        1
    } else if cycle_day > 31 {
        31
    } else {
        cycle_day
    };
    let last = last_day_of_month(today.year, today.month);
    let this_start = DateKey {
        year: today.year,
        month: today.month,
        day: if cycle_day_clamped < last {
            cycle_day_clamped
        } else {
            last
        },
    };
    if !(this_start.is_not_after(&today) || today.month != 0) {
        return false;
    }
    let start = current_cycle_start(today, cycle_day);
    next_month_is_defined(start.year, start.month)
}

/// Whether the walk over at most fourteen months from `start` to `end`
/// stays within `u16`.
pub fn month_walk_is_defined(start: DateKey, end: DateKey) -> (r: bool)
    ensures
        r == walk_defined(start.year, start.month, end.year, end.month, 14),
{
    let mut year = start.year;
    let mut month = start.month;
    let mut left: u32 = 14;
    while left > 0
        invariant
            left <= 14,
            walk_defined(start.year, start.month, end.year, end.month, 14) == walk_defined(
                year,
                month,
                end.year,
                end.month,
                left as nat,
            ),
        decreases left,
    {
        if year == end.year && month == end.month {
            return true;
        }
        if !next_month_is_defined(year, month) {
            return false;
        }
        let (next_year, next_month_value) = next_month(year, month);
        year = next_year;
        month = next_month_value;
        left = left - 1;
    }
    true
}

/// Whether the session months of the cycle that starts at `cycle_start`
/// can be listed up to `today`.
pub fn scan_months_are_defined(cycle_start: DateKey, today: DateKey) -> (r: bool)
    ensures
        r == (cycle_start.month != 0 && walk_defined(
            spec_previous_month(cycle_start.year, cycle_start.month).0,
            spec_previous_month(cycle_start.year, cycle_start.month).1,
            today.year,
            today.month,
            14,
        )),
{
    if cycle_start.month == 0 {
        return false;
    }
    let (year, month) = previous_month(cycle_start.year, cycle_start.month);
    month_walk_is_defined(DateKey { year, month, day: 1 }, today)
}

} // verus!
