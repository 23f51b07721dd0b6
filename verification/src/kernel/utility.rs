use vstd::prelude::*;

use crate::machine::SystemTime;

verus! {

pub const SECONDS_IN_MINUTE: usize = 60;
pub const SECONDS_IN_HOUR: usize = 3600;
pub const SECONDS_IN_DAY: usize = 86400;

/// Days of the year before each month (non-leap year).
pub open spec fn days_before_month(month: int) -> int {
    if month == 1 { 0 } else if month == 2 { 31 } else if month == 3 { 59 } else if month == 4 { 90 }
    else if month == 5 { 120 } else if month == 6 { 151 } else if month == 7 { 181 } else if month == 8 { 212 }
    else if month == 9 { 243 } else if month == 10 { 273 } else if month == 11 { 304 } else { 334 }
}

/// A leap year of the Gregorian calendar.
pub open spec fn leap(year: int) -> bool {
    year % 4 == 0 && (year % 100 != 0 || year % 400 == 0)
}

/// Days from 1 January 1970 to 1 January of `year`.
pub open spec fn days_from_1970(year: int) -> int
    decreases year - 1970,
{
    if year <= 1970 { 0 } else { days_from_1970(year - 1) + if leap(year - 1) { 366int } else { 365int } }
}

/// Seconds since 1 January 1970 of a clock reading.
pub open spec fn kernel_time_spec(t: SystemTime) -> int {
    let y = 2000 + t.year;
    let days = (t.day_of_month - 1) + days_before_month(t.month as int)
        + (if leap(y as int) && t.month >= 3 { 1int } else { 0 }) + days_from_1970(y as int);
    t.second + t.minute * 60 + t.hour * 3600 + days * 86400
}

/// A clock reading counts its time of day on a 24-hour clock: the reading is its
/// midnight plus `second + 60 * minute + 3600 * hour` seconds; the next day of the
/// month is 86400 seconds later; the next year starts 365 or 366 days (as the year is
/// leap) after this one.
pub proof fn law_kernel_time_counts_seconds(t: SystemTime)
    requires
        t.year >= 0,
    ensures
        kernel_time_spec(t) == kernel_time_spec(SystemTime { second: 0, minute: 0, hour: 0, ..t })
            + t.second + 60 * t.minute + 3600 * t.hour,
        t.day_of_month < i32::MAX ==> kernel_time_spec(SystemTime { day_of_month: (t.day_of_month + 1) as i32, ..t }) == kernel_time_spec(t) + 86400,
        t.year < i32::MAX ==> kernel_time_spec(SystemTime { year: (t.year + 1) as i32, month: 1, day_of_month: 1, ..t })
            == kernel_time_spec(SystemTime { month: 1, day_of_month: 1, ..t })
                + 86400 * (if leap(2000 + t.year) { 366int } else { 365int }),
{
    let y = 2000 + t.year;
    assert(days_from_1970(y + 1) == days_from_1970(y) + if leap(y) { 366int } else { 365int });
}

/// Midnight at the start of 1 January 2000 is 946684800 seconds after 1970 began.
pub proof fn law_kernel_time_epoch_2000()
    ensures
        kernel_time_spec(SystemTime { second: 0, minute: 0, hour: 0, day_of_month: 1, month: 1, year: 0, day_of_week: 6 }) == 946684800,
{
    reveal_with_fuel(days_from_1970, 31);
}

/// The year is a leap year.
pub fn is_leap(year: u32) -> (r: bool)
    ensures
        r == leap(year as int),
{
    year % 4 == 0 && (year % 100 != 0 || year % 400 == 0)
}

/// Days in the year.
pub fn days_in_year(year: u32) -> (r: usize)
    ensures
        r == (if leap(year as int) { 366int } else { 365int }),
{
    if is_leap(year) { 366 } else { 365 }
}

proof fn lemma_days_from_1970_mono(a: int, b: int)
    requires
        a <= b,
    ensures
        days_from_1970(a) <= days_from_1970(b),
        days_from_1970(a) >= 0,
    decreases b - a,
{
    if a < b {
        lemma_days_from_1970_mono(a, b - 1);
        if b > 1970 {
        }
    }
    if a > 1970 {
        lemma_days_from_1970_nonneg(a);
    }
}

proof fn lemma_days_from_1970_nonneg(a: int)
    ensures
        days_from_1970(a) >= 0,
    decreases a - 1970,
{
    if a > 1970 {
        lemma_days_from_1970_nonneg(a - 1);
    }
}

impl SystemTime {
    /// Seconds since 1 January 1970 of the reading (see `kernel_time_spec`). The month
    /// must be valid; the fields must not be negative.
    pub fn to_kernel_time(&self) -> (r: usize)
        requires
            0 < self.month < 13,
            0 <= self.second && 0 <= self.minute && 0 <= self.hour && 1 <= self.day_of_month,
            0 <= self.year <= 100000,
            kernel_time_spec(*self) <= usize::MAX,
        ensures
            r == kernel_time_spec(*self),
    {
        let current_year: i32 = 2000 + self.year;
        proof {
            lemma_days_from_1970_nonneg(current_year as int);
            assert(0 <= (self.minute as int) * 60 && 0 <= (self.hour as int) * 3600) by (nonlinear_arith)
                requires 0 <= self.minute, 0 <= self.hour;
            let days = (self.day_of_month - 1) + days_before_month(self.month as int)
                + (if leap(current_year as int) && self.month >= 3 { 1int } else { 0 }) + days_from_1970(current_year as int);
            assert(days >= 0);
            assert(days * 86400 >= 0 && days * 86400 >= days) by (nonlinear_arith)
                requires days >= 0;
        }
        let mut seconds: usize = self.second as usize;
        seconds = seconds + self.minute as usize * SECONDS_IN_MINUTE;
        seconds = seconds + self.hour as usize * SECONDS_IN_HOUR;
        let mut days: usize = (self.day_of_month - 1) as usize;
        let table: [usize; 12] = [0, 31, 59, 90, 120, 151, 181, 212, 243, 273, 304, 334];
        let m = (self.month - 1) as usize;
        days = days + table[m];
        assert(table[m as int] == days_before_month(self.month as int));
        if is_leap(current_year as u32) && self.month >= 3 {
            days = days + 1;
        }
        let mut year: i32 = 1970;
        let ghost d0 = days as int;
        while year < current_year
            invariant
                1970 <= year,
                year <= current_year || current_year < 1970,
                current_year == 2000 + self.year,
                current_year >= 2000,
                days == d0 + days_from_1970(year as int),
                d0 >= 0,
                d0 + days_from_1970(current_year as int) <= usize::MAX,
            decreases current_year - year,
        {
            proof {
                lemma_days_from_1970_mono(year as int + 1, current_year as int);
            }
            days = days + days_in_year(year as u32);
            year = year + 1;
        }
        proof {
            let total = seconds + (days as int) * 86400;
            assert(total == kernel_time_spec(*self));
        }
        seconds + days * SECONDS_IN_DAY
    }
}

/// A value that a system call hands back in a machine word.
pub trait NativeWord: Sized {
    /// The word's value.
    spec fn word(self) -> int;

    /// The value as a machine word.
    fn into_word(self) -> (r: usize)
        ensures
            r == self.word(),
    ;
}

impl NativeWord for u32 {
    open spec fn word(self) -> int {
        self as int
    }

    fn into_word(self) -> (r: usize) {
        self as usize
    }
}

impl NativeWord for usize {
    open spec fn word(self) -> int {
        self as int
    }

    fn into_word(self) -> (r: usize) {
        self
    }
}

impl NativeWord for () {
    open spec fn word(self) -> int {
        0
    }

    fn into_word(self) -> (r: usize) {
        0
    }
}

} // verus!
