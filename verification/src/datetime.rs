//! FAT datetime.

use vstd::prelude::*;

verus! {

/// Days of a non-leap year that precede the month with 0-based index `m`.
pub open spec fn spec_month_days_before(m: int) -> int {
    if m <= 0 {
        0
    } else if m == 1 {
        31
    } else if m == 2 {
        59
    } else if m == 3 {
        90
    } else if m == 4 {
        120
    } else if m == 5 {
        151
    } else if m == 6 {
        181
    } else if m == 7 {
        212
    } else if m == 8 {
        243
    } else if m == 9 {
        273
    } else if m == 10 {
        304
    } else {
        334
    }
}

/// Days from the start of a four-year leap cycle (whose first year is the leap
/// year) to the start of month `m` of year `y` of the cycle.
pub open spec fn spec_leap_cycle_days(y: int, m: int) -> int {
    if y == 0 {
        spec_month_days_before(m) + (if m >= 2 {
            1int
        } else {
            0int
        })
    } else {
        366 + 365 * (y - 1) + spec_month_days_before(m)
    }
}

/// The UNIX timestamp of a FAT datetime: seconds since the epoch for the
/// years 2000 to 2099, and zero for any year outside that range.
pub open spec fn spec_to_unix_time(dt: FatDateTime) -> int {
    if dt.year > 2099 || dt.year < 2000 {
        0
    } else {
        let year = dt.year as int % 100;
        946_684_800 + (((year / 4 * (365 * 4 + 1) + spec_leap_cycle_days(
            year % 4,
            dt.month as int - 1,
        ) + (dt.day as int - 1)) * 24 + dt.hour as int) * 60 + dt.minutes as int) * 60
            + dt.seconds as int
    }
}

/// Represent a FAT date time
#[derive(Debug, Clone, Copy, PartialEq, Eq, Structural)]
pub struct FatDateTime {
    /// The year of the datetime.
    pub year: u16,

    /// The month of the datetime.
    pub month: u8,

    /// The day of the datetime.
    pub day: u8,

    /// The hour of the datetime.
    pub hour: u8,

    /// The minutes of the datetime.
    pub minutes: u8,

    /// The seconds of the datetime.
    pub seconds: u8,

    /// The tenths of second of the datetime.
    pub tenths: u8,
}

impl FatDateTime {
    /// Create a new datetime
    pub fn new(year: u16, month: u8, day: u8, hour: u8, minutes: u8, seconds: u8, tenths: u8) -> (r:
        FatDateTime)
        ensures
            r == (FatDateTime { year, month, day, hour, minutes, seconds, tenths }),
    {
        FatDateTime { year, month, day, hour, minutes, seconds, tenths }
    }

    /// Days of a non-leap year preceding the month with the given 0-based index.
    fn month_days_before(month_index: u64) -> (r: u64)
        requires
            month_index < 12,
        ensures
            r as int == spec_month_days_before(month_index as int),
            r <= 334,
    {
        match month_index {
            0 => 0,
            1 => 31,
            2 => 59,
            3 => 90,
            4 => 120,
            5 => 151,
            6 => 181,
            7 => 212,
            8 => 243,
            9 => 273,
            10 => 304,
            _ => 334,
        }
    }

    /// Convert the FAT datetime to a UNIX timestamp.
    /// NOTE: This only support the 2000-2099 range. If something outside this
    /// range is provided, it will return an UNIX epoch.
    #[verifier::rlimit(100)]
    pub fn to_unix_time(&self) -> (r: u64)
        requires
            2000 <= self.year <= 2099 ==> (1 <= self.month <= 12 && self.day >= 1),
        ensures
            r as int == spec_to_unix_time(*self),
    {
        if self.year > 2099 || self.year < 2000 {
            return 0;
        }

        let year = (self.year as u64) % 100;
        let month = (self.month as u64) - 1;
        let day = (self.day as u64) - 1;

        let hour = self.hour as u64;
        let minutes = self.minutes as u64;
        let seconds = self.seconds as u64;

        proof {
            assert(year <= 99);
        }
        let cycle_days = if year % 4 == 0 {
            Self::month_days_before(month) + (if month >= 2 {
                1
            } else {
                0
            })
        } else {
            366 + 365 * (year % 4 - 1) + Self::month_days_before(month)
        };

        let cycles = year / 4;
        proof {
            assert(cycle_days <= 1430);
            assert(day <= 254);
            vstd::arithmetic::div_mod::lemma_fundamental_div_mod(year as int, 4);
            vstd::arithmetic::div_mod::lemma_mod_bound(year as int, 4);
            assert(cycles <= 24);
            vstd::arithmetic::mul::lemma_mul_inequality(cycles as int, 24int, 1461int);
            assert(cycles as int * 1461int <= 24int * 1461int);
        }
        let days = cycles * (365 * 4 + 1) + cycle_days + day;
        let hours_total = days * 24 + hour;
        let minutes_total = hours_total * 60 + minutes;
        let seconds_total = minutes_total * 60 + seconds;
        946_684_800 + seconds_total
    }
}

} // verus!
