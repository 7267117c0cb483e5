//! Calendar dates, decrement by one day, and the date key format used by
//! the raw records: `month/day/2-digit-year`, month and day without leading
//! zeros, the year zero-padded to two digits.

use vstd::prelude::*;
use chrono::Datelike;
use crate::numfmt::{dec_str, dec_str_pad2, u64_to_string, u64_to_string_pad2};

verus! {

/// A proleptic Gregorian calendar date.
#[derive(Clone, Copy, PartialEq, Eq, Structural, Debug)]
pub struct Date {
    pub year: u32,
    pub month: u8,
    pub day: u8,
}

/// Whether `y` is a leap year.
pub open spec fn spec_is_leap(y: int) -> bool {
    (y % 4 == 0 && y % 100 != 0) || y % 400 == 0
}

/// The number of days of month `m` in year `y`.
pub open spec fn spec_days_in_month(y: int, m: int) -> int {
    if m == 2 {
        if spec_is_leap(y) {
            29
        } else {
            28
        }
    } else if m == 4 || m == 6 || m == 9 || m == 11 {
        30
    } else {
        31
    }
}

/// A well-formed date: month and day within range.
pub open spec fn date_wf(d: Date) -> bool {
    1 <= d.month <= 12 && 1 <= d.day <= spec_days_in_month(d.year as int, d.month as int)
}

/// The day before `d`. The first representable day is mapped to itself;
/// executable code never reaches it.
pub open spec fn spec_prev_day(d: Date) -> Date {
    if d.day > 1 {
        Date { year: d.year, month: d.month, day: (d.day - 1) as u8 }
    } else if d.month > 1 {
        Date {
            year: d.year,
            month: (d.month - 1) as u8,
            day: spec_days_in_month(d.year as int, d.month as int - 1) as u8,
        }
    } else if d.year > 0 {
        Date { year: (d.year - 1) as u32, month: 12, day: 31 }
    } else {
        d
    }
}

/// The date `n` days before `d`.
pub open spec fn spec_prev_days(d: Date, n: nat) -> Date
    decreases n,
{
    if n == 0 {
        d
    } else {
        spec_prev_days(spec_prev_day(d), (n - 1) as nat)
    }
}

/// `d` lies at most a short distance before `today`, in the sense needed by
/// the backward scans: either in `today`'s year, or in the December of the
/// year before, no more than `k` days from its end.
pub open spec fn within_reach(today: Date, d: Date, k: int) -> bool {
    d.year == today.year || (d.year + 1 == today.year && d.month == 12 && d.day + k >= 31)
}

/// Stepping one day back from a date within reach of `today` stays within
/// reach and never leaves the calendar, for scans shorter than a month.
pub proof fn lemma_prev_day_reach(today: Date, d: Date, k: int)
    requires
        date_wf(today),
        date_wf(d),
        today.year >= 1,
        within_reach(today, d, k),
        0 <= k < 30,
    ensures
        !(d.year == 0 && d.month == 1 && d.day == 1),
        date_wf(spec_prev_day(d)),
        within_reach(today, spec_prev_day(d), k + 1),
{
}

/// Relies on chrono's `Local::now` and the `Datelike` accessors: the
/// current local date as year, month and day of month, with the month in
/// `1..=12` and the day in `1..=31` as chrono documents. The result depends
/// on the wall clock, so nothing further is assumed of it.
#[verifier::external_body]
fn local_now_ymd() -> (r: (i64, u8, u8))
    ensures
        1 <= r.1 <= 12,
        1 <= r.2 <= 31,
{
    let now = chrono::Local::now();
    (now.year() as i64, now.month() as u8, now.day() as u8)
}

/// The key under which a record stores the count for date `d`.
pub open spec fn spec_date_key(d: Date) -> Seq<char> {
    dec_str(d.month as nat) + seq!['/'] + dec_str(d.day as nat) + seq!['/'] + dec_str_pad2(
        (d.year % 100) as nat,
    )
}

impl Date {
    /// Validates a year, month, day triple.
    pub fn new(year: u32, month: u8, day: u8) -> (r: Option<Date>)
        ensures
            ({
                let d = Date { year, month, day };
                match r {
                    Some(v) => v == d && date_wf(d),
                    None => !date_wf(d),
                }
            }),
    {
        let d = Date { year, month, day };
        if 1 <= month && month <= 12 && 1 <= day && day <= d.days_in_month() {
            Some(d)
        } else {
            None
        }
    }

    /// The number of days of this date's month.
    pub fn days_in_month(&self) -> (r: u8)
        ensures
            r == spec_days_in_month(self.year as int, self.month as int),
    {
        if self.month == 2 {
            let leap = (self.year % 4 == 0 && self.year % 100 != 0) || self.year % 400 == 0;
            if leap {
                29
            } else {
                28
            }
        } else if self.month == 4 || self.month == 6 || self.month == 9 || self.month == 11 {
            30
        } else {
            31
        }
    }

    /// The day before this one.
    pub fn prev_day(&self) -> (r: Date)
        requires
            date_wf(*self),
            !(self.year == 0 && self.month == 1 && self.day == 1),
        ensures
            r == spec_prev_day(*self),
            date_wf(r),
    {
        if self.day > 1 {
            Date { year: self.year, month: self.month, day: self.day - 1 }
        } else if self.month > 1 {
            let prev = Date { year: self.year, month: self.month - 1, day: 1 };
            Date { year: self.year, month: self.month - 1, day: prev.days_in_month() }
        } else {
            Date { year: self.year - 1, month: 12, day: 31 }
        }
    }

    /// The current local calendar date, when it lies in the representable
    /// range; the reference date for a production run of the engine.
    pub fn today_local() -> (r: Option<Date>)
        ensures
            match r {
                Some(d) => date_wf(d) && d.year >= 1,
                None => true,
            },
    {
        let (y, m, d) = local_now_ymd();
        if y < 1 || y > 0xffff_ffff {
            return None;
        }
        Date::new(y as u32, m, d)
    }

    /// This date's record key.
    pub fn key(&self) -> (r: String)
        requires
            date_wf(*self),
        ensures
            r@ == spec_date_key(*self),
    {
        proof {
            reveal_strlit("/");
        }
        let mut s = u64_to_string(self.month as u64);
        s.append("/");
        let day_str = u64_to_string(self.day as u64);
        s.append(day_str.as_str());
        s.append("/");
        let year_str = u64_to_string_pad2((self.year % 100) as u64);
        s.append(year_str.as_str());
        proof {
            assert(s@ =~= spec_date_key(*self));
        }
        s
    }
}

} // verus!
