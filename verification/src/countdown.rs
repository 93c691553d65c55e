//! How the time that is left until a deadline is shown: as a count of the
//! largest unit that fits.
use vstd::arithmetic::div_mod::{lemma_fundamental_div_mod, lemma_mod_bound};
use vstd::prelude::*;

verus! {

/// The seconds of an hour.
pub const HOUR: i64 = 3_600;

/// The seconds of a day.
pub const DAY: i64 = 86_400;

/// The seconds of a week.
pub const WEEK: i64 = 604_800;

/// The seconds of a year of 365 days.
pub const YEAR: i64 = 31_536_000;

/// The unit in which a time is shown.
#[derive(Clone, Copy, Debug, PartialEq, Eq, Structural)]
pub enum TimeUnit {
    Years,
    Weeks,
    Days,
    Hours,
    Seconds,
}

/// A time as it is shown: so many of one unit.
#[derive(Clone, Copy, Debug, PartialEq, Eq, Structural)]
pub struct TimeLeft {
    pub count: i64,
    pub unit: TimeUnit,
}

/// `seconds` in the largest unit that fits at least once, rounded down: years
/// from a year on, weeks from a week on, days from a day on, hours from an
/// hour on, seconds below that. A time that is over is shown as no seconds.
pub open spec fn time_left(seconds: i64) -> TimeLeft {
    if seconds >= YEAR {
        TimeLeft { count: (seconds / YEAR) as i64, unit: TimeUnit::Years }
    } else if seconds >= WEEK {
        TimeLeft { count: (seconds / WEEK) as i64, unit: TimeUnit::Weeks }
    } else if seconds >= DAY {
        TimeLeft { count: (seconds / DAY) as i64, unit: TimeUnit::Days }
    } else if seconds >= HOUR {
        TimeLeft { count: (seconds / HOUR) as i64, unit: TimeUnit::Hours }
    } else if seconds >= 0 {
        TimeLeft { count: seconds, unit: TimeUnit::Seconds }
    } else {
        TimeLeft { count: 0, unit: TimeUnit::Seconds }
    }
}

/// The seconds of one `unit`.
pub open spec fn seconds_in(unit: TimeUnit) -> int {
    match unit {
        TimeUnit::Years => YEAR as int,
        TimeUnit::Weeks => WEEK as int,
        TimeUnit::Days => DAY as int,
        TimeUnit::Hours => HOUR as int,
        TimeUnit::Seconds => 1,
    }
}

/// What stands behind the count of `unit`.
pub open spec fn suffix(unit: TimeUnit) -> Seq<char> {
    match unit {
        TimeUnit::Years => " years"@,
        TimeUnit::Weeks => "w"@,
        TimeUnit::Days => "d"@,
        TimeUnit::Hours => "h"@,
        TimeUnit::Seconds => "s"@,
    }
}

/// The count that is shown is at least one, but for seconds, and never
/// shows more time than is left: `count` units are at most `seconds`, and
/// one unit more would be too many.
pub proof fn lemma_time_left(seconds: i64)
    requires
        seconds >= 0,
    ensures
        time_left(seconds).count * seconds_in(time_left(seconds).unit) <= seconds < (time_left(
            seconds,
        ).count + 1) * seconds_in(time_left(seconds).unit),
        time_left(seconds).unit != TimeUnit::Seconds ==> time_left(seconds).count >= 1,
{
    let unit = seconds_in(time_left(seconds).unit);
    lemma_fundamental_div_mod(seconds as int, unit);
    lemma_mod_bound(seconds as int, unit);
    let count = seconds as int / unit;
    assert(time_left(seconds).count == count);
    assert(unit * count + unit == (count + 1) * unit) by (nonlinear_arith);
    assert(unit * count == count * unit) by (nonlinear_arith);
    if count < 1 && unit > 1 {
        assert(count * unit <= 0) by (nonlinear_arith)
            requires
                count <= 0,
                unit > 0,
        ;
    }
}

/// The time `seconds` as it is shown.
pub fn format_seconds(seconds: i64) -> (r: TimeLeft)
    ensures
        r == time_left(seconds),
{
    if seconds >= YEAR {
        TimeLeft { count: seconds / YEAR, unit: TimeUnit::Years }
    } else if seconds >= WEEK {
        TimeLeft { count: seconds / WEEK, unit: TimeUnit::Weeks }
    } else if seconds >= DAY {
        TimeLeft { count: seconds / DAY, unit: TimeUnit::Days }
    } else if seconds >= HOUR {
        TimeLeft { count: seconds / HOUR, unit: TimeUnit::Hours }
    } else if seconds >= 0 {
        TimeLeft { count: seconds, unit: TimeUnit::Seconds }
    } else {
        TimeLeft { count: 0, unit: TimeUnit::Seconds }
    }
}

/// What stands behind the count of `unit`.
pub fn unit_suffix(unit: TimeUnit) -> (r: &'static str)
    ensures
        r@ == suffix(unit),
{
    match unit {
        TimeUnit::Years => " years",
        TimeUnit::Weeks => "w",
        TimeUnit::Days => "d",
        TimeUnit::Hours => "h",
        TimeUnit::Seconds => "s",
    }
}

} // verus!
