//! What days and moments are, said of the seconds since 1970.

use vstd::prelude::*;

use crate::time::{
    day_of, days_from_monday, millis_between, nanos_between, not_later, second_of_day,
    whole_millis, Timestamp,
};

verus! {

/// A moment falls on a day at a second of it: the first day of 1970 is the day with the
/// number 719163, and each day has as many seconds as twenty-four hours.
pub proof fn law_days_are_of_equal_length(t: Timestamp, day: int, second: int)
    ensures
        day_of(t) == day && second_of_day(t) == second <==> 0 <= second < 24 * 60 * 60 && t.secs
            == (day - 719_163) * (24 * 60 * 60) + second,
{
}

/// Weeks start on Mondays: the fifth day of 1970 is one.
pub proof fn law_weeks_start_on_mondays(day: int)
    ensures
        0 <= days_from_monday(day) < 7,
        (day - days_from_monday(day) - 719_167) % 7 == 0,
        days_from_monday(day + 7) == days_from_monday(day),
{
}

/// Of two moments the one that is less time after the start of 1970 is not the later one.
pub proof fn law_moments_are_in_order(a: Timestamp, b: Timestamp)
    requires
        a.nanos < 1_000_000_000,
        b.nanos < 1_000_000_000,
    ensures
        not_later(a, b) <==> a.secs * 1_000_000_000 + a.nanos <= b.secs * 1_000_000_000 + b.nanos,
{
}

/// The time between two moments, in nanoseconds: none between a moment and itself, and what
/// is between the first and the third is what is between the first and the second and
/// between the second and the third.
pub proof fn law_times_between_add_up(a: Timestamp, b: Timestamp, c: Timestamp)
    requires
        a.nanos < 1_000_000_000,
        b.nanos < 1_000_000_000,
        c.nanos < 1_000_000_000,
    ensures
        nanos_between(a, a) == 0,
        nanos_between(a, c) == nanos_between(a, b) + nanos_between(b, c),
        nanos_between(a, b) == b.secs * 1_000_000_000 + b.nanos - (a.secs * 1_000_000_000
            + a.nanos),
{
}

/// Whole milliseconds leave less than one away, towards nothing.
pub proof fn law_whole_milliseconds(n: int)
    ensures
        n >= 0 ==> whole_millis(n) * 1_000_000 <= n < (whole_millis(n) + 1) * 1_000_000,
        whole_millis(-n) == -whole_millis(n),
{
    if n == 0 {
        assert(whole_millis(0) == 0);
    }
}

/// The milliseconds that lie between two moments, the second not before the first.
pub proof fn law_milliseconds_between(a: Timestamp, b: Timestamp)
    requires
        a.nanos < 1_000_000_000,
        b.nanos < 1_000_000_000,
    ensures
        match millis_between(a, b) {
            Some(ms) => {
                let n = (b.secs - a.secs) * 1_000_000_000 + b.nanos - a.nanos;
                &&& n > -1_000_000
                &&& n < 0 ==> ms == 0
                &&& n >= 0 ==> ms * 1_000_000 <= n < (ms + 1) * 1_000_000
            },
            None => {
                let n = (b.secs - a.secs) * 1_000_000_000 + b.nanos - a.nanos;
                n <= -1_000_000 || n >= (u64::MAX + 1) * 1_000_000
            },
        },
{
}

} // verus!
