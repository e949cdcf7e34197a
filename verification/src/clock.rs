//! Times of day and signed durations, at nanosecond precision.

use vstd::prelude::*;
use crate::text::{dec_int, push_char, push_int, push_two_digits, two_digits};

verus! {

/// Nanoseconds in one minute.
pub const NANOS_PER_MINUTE: u64 = 60_000_000_000;

/// Nanoseconds in one hour.
pub const NANOS_PER_HOUR: u64 = 3_600_000_000_000;

/// Nanoseconds in one second.
pub const NANOS_PER_SECOND: u64 = 1_000_000_000;

/// 23:59:59, the end of a day used for spans left open on past days.
pub const END_OF_DAY_NANOS: u64 = 86_399_000_000_000;

/// A time of day, as nanoseconds since midnight.
#[derive(Clone, Copy, PartialEq, Eq, Structural, Debug)]
pub struct ClockTime {
    pub nanos: u64,
}

/// A signed span of time, in nanoseconds.
#[derive(Clone, Copy, PartialEq, Eq, Structural, Debug)]
pub struct Duration {
    pub nanos: i128,
}

/// Division of integers that rounds toward zero, as Rust's `/` does.
pub open spec fn tdiv(a: int, b: int) -> int
    recommends
        b > 0,
{
    if a >= 0 {
        a / b
    } else {
        -((-a) / b)
    }
}

/// The remainder that goes with `tdiv`, as Rust's `%` does: its sign is that of `a`.
pub open spec fn trem(a: int, b: int) -> int
    recommends
        b > 0,
{
    a - b * tdiv(a, b)
}

/// Whole minutes in a duration, rounded toward zero.
pub open spec fn minutes_of(d: int) -> int {
    tdiv(d, NANOS_PER_MINUTE as int)
}

/// Whole seconds in a duration, rounded toward zero.
pub open spec fn seconds_of(d: int) -> int {
    tdiv(d, NANOS_PER_SECOND as int)
}

/// `{minutes:02}` of a possibly negative number: the width of two is met by the sign.
pub open spec fn padded_minutes(m: int) -> Seq<char> {
    if m >= 0 {
        two_digits(m as nat)
    } else {
        dec_int(m)
    }
}

/// The text `"<hours>h <minutes>m"` of a duration.
pub open spec fn duration_text(d: int) -> Seq<char> {
    let total = minutes_of(d);
    dec_int(tdiv(total, 60)) + seq!['h', ' '] + padded_minutes(trem(total, 60)) + seq!['m']
}

/// The text `"HH:MM"` of a time of day.
pub open spec fn clock_text(t: ClockTime) -> Seq<char> {
    two_digits((t.nanos / NANOS_PER_HOUR) as nat) + seq![':'] + two_digits(
        ((t.nanos / NANOS_PER_MINUTE) % 60) as nat,
    )
}

impl ClockTime {
    /// 23:59:59.
    pub fn end_of_day() -> (r: ClockTime)
        ensures
            r.nanos == END_OF_DAY_NANOS,
    {
        ClockTime { nanos: END_OF_DAY_NANOS }
    }

    /// The signed span from `start` to `self`.
    pub fn since(self, start: ClockTime) -> (d: Duration)
        ensures
            d.nanos == self.nanos - start.nanos,
    {
        Duration { nanos: (self.nanos as i128) - (start.nanos as i128) }
    }
}

fn tdiv_exec(a: i128, b: i128) -> (q: i128)
    requires
        b > 1,
    ensures
        q == tdiv(a as int, b as int),
{
    if a >= 0 {
        a / b
    } else if a == i128::MIN {
        proof {
            assert(-(a as int) == (-(a as int + b as int)) + b);
            assert((-(a as int)) / (b as int) == (-(a as int + b as int)) / (b as int) + 1) by (nonlinear_arith)
                requires
                    b > 0,
                    -(a as int + b as int) >= 0,
            {
                vstd::arithmetic::div_mod::lemma_div_plus_one(-(a as int + b as int), b as int);
            }
        }
        let r: i128 = (-(a + b)) / b + 1;
        -r
    } else {
        -((-a) / b)
    }
}

impl Duration {
    pub fn zero() -> (d: Duration)
        ensures
            d.nanos == 0,
    {
        Duration { nanos: 0 }
    }

    /// Whole minutes, rounded toward zero.
    pub fn num_minutes(self) -> (m: i128)
        ensures
            m == minutes_of(self.nanos as int),
    {
        tdiv_exec(self.nanos, NANOS_PER_MINUTE as i128)
    }

    /// Whole seconds, rounded toward zero.
    pub fn num_seconds(self) -> (s: i128)
        ensures
            s == seconds_of(self.nanos as int),
    {
        tdiv_exec(self.nanos, NANOS_PER_SECOND as i128)
    }
}

/// Formats a duration as hours and minutes, `"<h>h <mm>m"`.
pub fn format_duration(d: Duration) -> (r: String)
    ensures
        r@ == duration_text(d.nanos as int),
{
    let total = d.num_minutes();
    let hours = tdiv_exec(total, 60);
    let minutes = total - 60 * hours;
    let mut s = String::new();
    push_int(&mut s, hours);
    s.append("h ");
    if minutes >= 0 {
        push_two_digits(&mut s, minutes as u128);
    } else {
        push_int(&mut s, minutes);
    }
    s.append("m");
    proof {
        reveal_strlit("h ");
        reveal_strlit("m");
    }
    assert(s@ =~= duration_text(d.nanos as int));
    s
}

/// Appends `"HH:MM"` of a time of day.
pub fn push_clock(s: &mut String, t: ClockTime)
    ensures
        final(s)@ == old(s)@ + clock_text(t),
{
    let h: u64 = t.nanos / NANOS_PER_HOUR;
    let m: u64 = (t.nanos / NANOS_PER_MINUTE) % 60;
    push_two_digits(s, h as u128);
    push_char(s, ':');
    push_two_digits(s, m as u128);
    assert(s@ =~= old(s)@ + clock_text(t));
}

} // verus!
