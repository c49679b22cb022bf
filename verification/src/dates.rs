//! Calendar-day arithmetic over unix-second timestamps, and the cooldown
//! predicate built on it.
//!
//! The cooldown policy is the calendar-day boundary (UTC): an action is
//! permitted again as soon as the day number of `now` is strictly greater
//! than the day number of the last accepted action, not after a rolling
//! 24-hour window.

use vstd::prelude::*;
use vstd::arithmetic::div_mod::lemma_fundamental_div_mod;
use vstd::arithmetic::div_mod::lemma_fundamental_div_mod_converse_div;
use vstd::arithmetic::div_mod::lemma_mod_bound;
use crate::user_data::SECONDS_PER_DAY;

verus! {

/// The calendar day (UTC) that the timestamp `t` falls on, as a day number;
/// integer division here is Euclidean, so the floor is taken for negative
/// timestamps as well.
pub open spec fn day_of(t: int) -> int {
    t / (SECONDS_PER_DAY as int)
}

/// Whether a channel whose last accepted action was at `last` may act again
/// at `now`: only on a strictly later calendar day.
pub open spec fn spec_can_use(last: int, now: int) -> bool {
    day_of(now) > day_of(last)
}

/// The day number of `t`, floored, computed without signed division.
pub fn day_number(t: i64) -> (d: i64)
    ensures
        d == day_of(t as int),
{
    let day: i64 = SECONDS_PER_DAY;
    if t >= 0 {
        let q: u64 = (t as u64) / (day as u64);
        proof {
            lemma_fundamental_div_mod(t as int, day as int);
            lemma_mod_bound(t as int, day as int);
        }
        assert(q <= t as u64) by (nonlinear_arith)
            requires
                q == (t as u64) / 86400,
        ;
        q as i64
    } else {
        let m: u64 = (-(t + 1)) as u64;
        let q0: u64 = m / (day as u64);
        proof {
            lemma_fundamental_div_mod(m as int, day as int);
            lemma_mod_bound(m as int, day as int);
            let r0 = (m as int) % (day as int);
            assert(t as int == (-1 - q0 as int) * (day as int) + (day as int - r0 - 1)) by {
                assert(m as int == (day as int) * (q0 as int) + r0);
                assert((-1 - q0 as int) * (day as int) == -(day as int) - (q0 as int) * (day as int))
                    by (nonlinear_arith);
                assert((q0 as int) * (day as int) == (day as int) * (q0 as int))
                    by (nonlinear_arith);
            }
            lemma_fundamental_div_mod_converse_div(
                t as int,
                day as int,
                -1 - q0 as int,
                day as int - r0 - 1,
            );
        }
        assert(q0 <= m) by (nonlinear_arith)
            requires
                q0 == m / 86400,
        ;
        -(q0 as i64) - 1
    }
}

/// True when the roll channel, last used at `last_command`, is off cooldown
/// at `now`: `now` falls on a strictly later calendar day.
pub fn can_use_command(last_command: i64, now: i64) -> (r: bool)
    ensures
        r == spec_can_use(last_command as int, now as int),
{
    day_number(now) > day_number(last_command)
}

/// The cooldown law: after an accepted mutation stamped `t`, an attempt at
/// any `t2` on the same calendar day is denied, and an attempt at any `t2`
/// on a strictly later calendar day is allowed.
pub proof fn lemma_cooldown_window(t: int, t2: int)
    ensures
        day_of(t2) == day_of(t) ==> !spec_can_use(t, t2),
        day_of(t2) > day_of(t) ==> spec_can_use(t, t2),
{
}

/// A timestamp one full day earlier lands on the previous day number, so a
/// fresh record, whose timestamps are set one period in the past, is always
/// eligible on both channels.
pub proof fn lemma_day_before_is_earlier(now: int)
    ensures
        day_of(now - SECONDS_PER_DAY as int) == day_of(now) - 1,
        spec_can_use(now - SECONDS_PER_DAY as int, now),
{
    let day = SECONDS_PER_DAY as int;
    lemma_fundamental_div_mod(now, day);
    lemma_mod_bound(now, day);
    let q = now / day;
    let r = now % day;
    assert(now - day == (q - 1) * day + r) by (nonlinear_arith)
        requires
            now == day * q + r,
    ;
    lemma_fundamental_div_mod_converse_div(now - day, day, q - 1, r);
}

} // verus!
