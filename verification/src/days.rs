use vstd::prelude::*;
use vstd::arithmetic::div_mod::lemma_fundamental_div_mod;
use vstd::arithmetic::div_mod::lemma_fundamental_div_mod_converse;
use vstd::arithmetic::div_mod::lemma_mod_division_less_than_divisor;
use vstd::arithmetic::div_mod::lemma_mod_multiples_basic;

verus! {

/// Seconds in one calendar day; UTC days are treated as exactly this long.
pub const SECS_PER_DAY: i64 = 86_400;

/// Largest timestamp magnitude, in seconds since the Unix epoch, that the
/// scheduler accepts: roughly 250,000 years to either side of the epoch,
/// which covers every timestamp a calendar datetime can denote. Keeping
/// inputs inside this range keeps all due-date arithmetic inside `i64`.
pub const TS_LIMIT: i64 = 8_000_000_000_000;

/// A timestamp the scheduler can do day arithmetic on.
pub open spec fn ts_in_range(t: int) -> bool {
    -TS_LIMIT <= t <= TS_LIMIT
}

/// Midnight UTC of the calendar day containing `t`: the largest multiple of
/// `SECS_PER_DAY` that is at most `t`.
pub open spec fn midnight_of(t: int) -> int {
    (SECS_PER_DAY as int) * (t / (SECS_PER_DAY as int))
}

/// Midnight of a day never lies after an instant of that day, and lies less
/// than one whole day before it.
pub proof fn lemma_midnight_bounds(t: int)
    ensures
        midnight_of(t) <= t < midnight_of(t) + SECS_PER_DAY,
{
    lemma_fundamental_div_mod(t, SECS_PER_DAY as int);
    lemma_mod_division_less_than_divisor(t, SECS_PER_DAY as int);
}

/// Midnight UTC of the calendar day containing `t`.
pub fn midnight_utc(t: i64) -> (m: i64)
    requires
        ts_in_range(t as int),
    ensures
        m == midnight_of(t as int),
        m <= t,
{
    proof {
        lemma_midnight_bounds(t as int);
    }
    if t >= 0 {
        let q: u64 = (t as u64) / (SECS_PER_DAY as u64);
        proof {
            lemma_fundamental_div_mod(t as int, SECS_PER_DAY as int);
            lemma_mod_division_less_than_divisor(t as int, SECS_PER_DAY as int);
        }
        (q * (SECS_PER_DAY as u64)) as i64
    } else {
        let a: u64 = (-t) as u64;
        let q: u64 = a / (SECS_PER_DAY as u64);
        let r: u64 = a % (SECS_PER_DAY as u64);
        proof {
            lemma_fundamental_div_mod(a as int, SECS_PER_DAY as int);
            lemma_mod_division_less_than_divisor(a as int, SECS_PER_DAY as int);
        }
        if r == 0 {
            proof {
                lemma_fundamental_div_mod_converse(
                    t as int,
                    SECS_PER_DAY as int,
                    -(q as int),
                    0,
                );
            }
            t
        } else {
            proof {
                lemma_fundamental_div_mod_converse(
                    t as int,
                    SECS_PER_DAY as int,
                    -(q as int) - 1,
                    (SECS_PER_DAY as int) - (r as int),
                );
            }
            -(((q + 1) * (SECS_PER_DAY as u64)) as i64)
        }
    }
}

/// The spacing in seconds of the due-date grid of a box whose interval is
/// `interval` days.
pub open spec fn interval_secs(interval: int) -> int {
    interval * (SECS_PER_DAY as int)
}

/// The first point strictly after `t` on the grid of dates
/// `anchor + k * interval` days, for whole numbers `k >= 1`.
pub open spec fn grid_due(anchor: int, interval: int, t: int) -> int {
    let s = interval_secs(interval);
    if t < anchor + s {
        anchor + s
    } else {
        anchor + ((t - anchor) / s + 1) * s
    }
}

/// What makes `grid_due` the right due date: it lies strictly after `t`, it
/// lies on the grid (a whole number of intervals past the anchor, at least
/// one), and it is the first such point after `t` - either it is the very
/// first grid point, or the grid point one interval earlier was not after
/// `t`.
pub proof fn lemma_grid_due_properties(anchor: int, interval: int, t: int)
    ensures
        interval >= 1 ==> grid_due(anchor, interval, t) > t,
        interval >= 1 ==> grid_due(anchor, interval, t) >= anchor + interval_secs(interval),
        interval >= 1 ==> (grid_due(anchor, interval, t) - anchor) % interval_secs(interval)
            == 0,
        interval >= 1 ==> (grid_due(anchor, interval, t) == anchor + interval_secs(interval)
            || grid_due(anchor, interval, t) - interval_secs(interval) <= t),
{
    if interval >= 1 {
        let s = interval_secs(interval);
        assert(s >= SECS_PER_DAY) by (nonlinear_arith)
            requires
                interval >= 1,
                s == interval * (SECS_PER_DAY as int),
        ;
        if t < anchor + s {
            lemma_mod_multiples_basic(1, s);
            assert(1 * s == s) by (nonlinear_arith);
        } else {
            let d = t - anchor;
            let q = d / s;
            lemma_fundamental_div_mod(d, s);
            lemma_mod_division_less_than_divisor(d, s);
            assert(q >= 1) by (nonlinear_arith)
                requires
                    d >= s,
                    s > 0,
                    d == s * q + d % s,
                    0 <= d % s < s,
            ;
            assert((q + 1) * s == s * q + s) by (nonlinear_arith);
            lemma_mod_multiples_basic(q + 1, s);
            assert((q + 1) * s >= 2 * s) by (nonlinear_arith)
                requires
                    q >= 1,
                    s > 0,
            ;
        }
    }
}

/// The due date for a box whose interval is `interval` days, reviewed at
/// `t`: the first grid point strictly after `t`.
pub fn next_grid_due(anchor: i64, interval: i32, t: i64) -> (due: i64)
    requires
        interval >= 1,
        -TS_LIMIT - SECS_PER_DAY <= anchor <= TS_LIMIT,
        ts_in_range(t as int),
    ensures
        due == grid_due(anchor as int, interval as int, t as int),
        due > t,
{
    proof {
        lemma_grid_due_properties(anchor as int, interval as int, t as int);
    }
    let s: i64 = (interval as i64) * SECS_PER_DAY;
    if t < anchor + s {
        anchor + s
    } else {
        let diff: i64 = t - anchor;
        let q: u64 = (diff as u64) / (s as u64);
        proof {
            lemma_fundamental_div_mod(diff as int, s as int);
            lemma_mod_division_less_than_divisor(diff as int, s as int);
            assert((q as int + 1) * (s as int) == (s as int) * (q as int) + (s as int))
                by (nonlinear_arith);
        }
        anchor + ((q as i64) + 1) * s
    }
}

} // verus!
