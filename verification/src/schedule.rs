//! Fixed-cadence tick scheduling.
//!
//! Every block runner fires at `start + n * interval` for `n = 0, 1, 2, ...`,
//! anchored to the runner's start time rather than to the previous tick's
//! completion, so one slow poll never accumulates drift across ticks.

use vstd::prelude::*;

verus! {

/// The scheduled time of tick `n` for a runner that started at `start` and
/// polls every `interval` time units.
pub open spec fn tick_time(start: int, n: int, interval: int) -> int {
    start + n * interval
}

/// The deadline of tick `n`, or `None` when it no longer fits in `u64`
/// (after which a runner has nothing left to schedule).
pub fn next_deadline(start: u64, n: u64, interval: u64) -> (r: Option<u64>)
    ensures
        match r {
            Some(d) => d == tick_time(start as int, n as int, interval as int),
            None => tick_time(start as int, n as int, interval as int) > u64::MAX,
        },
{
    match n.checked_mul(interval) {
        Some(offset) => start.checked_add(offset),
        None => None,
    }
}

/// The hard bound on one content call, in the same time unit as the
/// interval: strictly less than the interval itself, so a stuck external
/// call is cut off and turned into a timeout before the next tick is due.
pub fn tick_timeout(interval: u64) -> (r: u64)
    requires
        interval >= 10,
    ensures
        1 <= r < interval,
{
    let q = interval / 10;
    proof {
        vstd::arithmetic::div_mod::lemma_fundamental_div_mod(interval as int, 10);
        assert(q * 9 == q * 10 - q) by (nonlinear_arith);
    }
    let r = q * 9;
    r
}

/// Tick-cadence law: the ticks scheduled inside the observation window
/// `[start, start + k * interval)` are exactly ticks `0, ..., k - 1` —
/// a block updates `k` times over `k` intervals, with no runaway drift.
pub proof fn lemma_tick_cadence(start: int, interval: int, k: int, n: int)
    requires
        interval >= 1,
        k >= 0,
        n >= 0,
    ensures
        tick_time(start, n, interval) < start + k * interval <==> n < k,
{
    assert((n * interval < k * interval) <==> (n < k)) by (nonlinear_arith)
        requires interval >= 1;
}

/// Ticks are scheduled in strictly increasing order: later ticks have
/// strictly later deadlines.
pub proof fn lemma_ticks_increase(start: int, interval: int, n: int, m: int)
    requires
        interval >= 1,
        0 <= n < m,
    ensures
        tick_time(start, n, interval) < tick_time(start, m, interval),
{
    assert(n * interval < m * interval) by (nonlinear_arith)
        requires interval >= 1, 0 <= n < m;
}

} // verus!
