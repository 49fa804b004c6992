//! The arithmetic of a quota's moving window, shared by every kind of rate
//! limiter.
//!
//! A window starts at `start` and lasts `duration` seconds. Once the clock has
//! reached the end of the window, the window moves forward by as many whole
//! periods as have passed, so that the clock lies inside it again.

use vstd::prelude::*;

verus! {

/// The window that starts at `start` has ended at time `now`. The end itself
/// belongs to the next window.
pub open spec fn period_due(start: int, duration: int, now: int) -> bool {
    now >= start + duration
}

/// Number of whole periods between `start` and `now`.
pub open spec fn periods_elapsed(start: int, duration: int, now: int) -> int {
    (now - start) / duration
}

/// Start of the window after the clock was read as `now`.
pub open spec fn rolled_start(start: int, duration: int, now: int) -> int {
    if period_due(start, duration, now) {
        start + periods_elapsed(start, duration, now) * duration
    } else {
        start
    }
}

/// What remains of a count once the clock was read as `now`: nothing if the
/// window has ended, all of it otherwise.
pub open spec fn carried_over(start: int, duration: int, now: int, counted: int) -> int {
    if period_due(start, duration, now) {
        0
    } else {
        counted
    }
}

/// End of the window, held within the range of a timestamp.
pub open spec fn saturated_end(start: int, duration: int) -> int {
    if start + duration > i64::MAX {
        i64::MAX as int
    } else {
        start + duration
    }
}

/// Sum of a counter and an amount, held at the largest counter value.
pub open spec fn saturated_total(current: int, amount: int) -> int {
    if current + amount > u64::MAX {
        u64::MAX as int
    } else {
        current + amount
    }
}

/// A window that has ended moves to the last period boundary at or before
/// `now`: the clock then lies inside it.
pub proof fn lemma_rolled_start_bounds(start: int, duration: int, now: int)
    requires
        duration > 0,
        period_due(start, duration, now),
    ensures
        periods_elapsed(start, duration, now) >= 1,
        start < rolled_start(start, duration, now) <= now,
        now < rolled_start(start, duration, now) + duration,
        !period_due(rolled_start(start, duration, now), duration, now),
{
    let diff = now - start;
    let k = diff / duration;
    assert(diff == duration * k + diff % duration && 0 <= diff % duration < duration) by {
        vstd::arithmetic::div_mod::lemma_fundamental_div_mod(diff, duration);
        vstd::arithmetic::div_mod::lemma_mod_bound(diff, duration);
    }
    assert(k * duration == duration * k) by (nonlinear_arith);
    assert(k >= 1) by (nonlinear_arith)
        requires
            diff == duration * k + diff % duration,
            diff % duration < duration,
            diff >= duration,
            duration > 0,
    ;
    assert(k * duration >= duration) by (nonlinear_arith)
        requires
            k >= 1,
            duration > 0,
    ;
}

/// Reading the same clock twice moves the window once.
pub proof fn lemma_rolled_start_idempotent(start: int, duration: int, now: int)
    requires
        duration > 0,
    ensures
        rolled_start(rolled_start(start, duration, now), duration, now) == rolled_start(
            start,
            duration,
            now,
        ),
{
    if period_due(start, duration, now) {
        lemma_rolled_start_bounds(start, duration, now);
    }
}

/// A clock that lies in the `n`-th period after the window moves the window
/// by exactly `n` periods, however many periods were missed.
pub proof fn lemma_rolled_start_spans(start: int, duration: int, now: int, n: int)
    requires
        duration > 0,
        n >= 1,
        start + n * duration <= now < start + (n + 1) * duration,
    ensures
        period_due(start, duration, now),
        periods_elapsed(start, duration, now) == n,
        rolled_start(start, duration, now) == start + n * duration,
{
    let diff = now - start;
    assert(n * duration >= duration) by (nonlinear_arith)
        requires
            n >= 1,
            duration > 0,
    ;
    assert((n + 1) * duration == n * duration + duration) by (nonlinear_arith);
    assert(diff == n * duration + (diff - n * duration));
    vstd::arithmetic::div_mod::lemma_fundamental_div_mod_converse(
        diff,
        duration,
        n,
        diff - n * duration,
    );
}

/// Start of the window after the clock was read as `now`, or `None` while the
/// window that starts at `start` has not ended.
pub fn next_period_start(start: i64, duration: u64, now: i64) -> (r: Option<i64>)
    requires
        duration > 0,
    ensures
        r is Some <==> period_due(start as int, duration as int, now as int),
        r matches Some(s) ==> s == rolled_start(start as int, duration as int, now as int),
{
    let diff: i128 = now as i128 - start as i128;
    let length: i128 = duration as i128;
    if diff < length {
        return None;
    }
    let elapsed: i128 = diff / length;
    proof {
        lemma_rolled_start_bounds(start as int, duration as int, now as int);
        assert(elapsed == periods_elapsed(start as int, duration as int, now as int));
        assert(0 < elapsed * length <= diff);
    }
    let moved: i128 = start as i128 + elapsed * length;
    Some(moved as i64)
}

/// End of the window that starts at `start`.
pub fn period_end(start: i64, duration: u64) -> (r: i64)
    ensures
        r == saturated_end(start as int, duration as int),
{
    let end: i128 = start as i128 + duration as i128;
    if end > i64::MAX as i128 {
        i64::MAX
    } else {
        end as i64
    }
}

} // verus!
