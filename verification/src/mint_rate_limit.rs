//! A rate limiter with one counter for a whole mint.

use vstd::prelude::*;
use crate::address::Address;
use crate::error::RateLimitError;
use crate::limiters::RateLimitExt;
use crate::window::{
    lemma_rolled_start_bounds, lemma_rolled_start_spans, next_period_start, period_due, period_end,
    rolled_start, saturated_total,
};

verus! {

/// Limits the amount of one mint that is transferred within a period,
/// whoever transfers it.
#[derive(Clone, Copy, Debug)]
pub struct MintRateLimit {
    /// Maximum amount that can be transferred in a single period.
    pub period_limit: u64,
    /// The start time of the current period.
    pub current_period_start: i64,
    /// Duration of each period in seconds.
    pub period_duration: u64,
    /// Token mint the rate limit is for.
    pub mint: Address,
    /// The value that has been transferred in the current period.
    pub value_transferred: u64,
}

impl MintRateLimit {
    /// The limiter after the clock was read as `now`: moved to the period
    /// that holds `now` and with its counter at zero if the period has ended,
    /// unchanged otherwise.
    pub open spec fn rolled_over(self, now: i64) -> MintRateLimit {
        if period_due(self.current_period_start as int, self.period_duration as int, now as int) {
            MintRateLimit {
                current_period_start: rolled_start(
                    self.current_period_start as int,
                    self.period_duration as int,
                    now as int,
                ) as i64,
                value_transferred: 0,
                ..self
            }
        } else {
            self
        }
    }

    /// The count that a transfer of `amount` at `now` would lead to.
    pub open spec fn total_after(self, amount: u64, now: i64) -> int {
        saturated_total(self.rolled_over(now).value_transferred as int, amount as int)
    }

    /// The limiter after a transfer of `amount` at `now`: the transfer is
    /// counted if it stays within the limit, and nothing changes otherwise.
    pub open spec fn after_transfer(self, amount: u64, now: i64) -> MintRateLimit {
        if self.total_after(amount, now) <= self.period_limit {
            MintRateLimit {
                value_transferred: self.total_after(amount, now) as u64,
                ..self.rolled_over(now)
            }
        } else {
            self
        }
    }

    /// The limiter after the transfers `calls`, each an amount and the time
    /// of the transfer, in their order.
    pub open spec fn after_transfers(self, calls: Seq<(u64, i64)>) -> MintRateLimit
        decreases calls.len(),
    {
        if calls.len() == 0 {
            self
        } else {
            self.after_transfers(calls.drop_last()).after_transfer(calls.last().0, calls.last().1)
        }
    }

    /// A limiter that is within its limit stays within it, whatever is
    /// transferred and whenever.
    pub proof fn lemma_stays_within_limit(self, calls: Seq<(u64, i64)>)
        requires
            self.wf(),
            self.value_transferred <= self.period_limit,
        ensures
            self.after_transfers(calls).wf(),
            self.after_transfers(calls).period_limit == self.period_limit,
            self.after_transfers(calls).period_duration == self.period_duration,
            self.after_transfers(calls).value_transferred <= self.period_limit,
        decreases calls.len(),
    {
        if calls.len() > 0 {
            self.lemma_stays_within_limit(calls.drop_last());
        }
    }

    /// The amount counted by a new limiter never exceeds its limit, whatever
    /// is transferred and whenever.
    pub proof fn lemma_total_never_exceeds_limit(
        period_limit: u64,
        period_duration: u64,
        start_time: i64,
        mint: Address,
        calls: Seq<(u64, i64)>,
    )
        requires
            period_duration > 0,
        ensures
            (MintRateLimit {
                period_limit,
                current_period_start: start_time,
                period_duration,
                mint,
                value_transferred: 0,
            }).after_transfers(calls).value_transferred <= period_limit,
    {
        (MintRateLimit {
            period_limit,
            current_period_start: start_time,
            period_duration,
            mint,
            value_transferred: 0,
        }).lemma_stays_within_limit(calls);
    }

    /// A transfer that would exceed the limit changes nothing, and within
    /// one period a transfer that is counted adds its amount to the count,
    /// held at the largest counter value.
    pub proof fn lemma_transfer_within_period(self, amount: u64, now: i64)
        requires
            self.wf(),
            !period_due(self.current_period_start as int, self.period_duration as int, now as int),
        ensures
            saturated_total(self.value_transferred as int, amount as int) > self.period_limit
                ==> self.after_transfer(amount, now) == self,
            saturated_total(self.value_transferred as int, amount as int) <= self.period_limit
                ==> self.after_transfer(amount, now) == (MintRateLimit {
                value_transferred: saturated_total(
                    self.value_transferred as int,
                    amount as int,
                ) as u64,
                ..self
            }),
    {
    }

    /// Rolling over twice at the same time is rolling over once.
    pub proof fn lemma_roll_over_idempotent(self, now: i64)
        requires
            self.wf(),
        ensures
            self.rolled_over(now).rolled_over(now) == self.rolled_over(now),
    {
        if period_due(self.current_period_start as int, self.period_duration as int, now as int) {
            lemma_rolled_start_bounds(
                self.current_period_start as int,
                self.period_duration as int,
                now as int,
            );
        }
    }

    /// A roll-over at a time that lies in the `n`-th period after the
    /// current one moves the start by exactly `n` periods and leaves the
    /// counter at zero.
    pub proof fn lemma_roll_over_spans(self, now: i64, n: int)
        requires
            self.wf(),
            n >= 1,
            self.current_period_start + n * self.period_duration <= now,
            now < self.current_period_start + (n + 1) * self.period_duration,
        ensures
            self.rolled_over(now).current_period_start == self.current_period_start + n
                * self.period_duration,
            self.rolled_over(now).value_transferred == 0,
            self.rolled_over(now).period_limit == self.period_limit,
            self.rolled_over(now).period_duration == self.period_duration,
            self.rolled_over(now).mint == self.mint,
    {
        lemma_rolled_start_spans(
            self.current_period_start as int,
            self.period_duration as int,
            now as int,
            n,
        );
    }

    /// Number of bytes that the account of a limiter takes: the tag of eight
    /// bytes, three numbers of eight bytes, the mint and the counter.
    pub fn space() -> (n: usize)
        ensures
            n == 72,
    {
        8 + 8 + 8 + 8 + 32 + 8
    }

    /// A limiter for `mint` whose first period starts at `start_time`, with
    /// nothing transferred yet. A period of zero length is refused.
    pub fn new(period_limit: u64, period_duration: u64, start_time: i64, mint: Address) -> (r: Result<
        MintRateLimit,
        RateLimitError,
    >)
        ensures
            period_duration == 0 ==> r == Err::<MintRateLimit, RateLimitError>(
                RateLimitError::InvalidPeriodConfig,
            ),
            period_duration > 0 ==> r == Ok::<MintRateLimit, RateLimitError>(
                MintRateLimit {
                    period_limit,
                    current_period_start: start_time,
                    period_duration,
                    mint,
                    value_transferred: 0,
                },
            ),
            r matches Ok(l) ==> l.wf(),
    {
        if period_duration == 0 {
            return Err(RateLimitError::InvalidPeriodConfig);
        }
        Ok(
            MintRateLimit {
                period_limit,
                current_period_start: start_time,
                period_duration,
                mint,
                value_transferred: 0,
            },
        )
    }

    /// Makes `self` the limiter that `new` gives for the same arguments. Where
    /// `new` refuses them, `self` is left as it is.
    pub fn initialize(
        &mut self,
        period_limit: u64,
        period_duration: u64,
        start_time: i64,
        mint: Address,
    ) -> (r: Result<(), RateLimitError>)
        ensures
            period_duration == 0 ==> r == Err::<(), RateLimitError>(
                RateLimitError::InvalidPeriodConfig,
            ) && *final(self) == *old(self),
            period_duration > 0 ==> r == Ok::<(), RateLimitError>(()) && final(self).wf()
                && *final(self) == (MintRateLimit {
                period_limit,
                current_period_start: start_time,
                period_duration,
                mint,
                value_transferred: 0,
            }),
    {
        match MintRateLimit::new(period_limit, period_duration, start_time, mint) {
            Ok(rate_limit) => {
                *self = rate_limit;
                Ok(())
            },
            Err(e) => Err(e),
        }
    }
}

impl RateLimitExt for MintRateLimit {
    open spec fn wf(&self) -> bool {
        self.period_duration > 0
    }

    open spec fn spec_start_time(&self) -> i64 {
        self.current_period_start
    }

    open spec fn spec_period_duration(&self) -> u64 {
        self.period_duration
    }

    open spec fn spec_period_limit(&self) -> u64 {
        self.period_limit
    }

    open spec fn spec_transferred(&self, authority: Option<Address>) -> u64 {
        self.value_transferred
    }

    open spec fn accepts(&self, authority: Option<Address>) -> bool {
        true
    }

    fn start_time(&self) -> (t: i64) {
        self.current_period_start
    }

    fn end_time(&self) -> (t: i64) {
        period_end(self.current_period_start, self.period_duration)
    }

    fn period_duration_seconds(&self) -> (d: u64) {
        self.period_duration
    }

    fn roll_over(&mut self, current_time: i64)
        ensures
            *final(self) == old(self).rolled_over(current_time),
    {
        match next_period_start(self.current_period_start, self.period_duration, current_time) {
            Some(start) => {
                self.current_period_start = start;
                self.value_transferred = 0;
            },
            None => {},
        }
    }

    fn check_and_update(&mut self, authority: Option<Address>, amount: u64, current_time: i64) -> (r:
        Result<(), RateLimitError>)
        ensures
            *final(self) == old(self).after_transfer(amount, current_time),
            r is Ok <==> old(self).total_after(amount, current_time) <= old(self).period_limit,
            r is Err ==> r == Err::<(), RateLimitError>(RateLimitError::RateLimitExceeded),
    {
        let next = next_period_start(self.current_period_start, self.period_duration, current_time);
        let counted: u64 = match next {
            Some(_) => 0,
            None => self.value_transferred,
        };
        let new_value_transferred: u64 = counted.saturating_add(amount);
        if new_value_transferred > self.period_limit {
            return Err(RateLimitError::RateLimitExceeded);
        }
        match next {
            Some(start) => {
                self.current_period_start = start;
            },
            None => {},
        }
        self.value_transferred = new_value_transferred;
        Ok(())
    }
}

} // verus!
