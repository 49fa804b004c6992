//! What every rate limiter offers, and the types that the limiters share.

use vstd::prelude::*;
use crate::address::Address;
use crate::error::RateLimitError;
use crate::window::{carried_over, period_due, rolled_start, saturated_end, saturated_total};

verus! {

/// A limit on the amount transferred within a period of fixed length.
///
/// The clock is read by the caller and handed in: a limiter never reads time
/// by itself.
pub trait RateLimitExt: Sized {
    /// The limiter is valid: its period has a length, and whatever else the
    /// implementing type asks of its values.
    spec fn wf(&self) -> bool;

    /// Start of the current period.
    spec fn spec_start_time(&self) -> i64;

    /// Length of a period in seconds.
    spec fn spec_period_duration(&self) -> u64;

    /// Largest amount that may be transferred within one period.
    spec fn spec_period_limit(&self) -> u64;

    /// Amount counted against `authority` in the current period.
    spec fn spec_transferred(&self, authority: Option<Address>) -> u64;

    /// The limiter can count a transfer made by `authority`.
    spec fn accepts(&self, authority: Option<Address>) -> bool;

    /// Returns the starting time of the current period.
    fn start_time(&self) -> (t: i64)
        ensures
            t == self.spec_start_time(),
    ;

    /// Returns the time at which the current period ends, held within the
    /// range of a timestamp.
    fn end_time(&self) -> (t: i64)
        ensures
            t == saturated_end(self.spec_start_time() as int, self.spec_period_duration() as int),
    ;

    /// Returns the length of a period in seconds.
    fn period_duration_seconds(&self) -> (d: u64)
        ensures
            d == self.spec_period_duration(),
    ;

    /// Moves the period forward if it has ended at `current_time`: by as many
    /// whole periods as have passed, however many were missed, and with all
    /// counters back at zero. Before the end of the period nothing changes.
    fn roll_over(&mut self, current_time: i64)
        requires
            old(self).wf(),
        ensures
            final(self).wf(),
            final(self).spec_period_limit() == old(self).spec_period_limit(),
            final(self).spec_period_duration() == old(self).spec_period_duration(),
            final(self).spec_start_time() == rolled_start(
                old(self).spec_start_time() as int,
                old(self).spec_period_duration() as int,
                current_time as int,
            ),
            forall|a: Option<Address>| #[trigger]
                final(self).spec_transferred(a) == carried_over(
                    old(self).spec_start_time() as int,
                    old(self).spec_period_duration() as int,
                    current_time as int,
                    old(self).spec_transferred(a) as int,
                ),
            !period_due(
                old(self).spec_start_time() as int,
                old(self).spec_period_duration() as int,
                current_time as int,
            ) ==> *final(self) == *old(self),
    ;

    /// Counts a transfer of `amount` made by `authority` at `current_time`.
    ///
    /// The period is rolled over first. The transfer is accepted if the
    /// amount already counted in the period plus `amount`, held at the largest
    /// counter value, stays within the limit; the sum is then the new count.
    /// A refused transfer changes nothing at all.
    fn check_and_update(&mut self, authority: Option<Address>, amount: u64, current_time: i64) -> (r:
        Result<(), RateLimitError>)
        requires
            old(self).wf(),
        ensures
            final(self).wf(),
            r is Err ==> *final(self) == *old(self),
            r is Ok <==> old(self).accepts(authority) && saturated_total(
                carried_over(
                    old(self).spec_start_time() as int,
                    old(self).spec_period_duration() as int,
                    current_time as int,
                    old(self).spec_transferred(authority) as int,
                ),
                amount as int,
            ) <= old(self).spec_period_limit(),
            r is Ok ==> {
                &&& final(self).spec_period_limit() == old(self).spec_period_limit()
                &&& final(self).spec_period_duration() == old(self).spec_period_duration()
                &&& final(self).spec_start_time() == rolled_start(
                    old(self).spec_start_time() as int,
                    old(self).spec_period_duration() as int,
                    current_time as int,
                )
                &&& final(self).spec_transferred(authority) == saturated_total(
                    carried_over(
                        old(self).spec_start_time() as int,
                        old(self).spec_period_duration() as int,
                        current_time as int,
                        old(self).spec_transferred(authority) as int,
                    ),
                    amount as int,
                )
                &&& final(self).spec_transferred(authority) <= final(self).spec_period_limit()
            },
            r matches Err(e) ==> e == (if old(self).accepts(authority) {
                RateLimitError::RateLimitExceeded
            } else {
                RateLimitError::InvalidCheckAndUpdate
            }),
    ;
}

/// The amount that one authority has transferred in the current period.
#[derive(Clone, Copy, Debug)]
pub struct LimiterEntry {
    /// The address which this entry counts for.
    pub authority: Address,
    /// The amount this authority has transferred in the current period.
    pub value_transferred: u64,
}

/// The kinds of rate limiter that can be created.
#[derive(Clone, Copy, Debug, PartialEq, Eq, Structural)]
pub enum RateLimitType {
    /// One counter for each authority.
    AuthorityBased,
    /// One counter for the whole mint.
    MintBased,
}

impl RateLimitType {
    /// The kind that a number names, if any.
    pub open spec fn spec_from_u8(value: u8) -> Option<RateLimitType> {
        if value == 0 {
            Some(RateLimitType::AuthorityBased)
        } else if value == 1 {
            Some(RateLimitType::MintBased)
        } else {
            None
        }
    }

    /// The number that names the kind.
    pub open spec fn spec_to_u8(self) -> u8 {
        match self {
            RateLimitType::AuthorityBased => 0,
            RateLimitType::MintBased => 1,
        }
    }

    /// Reads the kind that `value` names: 0 for a limiter per authority, 1 for
    /// a limiter per mint. Any other number is refused.
    pub fn try_from(value: u8) -> (r: Result<RateLimitType, RateLimitError>)
        ensures
            r matches Ok(t) ==> RateLimitType::spec_from_u8(value) == Some(t),
            r matches Err(e) ==> RateLimitType::spec_from_u8(value) is None && e
                == RateLimitError::InvalidRateLimitType,
    {
        match value {
            0 => Ok(RateLimitType::AuthorityBased),
            1 => Ok(RateLimitType::MintBased),
            _ => Err(RateLimitError::InvalidRateLimitType),
        }
    }

    /// The number that names the kind.
    pub fn to_u8(self) -> (value: u8)
        ensures
            value == self.spec_to_u8(),
            RateLimitType::spec_from_u8(value) == Some(self),
    {
        match self {
            RateLimitType::AuthorityBased => 0,
            RateLimitType::MintBased => 1,
        }
    }
}

} // verus!
