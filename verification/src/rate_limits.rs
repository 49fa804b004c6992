//! The administration of the rate limiters: who may create one, and what
//! creating one does.

use vstd::prelude::*;
use crate::address::Address;
use crate::error::RateLimitError;
use crate::limiters::RateLimitExt;
use crate::mint_rate_limit::MintRateLimit;
use crate::pda::{
    derive_address, derived, management_seed, management_seed_bytes, mint_based_seed,
    mint_based_seed_bytes, seeds_of,
};
use crate::program::{rate_limits_id, spec_rate_limits_id};

verus! {

/// Names the address that administers the rate limiters.
#[derive(Clone, Copy, Debug)]
pub struct Management {
    /// The administrator.
    pub authority: Address,
}

impl Management {
    /// Number of bytes that the account takes: the tag of eight bytes and
    /// the administrator's address.
    pub fn space() -> (n: usize)
        ensures
            n == 40,
    {
        8 + 32
    }

    /// The address of the account, with its bump seed.
    pub fn derive_pda() -> (r: Option<(Address, u8)>)
        ensures
            r == derived(seq![management_seed()], spec_rate_limits_id()),
    {
        derive_address(&seeds_of(management_seed_bytes(), None), &rate_limits_id())
    }

    /// `authority` is the administrator.
    pub fn is_authorized(&self, authority: Address) -> (authorized: bool)
        ensures
            authorized == (self.authority == authority),
    {
        self.authority == authority
    }
}

impl MintRateLimit {
    /// The address of the rate limiter of `mint`, with its bump seed.
    pub fn derive_pda(mint: Address) -> (r: Option<(Address, u8)>)
        ensures
            r == derived(seq![mint_based_seed(), mint@], spec_rate_limits_id()),
    {
        derive_address(&seeds_of(mint_based_seed_bytes(), Some(&mint)), &rate_limits_id())
    }
}

/// What the first instruction of the program is handed: the signer and the
/// account that is to name the administrator.
#[derive(Clone, Copy, Debug)]
pub struct Initialize {
    /// The signer.
    pub authority: Address,
    /// The account to be filled.
    pub management: Management,
}

impl Initialize {
    /// Makes the signer the administrator.
    pub fn handler(ctx: &mut Initialize) -> (r: Result<(), RateLimitError>)
        ensures
            r is Ok,
            final(ctx).authority == old(ctx).authority,
            final(ctx).management.authority == old(ctx).authority,
    {
        ctx.management.authority = ctx.authority;
        Ok(())
    }
}

/// What the creation of the rate limiter of a mint is handed.
#[derive(Clone, Copy, Debug)]
pub struct CreateMintBasedRateLimit {
    /// The signer.
    pub authority: Address,
    /// The account that names the administrator.
    pub management: Management,
    /// The mint that the limiter is for.
    pub mint: Address,
    /// The account of the limiter, to be filled.
    pub rate_limit: MintRateLimit,
}

impl CreateMintBasedRateLimit {
    /// Only the administrator creates rate limiters.
    pub fn validations(ctx: &CreateMintBasedRateLimit) -> (r: Result<(), RateLimitError>)
        ensures
            r is Ok <==> ctx.management.authority == ctx.authority,
            r matches Err(e) ==> e == RateLimitError::Unauthorized,
    {
        if !ctx.management.is_authorized(ctx.authority) {
            return Err(RateLimitError::Unauthorized);
        }
        Ok(())
    }

    /// Fills the account of the limiter: the limiter allows `period_limit`
    /// in each period of `period_duration` seconds, and its first period
    /// starts at `current_time`. A signer that is not the administrator is
    /// refused first, then a period without length; either way the account is
    /// left as it was.
    pub fn handler(
        ctx: &mut CreateMintBasedRateLimit,
        period_limit: u64,
        period_duration: u64,
        current_time: i64,
    ) -> (r: Result<(), RateLimitError>)
        ensures
            r == (if old(ctx).management.authority != old(ctx).authority {
                Err::<(), RateLimitError>(RateLimitError::Unauthorized)
            } else if period_duration == 0 {
                Err::<(), RateLimitError>(RateLimitError::InvalidPeriodConfig)
            } else {
                Ok::<(), RateLimitError>(())
            }),
            r is Err ==> *final(ctx) == *old(ctx),
            r is Ok ==> final(ctx).rate_limit.wf() && *final(ctx) == (CreateMintBasedRateLimit {
                rate_limit: MintRateLimit {
                    period_limit,
                    current_period_start: current_time,
                    period_duration,
                    mint: old(ctx).mint,
                    value_transferred: 0,
                },
                ..*old(ctx)
            }),
    {
        match CreateMintBasedRateLimit::validations(ctx) {
            Ok(()) => {},
            Err(e) => {
                return Err(e);
            },
        }
        let mint = ctx.mint;
        ctx.rate_limit.initialize(period_limit, period_duration, current_time, mint)
    }
}

} // verus!
