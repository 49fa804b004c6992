//! One policy account, whatever its kind, and its check against a transfer.

use vstd::prelude::*;
use crate::address::Address;
use crate::authority_rate_limit::{AuthorityRateLimit, AuthorityRateLimitView};
use crate::block_list::{BlockList, BlockListView};
use crate::codec::OwnerKind;
use crate::error::PolicyError;
use crate::limiters::RateLimitExt;
use crate::mint_rate_limit::MintRateLimit;
use crate::wire::{
    read_tag, tag_of, AUTHORITY_RATE_LIMIT_TAG, BLOCK_LIST_TAG, MINT_RATE_LIMIT_TAG,
};

verus! {

/// The addresses that take part in a transfer: the address that authorizes
/// it and the owners of the two token accounts. They need not differ.
#[derive(Clone, Copy, Debug)]
pub struct Participants {
    /// The address that authorizes the transfer.
    pub authority: Address,
    /// The owner of the token account that the tokens leave.
    pub source_owner: Address,
    /// The owner of the token account that the tokens reach.
    pub destination_owner: Address,
}

impl Participants {
    /// `address` takes part in the transfer.
    pub open spec fn involves(self, address: Address) -> bool {
        address == self.authority || address == self.source_owner || address
            == self.destination_owner
    }

    /// One of the participants is in `denied`.
    pub open spec fn denied_by(self, denied: Set<Address>) -> bool {
        denied.contains(self.authority) || denied.contains(self.source_owner) || denied.contains(
            self.destination_owner,
        )
    }

    /// A set denies the transfer exactly if it holds an address that takes
    /// part in it.
    pub proof fn lemma_denied_by(self, denied: Set<Address>)
        ensures
            self.denied_by(denied) <==> exists|a: Address|
                #[trigger] self.involves(a) && denied.contains(a),
    {
        if self.denied_by(denied) {
            if denied.contains(self.authority) {
                assert(self.involves(self.authority));
            } else if denied.contains(self.source_owner) {
                assert(self.involves(self.source_owner));
            } else {
                assert(self.involves(self.destination_owner));
            }
        }
    }
}

/// The kinds of policy account, as the tag of an account tells them.
#[derive(Clone, Copy, Debug, PartialEq, Eq, Structural)]
pub enum PolicyKind {
    /// A rate limiter with one counter for each authority.
    AuthorityRateLimit,
    /// A rate limiter with one counter for a mint.
    MintRateLimit,
    /// A list of denied addresses.
    BlockList,
    /// No policy: the tag is missing or names nothing.
    Unknown,
}

/// The kind that the first eight bytes of an account name.
pub open spec fn kind_of(data: Seq<u8>) -> PolicyKind {
    match tag_of(data) {
        Some(tag) => if tag == AUTHORITY_RATE_LIMIT_TAG {
            PolicyKind::AuthorityRateLimit
        } else if tag == MINT_RATE_LIMIT_TAG {
            PolicyKind::MintRateLimit
        } else if tag == BLOCK_LIST_TAG {
            PolicyKind::BlockList
        } else {
            PolicyKind::Unknown
        },
        None => PolicyKind::Unknown,
    }
}

/// Reads the kind of a policy account from its tag.
pub fn policy_kind(data: &[u8]) -> (kind: PolicyKind)
    ensures
        kind == kind_of(data@),
{
    match read_tag(data) {
        Some(tag) => if tag == AUTHORITY_RATE_LIMIT_TAG {
            PolicyKind::AuthorityRateLimit
        } else if tag == MINT_RATE_LIMIT_TAG {
            PolicyKind::MintRateLimit
        } else if tag == BLOCK_LIST_TAG {
            PolicyKind::BlockList
        } else {
            PolicyKind::Unknown
        },
        None => PolicyKind::Unknown,
    }
}

/// The state of one rule that transfers are held to.
#[derive(Debug)]
pub enum PolicyAccount {
    /// A quota for each authority.
    AuthorityRateLimit(AuthorityRateLimit),
    /// A quota for a mint.
    MintRateLimit(MintRateLimit),
    /// A list of denied addresses.
    BlockList(BlockList),
}

/// What a `PolicyAccount` holds, as a mathematical value.
pub enum PolicyView {
    AuthorityRateLimit(AuthorityRateLimitView),
    MintRateLimit(MintRateLimit),
    BlockList(BlockListView),
}

impl View for PolicyAccount {
    type V = PolicyView;

    open spec fn view(&self) -> PolicyView {
        match self {
            PolicyAccount::AuthorityRateLimit(l) => PolicyView::AuthorityRateLimit(l@),
            PolicyAccount::MintRateLimit(l) => PolicyView::MintRateLimit(*l),
            PolicyAccount::BlockList(b) => PolicyView::BlockList(b@),
        }
    }
}

impl PolicyView {
    /// The policy can be consulted: if it is a rate limiter, its period has
    /// a length.
    pub open spec fn wf(self) -> bool {
        match self {
            PolicyView::AuthorityRateLimit(l) => l.wf(),
            PolicyView::MintRateLimit(l) => l.wf(),
            PolicyView::BlockList(_) => true,
        }
    }

    /// Why the policy refuses the transfer of `amount` among `who` at `now`,
    /// or `None` if it lets the transfer pass. A block list refuses a
    /// transfer that one of its addresses takes part in. A rate limiter
    /// refuses a transfer that would exceed the limit; a limiter per
    /// authority counts the transfer for the authority of the transfer.
    pub open spec fn refusal(self, who: Participants, amount: u64, now: i64) -> Option<PolicyError> {
        match self {
            PolicyView::AuthorityRateLimit(l) => if l.total_after(who.authority, amount, now)
                > l.period_limit {
                Some(PolicyError::RateLimitExceeded)
            } else {
                None
            },
            PolicyView::MintRateLimit(l) => if l.total_after(amount, now) > l.period_limit {
                Some(PolicyError::RateLimitExceeded)
            } else {
                None
            },
            PolicyView::BlockList(b) => if who.denied_by(b.denied()) {
                Some(PolicyError::Denied)
            } else {
                None
            },
        }
    }

    /// The policy after it was consulted about the transfer: a rate limiter
    /// has counted a transfer that it lets pass; nothing else changes.
    pub open spec fn consulted(self, who: Participants, amount: u64, now: i64) -> PolicyView {
        match self {
            PolicyView::AuthorityRateLimit(l) => PolicyView::AuthorityRateLimit(
                l.after_transfer(who.authority, amount, now),
            ),
            PolicyView::MintRateLimit(l) => PolicyView::MintRateLimit(
                l.after_transfer(amount, now),
            ),
            PolicyView::BlockList(b) => self,
        }
    }

    /// A policy that refuses a transfer is left as it was.
    pub proof fn lemma_refusal_changes_nothing(self, who: Participants, amount: u64, now: i64)
        requires
            self.refusal(who, amount, now) is Some,
        ensures
            self.consulted(who, amount, now) == self,
    {
    }
}

impl PolicyAccount {
    /// Consults the policy about the transfer of `amount` among `who` at
    /// `now`: either the policy lets the transfer pass, and a rate limiter
    /// has counted it, or it refuses the transfer and nothing has changed.
    pub fn check(&mut self, who: &Participants, amount: u64, now: i64) -> (r: Result<
        (),
        PolicyError,
    >)
        requires
            old(self)@.wf(),
        ensures
            r is Ok <==> old(self)@.refusal(*who, amount, now) is None,
            r matches Err(e) ==> old(self)@.refusal(*who, amount, now) == Some(e),
            final(self)@ == old(self)@.consulted(*who, amount, now),
            final(self)@.wf(),
    {
        match self {
            PolicyAccount::AuthorityRateLimit(limiter) => {
                match limiter.check_and_update(Some(who.authority), amount, now) {
                    Ok(()) => Ok(()),
                    Err(e) => Err(e.to_policy_error()),
                }
            },
            PolicyAccount::MintRateLimit(limiter) => {
                match limiter.check_and_update(None, amount, now) {
                    Ok(()) => Ok(()),
                    Err(e) => Err(e.to_policy_error()),
                }
            },
            PolicyAccount::BlockList(list) => {
                if list.transfer_denied(who.authority) || list.transfer_denied(who.source_owner)
                    || list.transfer_denied(who.destination_owner) {
                    Err(PolicyError::Denied)
                } else {
                    Ok(())
                }
            },
        }
    }
}

/// The policy that the bytes of an account stand for, if they stand for one:
/// the tag names a kind of policy and the bytes can be read as an account of
/// that kind. `owner_kind` is the kind of owner that block lists have.
pub open spec fn spec_decode_policy(data: Seq<u8>, owner_kind: OwnerKind) -> Option<PolicyView> {
    match kind_of(data) {
        PolicyKind::AuthorityRateLimit => match AuthorityRateLimitView::spec_decode(data) {
            Some(l) => Some(PolicyView::AuthorityRateLimit(l)),
            None => None,
        },
        PolicyKind::MintRateLimit => match MintRateLimit::spec_decode(data) {
            Some(l) => Some(PolicyView::MintRateLimit(l)),
            None => None,
        },
        PolicyKind::BlockList => match BlockListView::spec_decode(data, owner_kind) {
            Some(b) => Some(PolicyView::BlockList(b)),
            None => None,
        },
        PolicyKind::Unknown => None,
    }
}

/// The bytes of the account of a policy.
pub open spec fn spec_encode_policy(policy: PolicyView) -> Seq<u8> {
    match policy {
        PolicyView::AuthorityRateLimit(l) => l.spec_encode(),
        PolicyView::MintRateLimit(l) => l.spec_encode(),
        PolicyView::BlockList(b) => b.spec_encode(),
    }
}

/// The account of the policy can be written: the number of its items fits
/// into the four bytes that count them.
pub open spec fn encodable(policy: PolicyView) -> bool {
    match policy {
        PolicyView::AuthorityRateLimit(l) => l.entries.len() <= u32::MAX,
        PolicyView::MintRateLimit(l) => true,
        PolicyView::BlockList(b) => b.denied_addresses.len() <= u32::MAX,
    }
}

/// Reads a policy from the bytes of its account. An account with a tag that
/// names no kind of policy, or whose bytes cannot be read as its kind, is
/// refused.
pub fn decode_policy(data: &[u8], owner_kind: OwnerKind) -> (r: Result<PolicyAccount, PolicyError>)
    ensures
        r matches Ok(p) ==> spec_decode_policy(data@, owner_kind) == Some(p@) && p@.wf(),
        r matches Err(e) ==> spec_decode_policy(data@, owner_kind) is None && e
            == PolicyError::InvalidPolicyAccount,
{
    match policy_kind(data) {
        PolicyKind::AuthorityRateLimit => match AuthorityRateLimit::decode(data) {
            Ok(l) => Ok(PolicyAccount::AuthorityRateLimit(l)),
            Err(e) => Err(e),
        },
        PolicyKind::MintRateLimit => match MintRateLimit::decode(data) {
            Ok(l) => Ok(PolicyAccount::MintRateLimit(l)),
            Err(e) => Err(e),
        },
        PolicyKind::BlockList => match BlockList::decode(data, owner_kind) {
            Ok(b) => Ok(PolicyAccount::BlockList(b)),
            Err(e) => Err(e),
        },
        PolicyKind::Unknown => Err(PolicyError::InvalidPolicyAccount),
    }
}

/// Writes a policy as the bytes of its account, if it can be written.
pub fn encode_policy(policy: &PolicyAccount) -> (r: Option<Vec<u8>>)
    ensures
        r is Some <==> encodable(policy@),
        r matches Some(out) ==> out@ == spec_encode_policy(policy@),
{
    match policy {
        PolicyAccount::AuthorityRateLimit(l) => l.encode(),
        PolicyAccount::MintRateLimit(l) => Some(l.encode()),
        PolicyAccount::BlockList(b) => b.encode(),
    }
}

} // verus!
