//! The evaluation of a list of policy accounts against one transfer.
//!
//! The accounts are consulted in their order. Each is read from its bytes,
//! consulted, and, if it is a rate limiter that lets the transfer pass,
//! written back with the transfer counted. The first account that refuses the
//! transfer, or that cannot be read, ends the evaluation with its error. What
//! earlier accounts have counted by then stays counted: the evaluation does
//! not take it back.

use vstd::prelude::*;
use vstd::bytes::{spec_u32_to_le_bytes, spec_u64_to_le_bytes};
use crate::address::Address;
use crate::codec::{entries_bytes, lemma_u64_at, OwnerKind};
use crate::error::PolicyError;
use crate::policy::{
    decode_policy, encodable, encode_policy, spec_decode_policy, spec_encode_policy, Participants,
    PolicyAccount, PolicyView,
};
use crate::token_account::{owner_of, resolve_owner};
use crate::wire::{contents, i64_bytes, AUTHORITY_RATE_LIMIT_TAG, MINT_RATE_LIMIT_TAG};

verus! {

/// The bytes of an account after `encoded` was written over its start: the
/// bytes behind what was written stay, and an account that is too short
/// becomes as long as what was written.
pub open spec fn stored(data: Seq<u8>, encoded: Seq<u8>) -> Seq<u8> {
    if encoded.len() <= data.len() {
        encoded + data.skip(encoded.len() as int)
    } else {
        encoded
    }
}

/// Writes `encoded` over the start of the account.
pub fn store(data: &mut Vec<u8>, encoded: Vec<u8>)
    ensures
        final(data)@ == stored(old(data)@, encoded@),
{
    let mut out: Vec<u8> = encoded;
    let start: usize = out.len();
    let len: usize = data.len();
    if start < len {
        let mut i: usize = start;
        assert(out@ =~= encoded@ + data@.subrange(start as int, i as int));
        while i < len
            invariant
                start <= i <= len,
                len == data@.len(),
                start == encoded@.len(),
                data@ == old(data)@,
                out@ == encoded@ + data@.subrange(start as int, i as int),
            decreases len - i,
        {
            out.push(data[i]);
            assert(data@.subrange(start as int, i as int + 1) =~= data@.subrange(
                start as int,
                i as int,
            ).push(data@[i as int]));
            i = i + 1;
        }
        assert(data@.subrange(start as int, i as int) =~= data@.skip(start as int));
    } else {
        assert(start == len ==> encoded@ + data@.skip(start as int) =~= encoded@);
    }
    *data = out;
}

/// What consulting one account about a transfer leads to: the bytes of the
/// account afterwards if the transfer may pass, and the error otherwise.
///
/// An account that cannot be read is an error. So is a rate limiter that
/// cannot be written back. A block list is only read: its bytes stay.
pub open spec fn account_outcome(
    data: Seq<u8>,
    who: Participants,
    amount: u64,
    now: i64,
    owner_kind: OwnerKind,
) -> Result<Seq<u8>, PolicyError> {
    match spec_decode_policy(data, owner_kind) {
        None => Err(PolicyError::InvalidPolicyAccount),
        Some(policy) => match policy.refusal(who, amount, now) {
            Some(e) => Err(e),
            None => if policy is BlockList {
                Ok(data)
            } else if encodable(policy.consulted(who, amount, now)) {
                Ok(stored(data, spec_encode_policy(policy.consulted(who, amount, now))))
            } else {
                Err(PolicyError::InvalidPolicyAccount)
            },
        },
    }
}

/// What the evaluation writes into an account is read from it as the policy
/// that was consulted: a rate limiter that has counted the transfer, or the
/// block list as it was.
pub proof fn lemma_outcome_is_read_back(
    data: Seq<u8>,
    who: Participants,
    amount: u64,
    now: i64,
    owner_kind: OwnerKind,
)
    requires
        account_outcome(data, who, amount, now, owner_kind) is Ok,
    ensures
        spec_decode_policy(data, owner_kind) matches Some(policy) && spec_decode_policy(
            account_outcome(data, who, amount, now, owner_kind)->Ok_0,
            owner_kind,
        ) == Some(policy.consulted(who, amount, now)),
{
    let policy = spec_decode_policy(data, owner_kind)->Some_0;
    let after = policy.consulted(who, amount, now);
    let bytes = account_outcome(data, who, amount, now, owner_kind)->Ok_0;
    let encoded = spec_encode_policy(after);
    let rest = if encoded.len() <= data.len() {
        data.skip(encoded.len() as int)
    } else {
        Seq::<u8>::empty()
    };
    match after {
        PolicyView::MintRateLimit(l) => {
            l.lemma_decode_encode(rest);
            assert(bytes =~= encoded + rest);
            lemma_u64_at(
                Seq::empty(),
                MINT_RATE_LIMIT_TAG,
                bytes.skip(8),
            );
            assert(bytes.subrange(0, 8) =~= spec_u64_to_le_bytes(
                MINT_RATE_LIMIT_TAG,
            ));
            assert(bytes =~= Seq::<u8>::empty() + bytes.subrange(0, 8) + bytes.skip(8));
        },
        PolicyView::AuthorityRateLimit(l) => {
            match policy {
                PolicyView::AuthorityRateLimit(before) => {
                    before.lemma_rolled_over(now);
                    before.rolled_over(now).lemma_with_count(
                        who.authority,
                        before.total_after(who.authority, amount, now) as u64,
                    );
                },
                _ => {},
            }
            l.lemma_decode_encode(rest);
            assert(bytes =~= encoded + rest);
            l.lemma_head(entries_bytes(l.entries) + rest);
            assert(bytes =~= spec_u64_to_le_bytes(
                AUTHORITY_RATE_LIMIT_TAG,
            ) + spec_u64_to_le_bytes(l.period_limit) + i64_bytes(
                l.current_period_start,
            ) + spec_u64_to_le_bytes(l.period_duration) + l.mint@
                + spec_u32_to_le_bytes(l.entries.len() as u32) + (
            entries_bytes(l.entries) + rest));
        },
        PolicyView::BlockList(_) => {},
    }
}

/// Consults one account about a transfer. Either the transfer may pass, and
/// the account holds what `account_outcome` says, or the account is left as
/// it was and the error says why the transfer may not pass.
pub fn check_account(
    data: &mut Vec<u8>,
    who: &Participants,
    amount: u64,
    now: i64,
    owner_kind: OwnerKind,
) -> (r: Result<(), PolicyError>)
    ensures
        match account_outcome(old(data)@, *who, amount, now, owner_kind) {
            Ok(bytes) => r is Ok && final(data)@ == bytes,
            Err(e) => r == Err::<(), PolicyError>(e) && *final(data) == *old(data),
        },
{
    let mut policy = match decode_policy(data.as_slice(), owner_kind) {
        Ok(policy) => policy,
        Err(e) => {
            return Err(e);
        },
    };
    match policy.check(who, amount, now) {
        Ok(()) => {},
        Err(e) => {
            return Err(e);
        },
    }
    match policy {
        PolicyAccount::BlockList(_) => Ok(()),
        _ => match encode_policy(&policy) {
            Some(encoded) => {
                store(data, encoded);
                Ok(())
            },
            None => Err(PolicyError::InvalidPolicyAccount),
        },
    }
}

/// Each of the first `upto` accounts lets the transfer pass.
pub open spec fn accepted_through(
    accounts: Seq<Seq<u8>>,
    upto: int,
    who: Participants,
    amount: u64,
    now: i64,
    owner_kind: OwnerKind,
) -> bool {
    forall|j: int|
        0 <= j < upto ==> (#[trigger] account_outcome(accounts[j], who, amount, now, owner_kind))
            is Ok
}

/// The account `k` is the first that does not let the transfer pass.
pub open spec fn refused_at(
    accounts: Seq<Seq<u8>>,
    k: int,
    who: Participants,
    amount: u64,
    now: i64,
    owner_kind: OwnerKind,
) -> bool {
    &&& 0 <= k < accounts.len()
    &&& accepted_through(accounts, k, who, amount, now, owner_kind)
    &&& account_outcome(accounts[k], who, amount, now, owner_kind) is Err
}

/// The accounts after the first `upto` of them were consulted and let the
/// transfer pass.
pub open spec fn persisted(
    accounts: Seq<Seq<u8>>,
    upto: int,
    who: Participants,
    amount: u64,
    now: i64,
    owner_kind: OwnerKind,
) -> Seq<Seq<u8>> {
    Seq::new(
        accounts.len(),
        |j: int|
            if j < upto {
                match account_outcome(accounts[j], who, amount, now, owner_kind) {
                    Ok(bytes) => bytes,
                    Err(_) => accounts[j],
                }
            } else {
                accounts[j]
            },
    )
}

/// The first account that does not let the transfer pass, if there is one.
pub open spec fn first_refusal(
    accounts: Seq<Seq<u8>>,
    who: Participants,
    amount: u64,
    now: i64,
    owner_kind: OwnerKind,
) -> Option<int> {
    if exists|k: int| refused_at(accounts, k, who, amount, now, owner_kind) {
        Some(choose|k: int| refused_at(accounts, k, who, amount, now, owner_kind))
    } else {
        None
    }
}

/// Whether the transfer may pass: it may if every account lets it pass, and
/// otherwise the error is that of the first account that does not.
pub open spec fn verdict(
    accounts: Seq<Seq<u8>>,
    who: Participants,
    amount: u64,
    now: i64,
    owner_kind: OwnerKind,
) -> Result<(), PolicyError> {
    match first_refusal(accounts, who, amount, now, owner_kind) {
        Some(k) => match account_outcome(accounts[k], who, amount, now, owner_kind) {
            Ok(_) => Ok(()),
            Err(e) => Err(e),
        },
        None => Ok(()),
    }
}

/// The accounts after the evaluation: every account that was consulted and
/// let the transfer pass has counted it; the account that refused it and the
/// accounts behind it are as they were.
pub open spec fn settled(
    accounts: Seq<Seq<u8>>,
    who: Participants,
    amount: u64,
    now: i64,
    owner_kind: OwnerKind,
) -> Seq<Seq<u8>> {
    match first_refusal(accounts, who, amount, now, owner_kind) {
        Some(k) => persisted(accounts, k, who, amount, now, owner_kind),
        None => persisted(accounts, accounts.len() as int, who, amount, now, owner_kind),
    }
}

/// There is one first account that refuses, or none.
pub proof fn lemma_first_refusal(
    accounts: Seq<Seq<u8>>,
    k: int,
    who: Participants,
    amount: u64,
    now: i64,
    owner_kind: OwnerKind,
)
    ensures
        refused_at(accounts, k, who, amount, now, owner_kind) ==> first_refusal(
            accounts,
            who,
            amount,
            now,
            owner_kind,
        ) == Some(k),
        accepted_through(accounts, accounts.len() as int, who, amount, now, owner_kind)
            ==> first_refusal(accounts, who, amount, now, owner_kind) is None,
{
    if refused_at(accounts, k, who, amount, now, owner_kind) {
        let c = choose|c: int| refused_at(accounts, c, who, amount, now, owner_kind);
        if c < k {
            assert(account_outcome(accounts[c], who, amount, now, owner_kind) is Ok);
        }
        if k < c {
            assert(account_outcome(accounts[k], who, amount, now, owner_kind) is Ok);
        }
    }
    if accepted_through(accounts, accounts.len() as int, who, amount, now, owner_kind) {
        if exists|c: int| refused_at(accounts, c, who, amount, now, owner_kind) {
            let c = choose|c: int| refused_at(accounts, c, who, amount, now, owner_kind);
            assert(account_outcome(accounts[c], who, amount, now, owner_kind) is Ok);
        }
    }
}

/// Evaluates the policy accounts, in their order, against the transfer of
/// `amount` among `who` at the time `now`.
///
/// The result is `Ok` if every account lets the transfer pass, and the error
/// of the first account that does not otherwise. Every account that let the
/// transfer pass before the evaluation ended has counted it.
pub fn evaluate(
    who: &Participants,
    amount: u64,
    now: i64,
    owner_kind: OwnerKind,
    policies: &mut Vec<Vec<u8>>,
) -> (r: Result<(), PolicyError>)
    ensures
        r == verdict(contents(old(policies)@), *who, amount, now, owner_kind),
        contents(final(policies)@) == settled(
            contents(old(policies)@),
            *who,
            amount,
            now,
            owner_kind,
        ),
        final(policies)@.len() == old(policies)@.len(),
{
    let ghost before = contents(policies@);
    let count: usize = policies.len();
    let mut i: usize = 0;
    assert(contents(policies@) =~= persisted(before, 0, *who, amount, now, owner_kind));
    while i < count
        invariant
            i <= count,
            count == policies@.len(),
            before.len() == count,
            before == contents(old(policies)@),
            old(policies)@.len() == count,
            accepted_through(before, i as int, *who, amount, now, owner_kind),
            contents(policies@) == persisted(before, i as int, *who, amount, now, owner_kind),
        decreases count - i,
    {
        let ghost earlier = policies@;
        assert(contents(earlier)[i as int] == before[i as int]);
        match check_account(&mut policies[i], who, amount, now, owner_kind) {
            Ok(()) => {
                assert(contents(policies@) =~= persisted(
                    before,
                    i as int + 1,
                    *who,
                    amount,
                    now,
                    owner_kind,
                )) by {
                    assert forall|j: int| 0 <= j < count implies contents(policies@)[j]
                        == persisted(before, i as int + 1, *who, amount, now, owner_kind)[j] by {
                        if j != i {
                            assert(policies@[j] == earlier[j]);
                            assert(contents(earlier)[j] == persisted(
                                before,
                                i as int,
                                *who,
                                amount,
                                now,
                                owner_kind,
                            )[j]);
                        }
                    }
                }
            },
            Err(e) => {
                proof {
                    assert(policies@ =~= earlier);
                    lemma_first_refusal(before, i as int, *who, amount, now, owner_kind);
                }
                return Err(e);
            },
        }
        i = i + 1;
    }
    proof {
        lemma_first_refusal(before, 0, *who, amount, now, owner_kind);
    }
    Ok(())
}

/// A block list that holds a participant refuses the transfer, and nothing
/// else gives that error.
pub proof fn lemma_account_denied(
    data: Seq<u8>,
    who: Participants,
    amount: u64,
    now: i64,
    owner_kind: OwnerKind,
)
    ensures
        account_outcome(data, who, amount, now, owner_kind) == Err::<Seq<u8>, PolicyError>(
            PolicyError::Denied,
        ) <==> lists_participant(data, who, owner_kind),
        spec_decode_policy(data, owner_kind) matches Some(PolicyView::BlockList(b)) ==> (
        !who.denied_by(b.denied()) ==> account_outcome(data, who, amount, now, owner_kind) == Ok::<
            Seq<u8>,
            PolicyError,
        >(data)),
{
}

/// The account is a block list that holds one of the participants.
pub open spec fn lists_participant(data: Seq<u8>, who: Participants, owner_kind: OwnerKind) -> bool {
    match spec_decode_policy(data, owner_kind) {
        Some(PolicyView::BlockList(b)) => who.denied_by(b.denied()),
        _ => false,
    }
}

/// A transfer is denied exactly if a block list that the evaluation reaches
/// holds one of the participants. The evaluation reaches an account if every
/// account before it lets the transfer pass; what the rate limiters behind
/// the block list would say does not matter.
pub proof fn lemma_denied_iff_listed(
    accounts: Seq<Seq<u8>>,
    who: Participants,
    amount: u64,
    now: i64,
    owner_kind: OwnerKind,
)
    ensures
        verdict(accounts, who, amount, now, owner_kind) == Err::<(), PolicyError>(
            PolicyError::Denied,
        ) <==> exists|k: int|
            0 <= k < accounts.len() && accepted_through(accounts, k, who, amount, now, owner_kind)
                && #[trigger] lists_participant(accounts[k], who, owner_kind),
{
    if verdict(accounts, who, amount, now, owner_kind) == Err::<(), PolicyError>(
        PolicyError::Denied,
    ) {
        let k = first_refusal(accounts, who, amount, now, owner_kind).unwrap();
        lemma_account_denied(accounts[k], who, amount, now, owner_kind);
        assert(lists_participant(accounts[k], who, owner_kind));
    }
    if exists|k: int|
        0 <= k < accounts.len() && accepted_through(accounts, k, who, amount, now, owner_kind)
            && #[trigger] lists_participant(accounts[k], who, owner_kind) {
        let k = choose|k: int|
            0 <= k < accounts.len() && accepted_through(accounts, k, who, amount, now, owner_kind)
                && #[trigger] lists_participant(accounts[k], who, owner_kind);
        lemma_account_denied(accounts[k], who, amount, now, owner_kind);
        lemma_first_refusal(accounts, k, who, amount, now, owner_kind);
    }
}

/// Where every account is a block list, the transfer passes exactly if no
/// list holds a participant, and is denied otherwise.
pub proof fn lemma_block_lists_only(
    accounts: Seq<Seq<u8>>,
    who: Participants,
    amount: u64,
    now: i64,
    owner_kind: OwnerKind,
)
    requires
        forall|k: int|
            0 <= k < accounts.len() ==> (#[trigger] spec_decode_policy(accounts[k], owner_kind))
                matches Some(PolicyView::BlockList(_)),
    ensures
        verdict(accounts, who, amount, now, owner_kind) == (if exists|k: int|
            0 <= k < accounts.len() && #[trigger] lists_participant(accounts[k], who, owner_kind) {
            Err::<(), PolicyError>(PolicyError::Denied)
        } else {
            Ok::<(), PolicyError>(())
        }),
        settled(accounts, who, amount, now, owner_kind) == accounts,
{
    assert forall|k: int| 0 <= k < accounts.len() implies (#[trigger] account_outcome(
        accounts[k],
        who,
        amount,
        now,
        owner_kind,
    )) == (if lists_participant(accounts[k], who, owner_kind) {
        Err::<Seq<u8>, PolicyError>(PolicyError::Denied)
    } else {
        Ok::<Seq<u8>, PolicyError>(accounts[k])
    }) by {
        assert(spec_decode_policy(accounts[k], owner_kind) matches Some(PolicyView::BlockList(_)));
    }
    match first_refusal(accounts, who, amount, now, owner_kind) {
        Some(k) => {
            assert(lists_participant(accounts[k], who, owner_kind));
            assert(persisted(accounts, k, who, amount, now, owner_kind) =~= accounts);
        },
        None => {
            if exists|k: int|
                0 <= k < accounts.len() && #[trigger] lists_participant(
                    accounts[k],
                    who,
                    owner_kind,
                ) {
                let k = choose|k: int|
                    0 <= k < accounts.len() && #[trigger] lists_participant(
                        accounts[k],
                        who,
                        owner_kind,
                    );
                lemma_some_refusal(accounts, k, who, amount, now, owner_kind);
            }
            assert(persisted(accounts, accounts.len() as int, who, amount, now, owner_kind)
                =~= accounts);
        },
    }
}

/// Where some account refuses, there is a first account that refuses.
pub proof fn lemma_some_refusal(
    accounts: Seq<Seq<u8>>,
    k: int,
    who: Participants,
    amount: u64,
    now: i64,
    owner_kind: OwnerKind,
)
    requires
        0 <= k < accounts.len(),
        account_outcome(accounts[k], who, amount, now, owner_kind) is Err,
    ensures
        first_refusal(accounts, who, amount, now, owner_kind) matches Some(f) && f <= k,
    decreases k,
{
    if accepted_through(accounts, k, who, amount, now, owner_kind) {
        lemma_first_refusal(accounts, k, who, amount, now, owner_kind);
    } else {
        let j = choose|j: int|
            0 <= j < k && !((#[trigger] account_outcome(accounts[j], who, amount, now, owner_kind))
                is Ok);
        lemma_some_refusal(accounts, j, who, amount, now, owner_kind);
    }
}

/// What the hook of a token is handed with one transfer of that token.
#[derive(Debug)]
pub struct TransferHook {
    /// The bytes of the token account that the tokens leave.
    pub source_token: Vec<u8>,
    /// The mint of the token.
    pub mint: Address,
    /// The bytes of the token account that the tokens reach.
    pub destination_token: Vec<u8>,
    /// The address that authorizes the transfer: the owner of the source
    /// account, or a delegate that signs for it.
    pub owner: Address,
    /// The program that owns the account which lists the policy accounts.
    pub extra_account_meta_list_owner: Address,
}

impl TransferHook {
    /// The participants of the transfer, or `None` where one of the two token
    /// accounts cannot be read.
    pub open spec fn participants(&self) -> Option<Participants> {
        match (owner_of(self.source_token@), owner_of(self.destination_token@)) {
            (Some(source_owner), Some(destination_owner)) => Some(
                Participants { authority: self.owner, source_owner, destination_owner },
            ),
            _ => None,
        }
    }

    /// What the hook answers to a transfer of `amount` at `current_time`,
    /// given the bytes `accounts` of the policy accounts.
    ///
    /// A list of policy accounts that the program `program_id` does not own
    /// is refused before anything else; then a token account that cannot be
    /// read. After that the answer is the verdict of the policy accounts.
    pub open spec fn answer(
        &self,
        program_id: Address,
        owner_kind: OwnerKind,
        accounts: Seq<Seq<u8>>,
        amount: u64,
        current_time: i64,
    ) -> Result<(), PolicyError> {
        if self.extra_account_meta_list_owner != program_id {
            Err(PolicyError::InvalidExtraAccountMetasList)
        } else {
            match self.participants() {
                None => Err(PolicyError::InvalidTokenAccount),
                Some(who) => verdict(accounts, who, amount, current_time, owner_kind),
            }
        }
    }

    /// The bytes of the policy accounts after the hook has answered: as the
    /// evaluation leaves them if it came to evaluate them, and as they were
    /// otherwise.
    pub open spec fn accounts_after(
        &self,
        program_id: Address,
        owner_kind: OwnerKind,
        accounts: Seq<Seq<u8>>,
        amount: u64,
        current_time: i64,
    ) -> Seq<Seq<u8>> {
        if self.extra_account_meta_list_owner != program_id {
            accounts
        } else {
            match self.participants() {
                None => accounts,
                Some(who) => settled(accounts, who, amount, current_time, owner_kind),
            }
        }
    }

    /// Decides whether the transfer of `amount` at `current_time` may pass.
    ///
    /// `program_id` is the program that the hook runs as, `owner_kind` the
    /// kind of owner that its block lists have, and `remaining_accounts` the
    /// bytes of the policy accounts in the order in which they are to be
    /// consulted. The rate limiters among them that let the transfer pass
    /// count it.
    pub fn handler(
        &self,
        program_id: &Address,
        owner_kind: OwnerKind,
        remaining_accounts: &mut Vec<Vec<u8>>,
        amount: u64,
        current_time: i64,
    ) -> (r: Result<(), PolicyError>)
        ensures
            r == self.answer(
                *program_id,
                owner_kind,
                contents(old(remaining_accounts)@),
                amount,
                current_time,
            ),
            contents(final(remaining_accounts)@) == self.accounts_after(
                *program_id,
                owner_kind,
                contents(old(remaining_accounts)@),
                amount,
                current_time,
            ),
            final(remaining_accounts)@.len() == old(remaining_accounts)@.len(),
    {
        self.validations(program_id, owner_kind, remaining_accounts, amount, current_time)
    }

    /// See `handler`, which does nothing but call this.
    pub fn validations(
        &self,
        program_id: &Address,
        owner_kind: OwnerKind,
        remaining_accounts: &mut Vec<Vec<u8>>,
        amount: u64,
        current_time: i64,
    ) -> (r: Result<(), PolicyError>)
        ensures
            r == self.answer(
                *program_id,
                owner_kind,
                contents(old(remaining_accounts)@),
                amount,
                current_time,
            ),
            contents(final(remaining_accounts)@) == self.accounts_after(
                *program_id,
                owner_kind,
                contents(old(remaining_accounts)@),
                amount,
                current_time,
            ),
            final(remaining_accounts)@.len() == old(remaining_accounts)@.len(),
    {
        if self.extra_account_meta_list_owner != *program_id {
            return Err(PolicyError::InvalidExtraAccountMetasList);
        }
        let source_owner = match resolve_owner(self.source_token.as_slice()) {
            Ok(owner) => owner,
            Err(e) => {
                return Err(e);
            },
        };
        let destination_owner = match resolve_owner(self.destination_token.as_slice()) {
            Ok(owner) => owner,
            Err(e) => {
                return Err(e);
            },
        };
        let who = Participants { authority: self.owner, source_owner, destination_owner };
        evaluate(&who, amount, current_time, owner_kind, remaining_accounts)
    }
}

} // verus!
