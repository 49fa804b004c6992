//! The administration of the block lists: who may create and change one, and
//! what creating and changing one does.

use vstd::prelude::*;
use crate::address::Address;
use crate::block_list::{
    denied_after_add, denied_after_remove, with_each, BlockList, ListOwner,
};
use crate::error::{ErrorCode, PolicyError};
use crate::pda::{
    derive_address, derived, extra_account_metas_seed, extra_account_metas_seed_bytes,
    management_seed, management_seed_bytes, seeds_of,
};
use crate::program::{sanctioned_transfer_hook_id, spec_sanctioned_transfer_hook_id};
use crate::token_account::{owner_of, resolve_owner};

verus! {

/// Names the address that administers the block lists, and counts the lists
/// that were created.
#[derive(Clone, Copy, Debug)]
pub struct Management {
    /// The administrator.
    pub authority: Address,
    /// Number of block lists created so far.
    pub num_block_lists: u64,
}

impl Management {
    /// Number of bytes that the account takes: the tag of eight bytes, the
    /// administrator's address and 32 bytes for the count.
    pub fn space() -> (n: usize)
        ensures
            n == 72,
    {
        8 + 32 + 32
    }

    /// The address of the account, with its bump seed.
    pub fn derive_pda() -> (r: Option<(Address, u8)>)
        ensures
            r == derived(seq![management_seed()], spec_sanctioned_transfer_hook_id()),
    {
        derive_address(&seeds_of(management_seed_bytes(), None), &sanctioned_transfer_hook_id())
    }

    /// `authority` is the administrator.
    pub fn is_authorized(&self, authority: Address) -> (authorized: bool)
        ensures
            authorized == (self.authority == authority),
    {
        self.authority == authority
    }

    /// Counts one more list and returns the number of the new list: the
    /// count before.
    pub fn increment_and_get_new_list_number(&mut self) -> (number: u64)
        requires
            old(self).num_block_lists < u64::MAX,
        ensures
            number == old(self).num_block_lists,
            final(self).num_block_lists == old(self).num_block_lists + 1,
            final(self).authority == old(self).authority,
    {
        let new_list_number: u64 = self.num_block_lists;
        self.num_block_lists = self.num_block_lists + 1;
        new_list_number
    }
}

impl BlockList {
    /// The address of the list of extra accounts of `mint`, with its bump
    /// seed.
    pub fn derive_pda(mint: Address) -> (r: Option<(Address, u8)>)
        ensures
            r == derived(
                seq![extra_account_metas_seed(), mint@],
                spec_sanctioned_transfer_hook_id(),
            ),
    {
        derive_address(
            &seeds_of(extra_account_metas_seed_bytes(), Some(&mint)),
            &sanctioned_transfer_hook_id(),
        )
    }
}

/// What the first instruction of the program is handed: the signer and the
/// account of a block list that is to be the signer's.
#[derive(Debug)]
pub struct Initialize {
    /// The signer.
    pub authority: Address,
    /// The account to be filled.
    pub block_list: BlockList,
}

impl Initialize {
    /// Makes the account an empty list that the signer administers.
    pub fn handler(ctx: &mut Initialize) -> (r: Result<(), ErrorCode>)
        ensures
            r is Ok,
            final(ctx).authority == old(ctx).authority,
            final(ctx).block_list.owner == ListOwner::Authority(old(ctx).authority),
            final(ctx).block_list.denied_addresses@ == Seq::<Address>::empty(),
            final(ctx).block_list.wf(),
    {
        ctx.block_list = BlockList::new(ListOwner::Authority(ctx.authority));
        Ok(())
    }
}

/// What the creation of a numbered block list is handed.
#[derive(Debug)]
pub struct CreateBlockList {
    /// The signer.
    pub authority: Address,
    /// The account that names the administrator and counts the lists.
    pub management: Management,
    /// The account of the list, to be filled.
    pub block_list: BlockList,
}

impl CreateBlockList {
    /// Only the administrator creates block lists.
    pub fn validations(ctx: &CreateBlockList) -> (r: Result<(), ErrorCode>)
        ensures
            r is Ok <==> ctx.management.authority == ctx.authority,
            r matches Err(e) ==> e == ErrorCode::Unauthorized,
    {
        if !ctx.management.is_authorized(ctx.authority) {
            return Err(ErrorCode::Unauthorized);
        }
        Ok(())
    }

    /// Makes the account an empty list with the next number, and counts the
    /// list. A signer that is not the administrator is refused and nothing
    /// changes.
    pub fn handler(ctx: &mut CreateBlockList) -> (r: Result<(), ErrorCode>)
        requires
            old(ctx).management.num_block_lists < u64::MAX,
        ensures
            r is Ok <==> old(ctx).management.authority == old(ctx).authority,
            r matches Err(e) ==> e == ErrorCode::Unauthorized && *final(ctx) == *old(ctx),
            r is Ok ==> {
                &&& final(ctx).authority == old(ctx).authority
                &&& final(ctx).management.authority == old(ctx).management.authority
                &&& final(ctx).management.num_block_lists == old(ctx).management.num_block_lists
                    + 1
                &&& final(ctx).block_list.owner == ListOwner::Number(
                    old(ctx).management.num_block_lists,
                )
                &&& final(ctx).block_list.denied_addresses@ == Seq::<Address>::empty()
                &&& final(ctx).block_list.wf()
            },
    {
        match CreateBlockList::validations(ctx) {
            Ok(()) => {},
            Err(e) => {
                return Err(e);
            },
        }
        let new_list_number: u64 = ctx.management.increment_and_get_new_list_number();
        ctx.block_list = BlockList::new(ListOwner::Number(new_list_number));
        Ok(())
    }
}

/// What a change of a block list is handed.
#[derive(Debug)]
pub struct ManageBlockList {
    /// The signer.
    pub authority: Address,
    /// The account that names the administrator of the numbered lists.
    pub management: Management,
    /// The list to be changed.
    pub block_list: BlockList,
}

impl ManageBlockList {
    /// The address that may change the list: the owner of a list that has
    /// one, and the administrator for a numbered list.
    pub open spec fn administrator(&self) -> Address {
        match self.block_list.owner {
            ListOwner::Authority(owner) => owner,
            ListOwner::Number(_) => self.management.authority,
        }
    }

    /// The signer may change the list.
    pub fn authorized(&self) -> (r: bool)
        ensures
            r == (self.administrator() == self.authority),
    {
        match self.block_list.owner {
            ListOwner::Authority(owner) => owner == self.authority,
            ListOwner::Number(_) => self.management.is_authorized(self.authority),
        }
    }

    /// Adds `addresses` to the list. A signer that may not change the list is
    /// refused, and so are addresses that the list cannot hold; either way
    /// the list is left as it was.
    pub fn add_handler(ctx: &mut ManageBlockList, addresses: Vec<Address>) -> (r: Result<
        (),
        ErrorCode,
    >)
        ensures
            final(ctx).authority == old(ctx).authority,
            final(ctx).management == old(ctx).management,
            final(ctx).block_list.owner == old(ctx).block_list.owner,
            old(ctx).administrator() != old(ctx).authority ==> r == Err::<(), ErrorCode>(
                ErrorCode::Unauthorized,
            ),
            old(ctx).administrator() == old(ctx).authority ==> {
                &&& r is Ok <==> old(ctx).block_list.denied().union(addresses@.to_set()).len()
                    <= crate::constants::MAX_ADDRESSES_PER_LIST
                &&& r matches Err(e) ==> e == ErrorCode::BlockListFull
                &&& final(ctx).block_list.denied() == denied_after_add(
                    old(ctx).block_list.denied(),
                    addresses@,
                )
                &&& r is Ok ==> final(ctx).block_list.wf()
                &&& r is Ok ==> final(ctx).block_list.denied_addresses@ == with_each(
                    with_each(Seq::empty(), old(ctx).block_list.denied_addresses@),
                    addresses@,
                )
            },
            r is Err ==> *final(ctx) == *old(ctx),
    {
        if !ctx.authorized() {
            return Err(ErrorCode::Unauthorized);
        }
        ctx.block_list.add(addresses)
    }

    /// Takes `addresses` off the list. A signer that may not change the list
    /// is refused and the list is left as it was.
    pub fn remove_handler(ctx: &mut ManageBlockList, addresses: Vec<Address>) -> (r: Result<
        (),
        ErrorCode,
    >)
        ensures
            final(ctx).authority == old(ctx).authority,
            final(ctx).management == old(ctx).management,
            final(ctx).block_list.owner == old(ctx).block_list.owner,
            r is Ok <==> old(ctx).administrator() == old(ctx).authority,
            r matches Err(e) ==> e == ErrorCode::Unauthorized && *final(ctx) == *old(ctx),
            r is Ok ==> {
                &&& final(ctx).block_list.denied() == denied_after_remove(
                    old(ctx).block_list.denied(),
                    addresses@,
                )
                &&& final(ctx).block_list.denied_addresses@ == old(
                    ctx,
                ).block_list.denied_addresses@.filter(|a: Address| !addresses@.contains(a))
                &&& old(ctx).block_list.wf() ==> final(ctx).block_list.wf()
            },
    {
        if !ctx.authorized() {
            return Err(ErrorCode::Unauthorized);
        }
        ctx.block_list.remove(addresses);
        Ok(())
    }
}

/// What the hook that moves tokens to a delegate is handed with a transfer.
#[derive(Debug)]
pub struct TransferHook {
    /// The bytes of the token account that the tokens leave.
    pub sender_token_account: Vec<u8>,
    /// The bytes of the delegate's token account, which the tokens reach.
    pub delegate_token_account: Vec<u8>,
    /// The owner of the delegate's account.
    pub delegate_owner: Address,
    /// The block list that the transfer is held to.
    pub block_list_account: BlockList,
}

impl TransferHook {
    /// Why the transfer may not pass, or `None` if it may. The owner of the
    /// sender's token account is looked up first, then the owner of the
    /// delegate's token account, then the owner of the delegate; a token
    /// account that cannot be read counts as soon as its turn has come.
    pub open spec fn refusal(&self) -> Option<PolicyError> {
        match owner_of(self.sender_token_account@) {
            None => Some(PolicyError::InvalidTokenAccount),
            Some(sender) => if self.block_list_account.denied().contains(sender) {
                Some(PolicyError::Denied)
            } else {
                match owner_of(self.delegate_token_account@) {
                    None => Some(PolicyError::InvalidTokenAccount),
                    Some(receiver) => if self.block_list_account.denied().contains(receiver)
                        || self.block_list_account.denied().contains(self.delegate_owner) {
                        Some(PolicyError::Denied)
                    } else {
                        None
                    },
                }
            },
        }
    }

    /// Decides whether the tokens may be moved to the delegate: they may
    /// unless the sender, the receiver or the delegate's owner is on the block
    /// list.
    pub fn handler(ctx: &TransferHook) -> (r: Result<(), PolicyError>)
        ensures
            r is Ok <==> ctx.refusal() is None,
            r matches Err(e) ==> ctx.refusal() == Some(e),
    {
        let sender = match resolve_owner(ctx.sender_token_account.as_slice()) {
            Ok(owner) => owner,
            Err(e) => {
                return Err(e);
            },
        };
        if ctx.block_list_account.transfer_denied(sender) {
            return Err(PolicyError::Denied);
        }
        let receiver = match resolve_owner(ctx.delegate_token_account.as_slice()) {
            Ok(owner) => owner,
            Err(e) => {
                return Err(e);
            },
        };
        if ctx.block_list_account.transfer_denied(receiver) {
            return Err(PolicyError::Denied);
        }
        if ctx.block_list_account.transfer_denied(ctx.delegate_owner) {
            return Err(PolicyError::Denied);
        }
        Ok(())
    }
}

} // verus!
