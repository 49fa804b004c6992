//! The owner of a token account, as the token program's interface reads it
//! from the bytes of the account.

use vstd::prelude::*;
use crate::address::{address_of, lemma_address_of, Address};
use crate::error::PolicyError;

verus! {

/// The error type of the programs that the token program's interface speaks
/// for. Nothing is read from a value of it.
#[verifier::external_type_specification]
#[verifier::external_body]
pub struct ExProgramError(anchor_lang::prelude::ProgramError);

/// The bytes of the owner that `StateWithExtensions::<Account>::unpack` of the
/// token program's interface finds in the bytes of a token account, or `None`
/// where it refuses the bytes.
pub uninterp spec fn token_account_owner(data: Seq<u8>) -> Option<Seq<u8>>;

/// Calls `StateWithExtensions::<Account>::unpack` of the token program's
/// interface on `data` and hands out the owner of the account that it reads.
///
/// Not proved, but taken from that function: what it returns depends on the
/// bytes alone; it accepts no fewer than 165 bytes, the size of an account
/// without extensions; and the owner that it reads is made of the bytes 32 to
/// 63. When it accepts the bytes is not stated here.
#[verifier::external_body]
fn unpack_token_account_owner(data: &[u8]) -> (r: Result<Address, anchor_lang::prelude::ProgramError>)
    ensures
        r matches Ok(owner) ==> token_account_owner(data@) == Some(owner@),
        r is Err ==> token_account_owner(data@) is None,
        r matches Ok(owner) ==> data@.len() >= 165 && owner@ == data@.subrange(32, 64),
{
    anchor_spl::token_2022::spl_token_2022::extension::StateWithExtensions::<
        anchor_spl::token_2022::spl_token_2022::state::Account,
    >::unpack(data).map(|account| Address::new(account.base.owner.to_bytes()))
}

/// The owner of the token account with the bytes `data`, or `None` where the
/// bytes are not those of a token account.
pub open spec fn owner_of(data: Seq<u8>) -> Option<Address> {
    match token_account_owner(data) {
        Some(bytes) => Some(address_of(bytes)),
        None => None,
    }
}

/// Reads the owner of a token account from the bytes of the account. Bytes
/// that are not those of a token account are refused.
pub fn resolve_owner(data: &[u8]) -> (r: Result<Address, PolicyError>)
    ensures
        r matches Ok(owner) ==> owner_of(data@) == Some(owner) && data@.len() >= 165 && owner@
            == data@.subrange(32, 64),
        r matches Err(e) ==> owner_of(data@) is None && e == PolicyError::InvalidTokenAccount,
{
    match unpack_token_account_owner(data) {
        Ok(owner) => {
            proof {
                lemma_address_of(owner, owner@);
            }
            Ok(owner)
        },
        Err(_) => Err(PolicyError::InvalidTokenAccount),
    }
}

} // verus!
