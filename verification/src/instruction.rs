//! The instruction by which the token program asks the hook about a
//! transfer.

use vstd::prelude::*;
use spl_transfer_hook_interface::instruction::TransferHookInstruction;
use crate::error::PolicyError;
use crate::address::Address;
use crate::wire::{address_at, read_address, read_tag, read_u32, read_u64, tag_of, u32_at, u64_at};

verus! {

/// The instructions of the transfer hook interface, without what the two
/// instructions that configure the hook carry.
#[derive(Clone, Copy, Debug, PartialEq, Eq, Structural)]
pub enum HookInstruction {
    /// Asks whether a transfer of `amount` may pass.
    Execute { amount: u64 },
    /// Sets up the list of extra accounts.
    InitializeExtraAccountMetaList,
    /// Replaces the list of extra accounts.
    UpdateExtraAccountMetaList,
}

/// The instruction that `TransferHookInstruction::unpack` of the transfer
/// hook interface reads from the bytes, or `None` where it refuses them.
pub uninterp spec fn hook_instruction(data: Seq<u8>) -> Option<HookInstruction>;

/// Calls `TransferHookInstruction::unpack` of the transfer hook interface on
/// `data` and tells which instruction it reads.
///
/// Not proved, but taken from that function: what it returns depends on the
/// bytes alone, and the amount of an `Execute` is the number in the eight
/// bytes behind the discriminator of eight bytes. Which bytes it reads as
/// which instruction is not stated here.
#[verifier::external_body]
fn unpack_hook_instruction(data: &[u8]) -> (r: Result<
    HookInstruction,
    anchor_lang::prelude::ProgramError,
>)
    ensures
        r matches Ok(instruction) ==> hook_instruction(data@) == Some(instruction),
        r is Err ==> hook_instruction(data@) is None,
        r matches Ok(HookInstruction::Execute { amount }) ==> data@.len() >= 16 && amount
            == u64_at(data@, 8),
{
    match TransferHookInstruction::unpack(data) {
        Ok(TransferHookInstruction::Execute { amount }) => Ok(HookInstruction::Execute { amount }),
        Ok(TransferHookInstruction::InitializeExtraAccountMetaList { .. }) => Ok(
            HookInstruction::InitializeExtraAccountMetaList,
        ),
        Ok(TransferHookInstruction::UpdateExtraAccountMetaList { .. }) => Ok(
            HookInstruction::UpdateExtraAccountMetaList,
        ),
        Err(e) => Err(e),
    }
}

/// The amount of the transfer that the instruction asks about, or `None`
/// where the bytes are not those of such an instruction.
pub open spec fn asked_amount(data: Seq<u8>) -> Option<u64> {
    match hook_instruction(data) {
        Some(HookInstruction::Execute { amount }) => Some(amount),
        _ => None,
    }
}

/// Reads the instruction that reaches the hook outside its own instructions:
/// the amount of the transfer if the token program asks about a transfer, and
/// an error for anything else.
pub fn fallback(data: &[u8]) -> (r: Result<u64, PolicyError>)
    ensures
        r matches Ok(amount) ==> asked_amount(data@) == Some(amount) && data@.len() >= 16
            && amount == u64_at(data@, 8),
        r matches Err(e) ==> asked_amount(data@) is None && e
            == PolicyError::InvalidInstructionData,
{
    match unpack_hook_instruction(data) {
        Ok(HookInstruction::Execute { amount }) => Ok(amount),
        Ok(_) => Err(PolicyError::InvalidInstructionData),
        Err(_) => Err(PolicyError::InvalidInstructionData),
    }
}

/// The instructions of the program itself.
#[derive(Clone, Copy, Debug, PartialEq, Eq, Structural)]
pub enum InstructionKind {
    /// Names the administrator.
    Initialize,
    /// Sets up the list of extra accounts of a mint.
    InitializeExtraAccountMetaList,
    /// Creates the rate limiter of a mint.
    CreateMintRateLimit,
    /// Creates a numbered block list.
    CreateBlockList,
    /// Makes the list of extra accounts name a block list.
    AddBlockListToExtraAccountMetaList,
    /// Adds addresses to a block list.
    AddToBlockList,
    /// Takes addresses off a block list.
    RemoveFromBlockList,
    /// Moves tokens to the delegate unless a block list denies it.
    DelegateTransfer,
    /// Asks whether a transfer may pass.
    TransferHook,
}

/// Tag of `initialize`: the bytes 175, 175, 109, 31, 13, 152, 155, 237.
pub const INITIALIZE_TAG: u64 = 0xed9b_980d_1f6d_afaf;

/// Tag of `initialize_extra_account_meta_list`: the bytes
/// 92, 197, 174, 197, 41, 124, 19, 3.
pub const INITIALIZE_EXTRA_ACCOUNT_META_LIST_TAG: u64 = 0x0313_7c29_c5ae_c55c;

/// Tag of `create_mint_rate_limit`: the bytes
/// 110, 66, 222, 174, 233, 216, 202, 84.
pub const CREATE_MINT_RATE_LIMIT_TAG: u64 = 0x54ca_d8e9_aede_426e;

/// Tag of `create_block_listt`: the bytes
/// 253, 230, 232, 23, 242, 144, 99, 141.
pub const CREATE_BLOCK_LIST_TAG: u64 = 0x8d63_90f2_17e8_e6fd;

/// Tag of `add_block_list_to_extra_account_meta_list`: the bytes
/// 14, 64, 135, 37, 55, 36, 120, 255.
pub const ADD_BLOCK_LIST_TO_EXTRA_ACCOUNT_META_LIST_TAG: u64 = 0xff78_2437_2587_400e;

/// Tag of `add_to_block_list`: the bytes 68, 93, 79, 121, 23, 80, 112, 3.
pub const ADD_TO_BLOCK_LIST_TAG: u64 = 0x0370_5017_794f_5d44;

/// Tag of `remove_from_block_list`: the bytes
/// 222, 105, 228, 143, 176, 132, 123, 203.
pub const REMOVE_FROM_BLOCK_LIST_TAG: u64 = 0xcb7b_84b0_8fe4_69de;

/// Tag of `delegate_transfer`: the bytes 83, 60, 110, 237, 250, 225, 155, 6.
pub const DELEGATE_TRANSFER_TAG: u64 = 0x069b_e1fa_ed6e_3c53;

/// Tag of `transfer_hook`: the bytes 220, 57, 220, 152, 126, 125, 97, 168.
pub const TRANSFER_HOOK_TAG: u64 = 0xa861_7d7e_98dc_39dc;

/// The instruction that a tag names, if it names one.
pub open spec fn kind_of_tag(tag: u64) -> Option<InstructionKind> {
    if tag == INITIALIZE_TAG {
        Some(InstructionKind::Initialize)
    } else if tag == INITIALIZE_EXTRA_ACCOUNT_META_LIST_TAG {
        Some(InstructionKind::InitializeExtraAccountMetaList)
    } else if tag == CREATE_MINT_RATE_LIMIT_TAG {
        Some(InstructionKind::CreateMintRateLimit)
    } else if tag == CREATE_BLOCK_LIST_TAG {
        Some(InstructionKind::CreateBlockList)
    } else if tag == ADD_BLOCK_LIST_TO_EXTRA_ACCOUNT_META_LIST_TAG {
        Some(InstructionKind::AddBlockListToExtraAccountMetaList)
    } else if tag == ADD_TO_BLOCK_LIST_TAG {
        Some(InstructionKind::AddToBlockList)
    } else if tag == REMOVE_FROM_BLOCK_LIST_TAG {
        Some(InstructionKind::RemoveFromBlockList)
    } else if tag == DELEGATE_TRANSFER_TAG {
        Some(InstructionKind::DelegateTransfer)
    } else if tag == TRANSFER_HOOK_TAG {
        Some(InstructionKind::TransferHook)
    } else {
        None
    }
}

/// The instruction that the first eight bytes of the data name, if they name
/// one.
pub open spec fn instruction_kind_of(data: Seq<u8>) -> Option<InstructionKind> {
    match tag_of(data) {
        Some(tag) => kind_of_tag(tag),
        None => None,
    }
}

/// Reads which instruction of the program the data asks for.
pub fn instruction_kind(data: &[u8]) -> (kind: Option<InstructionKind>)
    ensures
        kind == instruction_kind_of(data@),
{
    let tag: u64 = match read_tag(data) {
        Some(tag) => tag,
        None => {
            return None;
        },
    };
    if tag == INITIALIZE_TAG {
        Some(InstructionKind::Initialize)
    } else if tag == INITIALIZE_EXTRA_ACCOUNT_META_LIST_TAG {
        Some(InstructionKind::InitializeExtraAccountMetaList)
    } else if tag == CREATE_MINT_RATE_LIMIT_TAG {
        Some(InstructionKind::CreateMintRateLimit)
    } else if tag == CREATE_BLOCK_LIST_TAG {
        Some(InstructionKind::CreateBlockList)
    } else if tag == ADD_BLOCK_LIST_TO_EXTRA_ACCOUNT_META_LIST_TAG {
        Some(InstructionKind::AddBlockListToExtraAccountMetaList)
    } else if tag == ADD_TO_BLOCK_LIST_TAG {
        Some(InstructionKind::AddToBlockList)
    } else if tag == REMOVE_FROM_BLOCK_LIST_TAG {
        Some(InstructionKind::RemoveFromBlockList)
    } else if tag == DELEGATE_TRANSFER_TAG {
        Some(InstructionKind::DelegateTransfer)
    } else if tag == TRANSFER_HOOK_TAG {
        Some(InstructionKind::TransferHook)
    } else {
        None
    }
}

/// The number that is the argument `index` of an instruction, counted from
/// zero, where every argument before it is a number too: the eight bytes at
/// `8 + 8 * index`, if the data has them.
pub open spec fn number_argument_of(data: Seq<u8>, index: int) -> Option<u64> {
    if 0 <= index && data.len() >= 16 + 8 * index {
        Some(u64_at(data, 8 + 8 * index))
    } else {
        None
    }
}

/// Reads the number that is the argument `index` of an instruction.
pub fn number_argument(data: &[u8], index: usize) -> (r: Option<u64>)
    ensures
        r == number_argument_of(data@, index as int),
{
    let len: usize = data.len();
    if len < 16 || (len - 16) / 8 < index {
        return None;
    }
    Some(read_u64(data, 8 + 8 * index))
}

/// The addresses that are the one argument of an instruction: their number
/// in the four bytes behind the tag, and then the addresses, if the data has
/// them all.
pub open spec fn addresses_argument_of(data: Seq<u8>) -> Option<Seq<Address>> {
    if data.len() >= 12 && data.len() >= 12 + 32 * u32_at(data, 8) {
        Some(Seq::new(u32_at(data, 8) as nat, |k: int| address_at(data, 12 + 32 * k)))
    } else {
        None
    }
}

/// Reads the addresses that are the one argument of an instruction.
pub fn addresses_argument(data: &[u8]) -> (r: Option<Vec<Address>>)
    ensures
        r matches Some(addresses) ==> addresses_argument_of(data@) == Some(addresses@),
        r is None ==> addresses_argument_of(data@) is None,
{
    let len: usize = data.len();
    if len < 12 {
        return None;
    }
    let count: u32 = read_u32(data, 8);
    if ((len - 12) as u64) / 32 < count as u64 {
        return None;
    }
    let mut addresses: Vec<Address> = Vec::new();
    let mut i: usize = 0;
    while i < count as usize
        invariant
            i <= count,
            len == data@.len(),
            12 + 32 * count <= len,
            addresses@ == Seq::new(i as nat, |k: int| address_at(data@, 12 + 32 * k)),
        decreases count - i,
    {
        addresses.push(read_address(data, 12 + 32 * i));
        assert(addresses@ =~= Seq::new((i + 1) as nat, |k: int| address_at(data@, 12 + 32 * k)));
        i = i + 1;
    }
    Some(addresses)
}

} // verus!
