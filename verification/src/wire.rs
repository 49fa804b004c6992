//! How the accounts of the policies are laid out in bytes.
//!
//! Every account starts with a tag of eight bytes that tells its kind.
//! Numbers are written with their lowest byte first, a signed number as the
//! unsigned number with the same bits, an address as its 32 bytes, and a list
//! as its length in four bytes followed by its items. Bytes that follow the
//! last field are not read.

use vstd::prelude::*;
use vstd::bytes::{
    spec_u32_from_le_bytes, spec_u32_to_le_bytes, spec_u64_from_le_bytes, spec_u64_to_le_bytes,
    u32_from_le_bytes, u32_to_le_bytes, u64_from_le_bytes, u64_to_le_bytes,
};
use vstd::slice::slice_subrange;
use crate::address::{address_of, Address};

verus! {

/// Tag of the account of a rate limiter per authority: the bytes
/// 155, 36, 149, 133, 58, 70, 81, 19, read as a number.
pub const AUTHORITY_RATE_LIMIT_TAG: u64 = 0x1351_463a_8595_249b;

/// Tag of the account of a rate limiter per mint: the bytes
/// 65, 234, 135, 224, 236, 52, 129, 142, read as a number.
pub const MINT_RATE_LIMIT_TAG: u64 = 0x8e81_34ec_e087_ea41;

/// Tag of the account of a block list: the bytes
/// 22, 89, 214, 247, 1, 150, 200, 178, read as a number.
pub const BLOCK_LIST_TAG: u64 = 0xb2c8_9601_f7d6_5916;

/// Tag of the account that names the administrator: the bytes
/// 254, 29, 31, 22, 138, 69, 233, 43, read as a number.
pub const MANAGEMENT_TAG: u64 = 0x2be9_458a_161f_1dfe;

/// The bytes of each of the buffers.
pub open spec fn contents(buffers: Seq<Vec<u8>>) -> Seq<Seq<u8>> {
    buffers.map_values(|buffer: Vec<u8>| buffer@)
}

/// The number that the eight bytes from `at` on stand for.
pub open spec fn u64_at(data: Seq<u8>, at: int) -> u64 {
    spec_u64_from_le_bytes(data.subrange(at, at + 8))
}

/// The signed number that the eight bytes from `at` on stand for.
pub open spec fn i64_at(data: Seq<u8>, at: int) -> i64 {
    u64_at(data, at) as i64
}

/// The number that the four bytes from `at` on stand for.
pub open spec fn u32_at(data: Seq<u8>, at: int) -> u32 {
    spec_u32_from_le_bytes(data.subrange(at, at + 4))
}

/// The address that the 32 bytes from `at` on stand for.
pub open spec fn address_at(data: Seq<u8>, at: int) -> Address {
    address_of(data.subrange(at, at + 32))
}

/// The eight bytes of a signed number.
pub open spec fn i64_bytes(x: i64) -> Seq<u8> {
    spec_u64_to_le_bytes(x as u64)
}

/// The tag of the account, if the account is long enough to have one.
pub open spec fn tag_of(data: Seq<u8>) -> Option<u64> {
    if data.len() >= 8 {
        Some(u64_at(data, 0))
    } else {
        None
    }
}

/// Reads the number at `at`.
pub fn read_u64(data: &[u8], at: usize) -> (x: u64)
    requires
        at + 8 <= data@.len(),
    ensures
        x == u64_at(data@, at as int),
{
    let len = data.len();
    assert(at + 8 <= len);
    u64_from_le_bytes(slice_subrange(data, at, at + 8))
}

/// Reads the signed number at `at`.
pub fn read_i64(data: &[u8], at: usize) -> (x: i64)
    requires
        at + 8 <= data@.len(),
    ensures
        x == i64_at(data@, at as int),
{
    let bits: u64 = read_u64(data, at);
    #[verifier::truncate]
    (bits as i64)
}

/// Reads the number of four bytes at `at`.
pub fn read_u32(data: &[u8], at: usize) -> (x: u32)
    requires
        at + 4 <= data@.len(),
    ensures
        x == u32_at(data@, at as int),
{
    let len = data.len();
    assert(at + 4 <= len);
    u32_from_le_bytes(slice_subrange(data, at, at + 4))
}

/// Reads the address at `at`.
pub fn read_address(data: &[u8], at: usize) -> (a: Address)
    requires
        at + 32 <= data@.len(),
    ensures
        a == address_at(data@, at as int),
        a@ == data@.subrange(at as int, at + 32),
{
    let len = data.len();
    let mut bytes: [u8; 32] = [0u8; 32];
    let mut i: usize = 0;
    while i < 32
        invariant
            i <= 32,
            at + 32 <= len,
            len == data@.len(),
            forall|j: int| 0 <= j < i ==> bytes@[j] == data@[at + j],
        decreases 32 - i,
    {
        bytes[i] = data[at + i];
        i = i + 1;
    }
    let a = Address { bytes };
    proof {
        assert(a@ =~= data@.subrange(at as int, at + 32));
        assert(address_at(data@, at as int)@ =~= data@.subrange(at as int, at + 32));
        Address::lemma_view_injective(a, address_at(data@, at as int));
    }
    a
}

/// Reads the tag of an account.
pub fn read_tag(data: &[u8]) -> (tag: Option<u64>)
    ensures
        tag == tag_of(data@),
{
    if data.len() >= 8 {
        Some(read_u64(data, 0))
    } else {
        None
    }
}

/// Appends the eight bytes of `x`.
pub fn write_u64(out: &mut Vec<u8>, x: u64)
    ensures
        final(out)@ == old(out)@ + spec_u64_to_le_bytes(x),
{
    let mut bytes = u64_to_le_bytes(x);
    out.append(&mut bytes);
}

/// Appends the eight bytes of the signed number `x`.
pub fn write_i64(out: &mut Vec<u8>, x: i64)
    ensures
        final(out)@ == old(out)@ + i64_bytes(x),
{
    let bits: u64 = #[verifier::truncate]
    (x as u64);
    write_u64(out, bits);
}

/// Appends the four bytes of `x`.
pub fn write_u32(out: &mut Vec<u8>, x: u32)
    ensures
        final(out)@ == old(out)@ + spec_u32_to_le_bytes(x),
{
    let mut bytes = u32_to_le_bytes(x);
    out.append(&mut bytes);
}

/// Appends the 32 bytes of `a`.
pub fn write_address(out: &mut Vec<u8>, a: &Address)
    ensures
        final(out)@ == old(out)@ + a@,
{
    let mut i: usize = 0;
    while i < 32
        invariant
            i <= 32,
            out@ == old(out)@ + a@.take(i as int),
        decreases 32 - i,
    {
        out.push(a.bytes[i]);
        assert(a@.take(i as int + 1) =~= a@.take(i as int).push(a@[i as int]));
        assert(old(out)@ + a@.take(i as int + 1) =~= (old(out)@ + a@.take(i as int)).push(
            a@[i as int],
        ));
        i = i + 1;
    }
    assert(a@.take(32) =~= a@);
}

} // verus!
