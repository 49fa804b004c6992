//! Addresses that a program derives from seeds.

use vstd::prelude::*;
use crate::address::{address_of, lemma_address_of, Address};
use crate::wire::{contents, write_address};

verus! {

/// What `Pubkey::try_find_program_address` returns for the seeds and the
/// program: the bytes of the derived address and the bump seed that led to
/// it, or `None` where it finds no address.
pub uninterp spec fn program_derived_address(seeds: Seq<Seq<u8>>, program_id: Seq<u8>) -> Option<
    (Seq<u8>, u8),
>;

/// Calls `Pubkey::try_find_program_address` with the seeds and the program.
///
/// Not proved, but taken from that function: what it returns depends on the
/// seeds and the program alone. It hashes them with one bump seed after the
/// other, from 255 down, until the hash is no point of the curve; none of
/// that is stated here.
#[verifier::external_body]
fn try_find_program_address(seeds: &Vec<Vec<u8>>, program_id: &Address) -> (r: Option<(Address, u8)>)
    ensures
        r matches Some(found) ==> program_derived_address(contents(seeds@), program_id@) == Some(
            (found.0@, found.1),
        ),
        r is None ==> program_derived_address(contents(seeds@), program_id@) is None,
{
    let slices: Vec<&[u8]> = seeds.iter().map(|seed| seed.as_slice()).collect();
    let program = anchor_lang::prelude::Pubkey::new_from_array(program_id.to_bytes());
    anchor_lang::prelude::Pubkey::try_find_program_address(&slices, &program).map(
        |(key, bump)| (Address::new(key.to_bytes()), bump),
    )
}

/// The address that the program derives from the seeds, with its bump seed,
/// or `None` where there is none.
pub open spec fn derived(seeds: Seq<Seq<u8>>, program_id: Address) -> Option<(Address, u8)> {
    match program_derived_address(seeds, program_id@) {
        Some((address, bump)) => Some((address_of(address), bump)),
        None => None,
    }
}

/// Derives the address of the program `program_id` for the seeds.
pub fn derive_address(seeds: &Vec<Vec<u8>>, program_id: &Address) -> (r: Option<(Address, u8)>)
    ensures
        r == derived(contents(seeds@), *program_id),
{
    match try_find_program_address(seeds, program_id) {
        Some((address, bump)) => {
            proof {
                lemma_address_of(address, address@);
            }
            Some((address, bump))
        },
        None => None,
    }
}

/// The seed of the account that names the administrator: `management`.
pub open spec fn management_seed() -> Seq<u8> {
    seq![109u8, 97, 110, 97, 103, 101, 109, 101, 110, 116]
}

/// The seed of the rate limiter of a mint: `mint_based`.
pub open spec fn mint_based_seed() -> Seq<u8> {
    seq![109u8, 105, 110, 116, 95, 98, 97, 115, 101, 100]
}

/// The seed of the list of extra accounts of a mint:
/// `extra-account-metas`.
pub open spec fn extra_account_metas_seed() -> Seq<u8> {
    seq![
        101u8,
        120,
        116,
        114,
        97,
        45,
        97,
        99,
        99,
        111,
        117,
        110,
        116,
        45,
        109,
        101,
        116,
        97,
        115,
    ]
}

/// The seeds `kind` and, if there is one, the bytes of `mint`.
pub fn seeds_of(kind: Vec<u8>, mint: Option<&Address>) -> (seeds: Vec<Vec<u8>>)
    ensures
        contents(seeds@) == (match mint {
            Some(m) => seq![kind@, m@],
            None => seq![kind@],
        }),
{
    let mut seeds: Vec<Vec<u8>> = Vec::new();
    seeds.push(kind);
    match mint {
        Some(m) => {
            let mut bytes: Vec<u8> = Vec::new();
            write_address(&mut bytes, m);
            assert(bytes@ =~= m@);
            seeds.push(bytes);
            assert(contents(seeds@) =~= seq![kind@, m@]);
        },
        None => {
            assert(contents(seeds@) =~= seq![kind@]);
        },
    }
    seeds
}

/// The bytes of `management`.
pub fn management_seed_bytes() -> (seed: Vec<u8>)
    ensures
        seed@ == management_seed(),
{
    let seed = vec![109u8, 97, 110, 97, 103, 101, 109, 101, 110, 116];
    assert(seed@ =~= management_seed());
    seed
}

/// The bytes of `mint_based`.
pub fn mint_based_seed_bytes() -> (seed: Vec<u8>)
    ensures
        seed@ == mint_based_seed(),
{
    let seed = vec![109u8, 105, 110, 116, 95, 98, 97, 115, 101, 100];
    assert(seed@ =~= mint_based_seed());
    seed
}

/// The bytes of `extra-account-metas`.
pub fn extra_account_metas_seed_bytes() -> (seed: Vec<u8>)
    ensures
        seed@ == extra_account_metas_seed(),
{
    let seed = vec![
        101u8,
        120,
        116,
        114,
        97,
        45,
        97,
        99,
        99,
        111,
        117,
        110,
        116,
        45,
        109,
        101,
        116,
        97,
        115,
    ];
    assert(seed@ =~= extra_account_metas_seed());
    seed
}

} // verus!
