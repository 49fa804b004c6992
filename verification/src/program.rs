//! The addresses that the programs are deployed at.

use vstd::prelude::*;
use crate::address::Address;

verus! {

/// The address of the program that keeps the rate limiters.
pub open spec fn spec_rate_limits_id() -> Address {
    Address {
        bytes: [
            226,
            160,
            245,
            222,
            225,
            42,
            216,
            114,
            154,
            215,
            249,
            92,
            63,
            76,
            195,
            50,
            44,
            87,
            146,
            222,
            34,
            78,
            71,
            235,
            19,
            3,
            48,
            165,
            232,
            223,
            19,
            97,
        ],
    }
}

/// The address of the program that keeps the block lists.
pub open spec fn spec_sanctioned_transfer_hook_id() -> Address {
    Address {
        bytes: [
            178,
            220,
            187,
            24,
            170,
            62,
            233,
            139,
            212,
            194,
            207,
            87,
            32,
            119,
            18,
            62,
            7,
            229,
            147,
            125,
            224,
            181,
            11,
            79,
            74,
            161,
            219,
            106,
            21,
            176,
            82,
            212,
        ],
    }
}

/// The address of the program that keeps the rate limiters,
/// `GFfVeXyUvceCu1H1PPTBUvwYJeDQjXusgzjrAjHf2kHn` when written in base 58.
pub fn rate_limits_id() -> (id: Address)
    ensures
        id == spec_rate_limits_id(),
{
    Address {
        bytes: [
            226,
            160,
            245,
            222,
            225,
            42,
            216,
            114,
            154,
            215,
            249,
            92,
            63,
            76,
            195,
            50,
            44,
            87,
            146,
            222,
            34,
            78,
            71,
            235,
            19,
            3,
            48,
            165,
            232,
            223,
            19,
            97,
        ],
    }
}

/// The address of the program that keeps the block lists,
/// `D3Cna2aGhRxzfeoiCaQMU2LZPxPuWXpsJAFqiMdkhXCo` when written in base 58.
pub fn sanctioned_transfer_hook_id() -> (id: Address)
    ensures
        id == spec_sanctioned_transfer_hook_id(),
{
    Address {
        bytes: [
            178,
            220,
            187,
            24,
            170,
            62,
            233,
            139,
            212,
            194,
            207,
            87,
            32,
            119,
            18,
            62,
            7,
            229,
            147,
            125,
            224,
            181,
            11,
            79,
            74,
            161,
            219,
            106,
            21,
            176,
            82,
            212,
        ],
    }
}

} // verus!
