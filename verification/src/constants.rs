//! Fixed values of the policies.

use vstd::prelude::*;

verus! {

/// Seed of the program's own addresses.
pub const SEED: &'static str = "anchor";

/// Largest number of addresses that one block list holds: what fits into an
/// account that may grow to 10240 bytes.
pub const MAX_ADDRESSES_PER_LIST: u64 = 318;

} // verus!
