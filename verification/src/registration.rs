//! The sums behind the growth of the account that lists the policy accounts
//! of a mint.

use vstd::prelude::*;

verus! {

/// The size of an account of `account_size` bytes that is to hold
/// `data_to_add` bytes more, or `None` where no account is that large.
pub fn grown_size(account_size: usize, data_to_add: usize) -> (r: Option<usize>)
    ensures
        r == (if account_size + data_to_add <= usize::MAX {
            Some((account_size + data_to_add) as usize)
        } else {
            None
        }),
{
    account_size.checked_add(data_to_add)
}

/// What an account with `current_balance` lacks of `minimum_balance`, the
/// balance that exempts it from rent, or `None` where it lacks nothing.
pub fn lamports_to_add(minimum_balance: u64, current_balance: u64) -> (r: Option<u64>)
    ensures
        r == (if minimum_balance > current_balance {
            Some((minimum_balance - current_balance) as u64)
        } else {
            None
        }),
{
    if minimum_balance > current_balance {
        Some(minimum_balance - current_balance)
    } else {
        None
    }
}

} // verus!
