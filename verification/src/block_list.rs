//! A bounded set of denied addresses.

use vstd::prelude::*;
use crate::address::Address;
use crate::constants::MAX_ADDRESSES_PER_LIST;
use crate::error::ErrorCode;

verus! {

/// What a block list is known by: the address that administers it, or its
/// number among the lists of one program.
#[derive(Clone, Copy, Debug)]
pub enum ListOwner {
    /// The address allowed to change the list.
    Authority(Address),
    /// The number that the list was created under.
    Number(u64),
}

/// A list of addresses that may not take part in a transfer. The order of the
/// addresses means nothing: the list stands for a set.
#[derive(Debug)]
pub struct BlockList {
    /// Who the list belongs to.
    pub owner: ListOwner,
    /// The denied addresses.
    pub denied_addresses: Vec<Address>,
}

/// What a `BlockList` holds, as a mathematical value.
pub struct BlockListView {
    pub owner: ListOwner,
    pub denied_addresses: Seq<Address>,
}

impl View for BlockList {
    type V = BlockListView;

    open spec fn view(&self) -> BlockListView {
        BlockListView { owner: self.owner, denied_addresses: self.denied_addresses@ }
    }
}

impl BlockListView {
    /// The set of denied addresses.
    pub open spec fn denied(self) -> Set<Address> {
        self.denied_addresses.to_set()
    }
}

/// `list` holds `address`.
pub fn holds(list: &Vec<Address>, address: &Address) -> (r: bool)
    ensures
        r == list@.contains(*address),
{
    let mut i: usize = 0;
    while i < list.len()
        invariant
            i <= list@.len(),
            forall|j: int| 0 <= j < i ==> list@[j] != *address,
        decreases list@.len() - i,
    {
        if list[i] == *address {
            return true;
        }
        i = i + 1;
    }
    false
}

/// Appends `address` to `list` unless the list holds it already.
fn push_if_absent(list: &mut Vec<Address>, address: Address)
    ensures
        final(list)@ == (if old(list)@.contains(address) {
            old(list)@
        } else {
            old(list)@.push(address)
        }),
        final(list)@.to_set() == old(list)@.to_set().insert(address),
        old(list)@.no_duplicates() ==> final(list)@.no_duplicates(),
{
    if !holds(list, &address) {
        proof {
            old(list)@.lemma_push_to_set_commute(address);
            assert forall|i: int, j: int|
                0 <= i < old(list)@.push(address).len() && 0 <= j < old(list)@.push(address).len()
                    && i != j && old(list)@.no_duplicates() implies old(list)@.push(address)[i]
                != old(list)@.push(address)[j] by {
                if i < old(list)@.len() {
                    assert(old(list)@.contains(old(list)@[i]));
                }
                if j < old(list)@.len() {
                    assert(old(list)@.contains(old(list)@[j]));
                }
            }
        }
        list.push(address);
    } else {
        assert(old(list)@.to_set().insert(address) =~= old(list)@.to_set());
    }
}

/// The list with each of `added` appended that it does not hold yet, in the
/// order of `added`.
pub open spec fn with_each(list: Seq<Address>, added: Seq<Address>) -> Seq<Address>
    decreases added.len(),
{
    if added.len() == 0 {
        list
    } else {
        let front = with_each(list, added.drop_last());
        if front.contains(added.last()) {
            front
        } else {
            front.push(added.last())
        }
    }
}

/// What a list denies after `addresses` were added to a list that denied
/// `denied`: the union, if a list can hold it, and `denied` otherwise.
pub open spec fn denied_after_add(denied: Set<Address>, addresses: Seq<Address>) -> Set<Address> {
    if denied.union(addresses.to_set()).len() <= MAX_ADDRESSES_PER_LIST {
        denied.union(addresses.to_set())
    } else {
        denied
    }
}

/// What a list denies after `addresses` were taken off a list that denied
/// `denied`.
pub open spec fn denied_after_remove(denied: Set<Address>, addresses: Seq<Address>) -> Set<Address> {
    denied.difference(addresses.to_set())
}

/// Adding the same addresses a second time changes nothing.
pub proof fn lemma_add_idempotent(denied: Set<Address>, addresses: Seq<Address>)
    ensures
        denied_after_add(denied_after_add(denied, addresses), addresses) == denied_after_add(
            denied,
            addresses,
        ),
{
    let union = denied.union(addresses.to_set());
    assert(union.union(addresses.to_set()) =~= union);
}

/// Adding addresses and taking the same addresses off again leaves every
/// other address as it was: denied if it was denied, and not otherwise.
pub proof fn lemma_add_then_remove(denied: Set<Address>, addresses: Seq<Address>, other: Address)
    requires
        !addresses.contains(other),
    ensures
        denied_after_remove(denied_after_add(denied, addresses), addresses).contains(other)
            == denied.contains(other),
{
}

/// Taking off an address that is not denied changes nothing.
pub proof fn lemma_remove_absent(denied: Set<Address>, addresses: Seq<Address>)
    requires
        forall|a: Address| addresses.contains(a) ==> !denied.contains(a),
    ensures
        denied_after_remove(denied, addresses) == denied,
{
    assert(denied.difference(addresses.to_set()) =~= denied);
}

impl BlockList {
    /// The set of denied addresses.
    pub open spec fn denied(&self) -> Set<Address> {
        self.denied_addresses@.to_set()
    }

    /// No address is listed twice and the list is within its capacity.
    pub open spec fn wf(&self) -> bool {
        &&& self.denied_addresses@.no_duplicates()
        &&& self.denied_addresses@.len() <= MAX_ADDRESSES_PER_LIST
    }

    /// Number of bytes that the account of a list for `max_addresses`
    /// addresses takes: the tag of eight bytes, the owner's address, the
    /// count of four bytes and 32 bytes for each address.
    pub fn space(max_addresses: usize) -> (n: usize)
        requires
            8 + 32 + 4 + 32 * max_addresses <= usize::MAX,
        ensures
            n == 8 + 32 + 4 + 32 * max_addresses,
    {
        8 + 32 + 4 + (32 * max_addresses)
    }

    /// An empty list that belongs to `owner`.
    pub fn new(owner: ListOwner) -> (list: BlockList)
        ensures
            list.owner == owner,
            list.denied_addresses@ == Seq::<Address>::empty(),
            list.denied() == Set::<Address>::empty(),
            list.wf(),
    {
        let list = BlockList { owner, denied_addresses: Vec::new() };
        assert(list.denied() =~= Set::<Address>::empty());
        list
    }

    /// `authority` is on the list.
    pub fn transfer_denied(&self, authority: Address) -> (denied: bool)
        ensures
            denied == self.denied().contains(authority),
    {
        holds(&self.denied_addresses, &authority)
    }

    /// Adds `addresses` to the list: afterwards the list denies what it
    /// denied before and every one of `addresses`, each listed once. If that
    /// is more than a list can hold, nothing is added and the list stays as it
    /// was.
    pub fn add(&mut self, addresses: Vec<Address>) -> (r: Result<(), ErrorCode>)
        ensures
            r is Ok <==> old(self).denied().union(addresses@.to_set()).len()
                <= MAX_ADDRESSES_PER_LIST,
            r matches Err(e) ==> e == ErrorCode::BlockListFull && *final(self) == *old(self),
            final(self).denied() == denied_after_add(old(self).denied(), addresses@),
            r is Ok ==> {
                &&& final(self).owner == old(self).owner
                &&& final(self).denied_addresses@ == with_each(
                    with_each(Seq::empty(), old(self).denied_addresses@),
                    addresses@,
                )
                &&& final(self).denied() == old(self).denied().union(addresses@.to_set())
                &&& final(self).wf()
                &&& old(self).denied_addresses@.no_duplicates() ==> final(self).denied_addresses@.take(
                    old(self).denied_addresses@.len() as int,
                ) == old(self).denied_addresses@
            },
    {
        let ghost before = self.denied_addresses@;
        let mut merged: Vec<Address> = Vec::new();
        let mut i: usize = 0;
        assert(merged@.to_set() =~= before.take(0).to_set());
        while i < self.denied_addresses.len()
            invariant
                i <= before.len(),
                self.denied_addresses@ == before,
                merged@ == with_each(Seq::empty(), before.take(i as int)),
                merged@.no_duplicates(),
                merged@.to_set() == before.take(i as int).to_set(),
                before.no_duplicates() ==> merged@ == before.take(i as int),
            decreases before.len() - i,
        {
            proof {
                assert(before.take(i as int + 1) =~= before.take(i as int).push(before[i as int]));
                assert(before.take(i as int + 1).drop_last() =~= before.take(i as int));
                before.take(i as int).lemma_push_to_set_commute(before[i as int]);
                if before.no_duplicates() && before.take(i as int).contains(before[i as int]) {
                    let k = choose|k: int|
                        0 <= k < i && before.take(i as int)[k] == before[i as int];
                    assert(before[k] == before[i as int]);
                }
            }
            push_if_absent(&mut merged, self.denied_addresses[i]);
            i = i + 1;
        }
        assert(before.take(i as int) =~= before);
        let ghost kept = merged@;
        let mut j: usize = 0;
        assert(merged@.to_set() =~= before.to_set().union(addresses@.take(0).to_set()));
        while j < addresses.len()
            invariant
                j <= addresses@.len(),
                merged@ == with_each(kept, addresses@.take(j as int)),
                merged@.no_duplicates(),
                merged@.to_set() == before.to_set().union(addresses@.take(j as int).to_set()),
                kept.len() <= merged@.len(),
                merged@.take(kept.len() as int) == kept,
            decreases addresses@.len() - j,
        {
            proof {
                assert(addresses@.take(j as int + 1) =~= addresses@.take(j as int).push(
                    addresses@[j as int],
                ));
                assert(addresses@.take(j as int + 1).drop_last() =~= addresses@.take(j as int));
                addresses@.take(j as int).lemma_push_to_set_commute(addresses@[j as int]);
                assert(before.to_set().union(addresses@.take(j as int).to_set()).insert(
                    addresses@[j as int],
                ) =~= before.to_set().union(addresses@.take(j as int + 1).to_set()));
            }
            let ghost shorter = merged@;
            push_if_absent(&mut merged, addresses[j]);
            assert(merged@.take(kept.len() as int) =~= shorter.take(kept.len() as int));
            j = j + 1;
        }
        proof {
            assert(addresses@.take(j as int) =~= addresses@);
            merged@.unique_seq_to_set();
        }
        if merged.len() > MAX_ADDRESSES_PER_LIST as usize {
            return Err(ErrorCode::BlockListFull);
        }
        self.denied_addresses = merged;
        Ok(())
    }

    /// Takes `addresses` off the list: afterwards the list denies what it
    /// denied before and is not among `addresses`. The addresses that stay
    /// keep their order. An address that is not on the list is passed over.
    pub fn remove(&mut self, addresses: Vec<Address>)
        ensures
            final(self).owner == old(self).owner,
            final(self).denied_addresses@ == old(self).denied_addresses@.filter(
                |a: Address| !addresses@.contains(a),
            ),
            final(self).denied() == denied_after_remove(old(self).denied(), addresses@),
            old(self).wf() ==> final(self).wf(),
    {
        let ghost before = self.denied_addresses@;
        let ghost stays = |a: Address| !addresses@.contains(a);
        let mut kept: Vec<Address> = Vec::new();
        let mut i: usize = 0;
        assert(before.take(0).filter(stays) =~= Seq::<Address>::empty()) by {
            reveal(Seq::filter);
        }
        while i < self.denied_addresses.len()
            invariant
                i <= before.len(),
                self.denied_addresses@ == before,
                stays == |a: Address| !addresses@.contains(a),
                kept@ == before.take(i as int).filter(stays),
            decreases before.len() - i,
        {
            proof {
                assert(before.take(i as int + 1) =~= before.take(i as int).push(before[i as int]));
                before.take(i as int).lemma_filter_push(before[i as int], stays);
            }
            if !holds(&addresses, &self.denied_addresses[i]) {
                kept.push(self.denied_addresses[i]);
            }
            i = i + 1;
        }
        proof {
            assert(before.take(i as int) =~= before);
            lemma_filter_facts(before, stays);
            assert(kept@.to_set() =~= before.to_set().difference(addresses@.to_set())) by {
                assert forall|a: Address| kept@.to_set().contains(a) <==> before.to_set().difference(
                    addresses@.to_set(),
                ).contains(a) by {
                    if kept@.contains(a) {
                        before.lemma_filter_contains_rev(stays, a);
                    }
                    if before.contains(a) && stays(a) {
                        let k = choose|k: int| 0 <= k < before.len() && before[k] == a;
                        before.lemma_filter_contains(stays, k);
                    }
                }
            }
        }
        self.denied_addresses = kept;
    }
}

/// What is left of a list after filtering is no longer than the list and
/// repeats nothing that the list did not repeat.
pub proof fn lemma_filter_facts(list: Seq<Address>, keep: spec_fn(Address) -> bool)
    ensures
        list.filter(keep).len() <= list.len(),
        list.no_duplicates() ==> list.filter(keep).no_duplicates(),
    decreases list.len(),
{
    reveal(Seq::filter);
    if list.len() > 0 {
        let front = list.drop_last();
        lemma_filter_facts(front, keep);
        if list.no_duplicates() {
            assert forall|i: int, j: int|
                0 <= i < front.len() && 0 <= j < front.len() && i != j implies front[i]
                != front[j] by {
                assert(front[i] == list[i] && front[j] == list[j]);
            }
            if keep(list.last()) {
                let shorter = front.filter(keep);
                assert forall|i: int| 0 <= i < shorter.len() implies shorter[i] != list.last() by {
                    assert(shorter.contains(shorter[i]));
                    front.lemma_filter_contains_rev(keep, shorter[i]);
                    let k = choose|k: int| 0 <= k < front.len() && front[k] == shorter[i];
                    assert(list[k] == front[k]);
                }
            }
        }
    }
}

} // verus!
