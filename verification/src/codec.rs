//! Reading the accounts of the policies from bytes and writing them back.
//!
//! A rate limiter per mint takes 72 bytes: the tag, the limit, the start of
//! the period, the length of the period, the mint and the counter. A rate
//! limiter per authority has the same fields up to the mint, then the number
//! of its entries and the entries, each an address and a counter. A block
//! list has the tag, its owner, the number of its addresses and the
//! addresses.
//!
//! A limiter whose period has no length is not read: no limiter is made so.

use vstd::prelude::*;
use vstd::bytes::{
    lemma_auto_spec_u32_to_from_le_bytes, lemma_auto_spec_u64_to_from_le_bytes,
    spec_u32_to_le_bytes, spec_u64_to_le_bytes,
};
use crate::address::{lemma_address_of, Address};
use crate::authority_rate_limit::{AuthorityRateLimit, AuthorityRateLimitView};
use crate::block_list::{BlockList, BlockListView, ListOwner};
use crate::error::PolicyError;
use crate::limiters::LimiterEntry;
use crate::mint_rate_limit::MintRateLimit;
use crate::wire::{
    address_at, i64_at, i64_bytes, read_address, read_i64, read_u32, read_u64, u32_at, u64_at,
    write_address, write_i64, write_u32, write_u64, AUTHORITY_RATE_LIMIT_TAG, BLOCK_LIST_TAG,
    MANAGEMENT_TAG, MINT_RATE_LIMIT_TAG,
};

verus! {

/// Number of bytes of the account of a rate limiter per mint.
pub const MINT_RATE_LIMIT_BYTES: usize = 72;

/// Number of bytes of a rate limiter per authority before its entries.
pub const AUTHORITY_RATE_LIMIT_HEAD_BYTES: usize = 68;

/// Number of bytes of one entry of a rate limiter per authority.
pub const LIMITER_ENTRY_BYTES: usize = 40;

/// The kind of owner that the block lists of one program have. The bytes of a
/// block list do not tell it: a program keeps to one kind.
#[derive(Clone, Copy, Debug, PartialEq, Eq, Structural)]
pub enum OwnerKind {
    /// A list is owned by the address that administers it.
    Authority,
    /// A list is known by its number.
    Number,
}

impl OwnerKind {
    /// Number of bytes that the owner of a list takes.
    pub open spec fn width(self) -> int {
        match self {
            OwnerKind::Authority => 32,
            OwnerKind::Number => 8,
        }
    }
}

impl ListOwner {
    /// The kind of the owner.
    pub open spec fn kind(self) -> OwnerKind {
        match self {
            ListOwner::Authority(_) => OwnerKind::Authority,
            ListOwner::Number(_) => OwnerKind::Number,
        }
    }

    /// The bytes of the owner.
    pub open spec fn bytes(self) -> Seq<u8> {
        match self {
            ListOwner::Authority(a) => a@,
            ListOwner::Number(n) => spec_u64_to_le_bytes(n),
        }
    }
}

/// The owner of the kind `kind` that the bytes from `at` on stand for.
pub open spec fn owner_at(data: Seq<u8>, at: int, kind: OwnerKind) -> ListOwner {
    match kind {
        OwnerKind::Authority => ListOwner::Authority(address_at(data, at)),
        OwnerKind::Number => ListOwner::Number(u64_at(data, at)),
    }
}

/// The entry that the 40 bytes from `at` on stand for.
pub open spec fn entry_at(data: Seq<u8>, at: int) -> LimiterEntry {
    LimiterEntry { authority: address_at(data, at), value_transferred: u64_at(data, at + 32) }
}

/// The bytes of an entry.
pub open spec fn entry_bytes(entry: LimiterEntry) -> Seq<u8> {
    entry.authority@ + spec_u64_to_le_bytes(entry.value_transferred)
}

/// The bytes of the entries, one entry after the other.
pub open spec fn entries_bytes(entries: Seq<LimiterEntry>) -> Seq<u8>
    decreases entries.len(),
{
    if entries.len() == 0 {
        Seq::empty()
    } else {
        entries_bytes(entries.drop_last()) + entry_bytes(entries.last())
    }
}

/// The bytes of the addresses, one address after the other.
pub open spec fn addresses_bytes(addresses: Seq<Address>) -> Seq<u8>
    decreases addresses.len(),
{
    if addresses.len() == 0 {
        Seq::empty()
    } else {
        addresses_bytes(addresses.drop_last()) + addresses.last()@
    }
}

impl MintRateLimit {
    /// The bytes of the account of the limiter.
    pub open spec fn spec_encode(self) -> Seq<u8> {
        spec_u64_to_le_bytes(MINT_RATE_LIMIT_TAG) + spec_u64_to_le_bytes(self.period_limit)
            + i64_bytes(self.current_period_start) + spec_u64_to_le_bytes(self.period_duration)
            + self.mint@ + spec_u64_to_le_bytes(self.value_transferred)
    }

    /// The limiter that the bytes of an account stand for, if they stand for
    /// one: there are at least 72 of them, they start with the tag of a rate
    /// limiter per mint, and the period has a length.
    pub open spec fn spec_decode(data: Seq<u8>) -> Option<MintRateLimit> {
        if data.len() >= 72 && u64_at(data, 0) == MINT_RATE_LIMIT_TAG && u64_at(data, 24) != 0 {
            Some(
                MintRateLimit {
                    period_limit: u64_at(data, 8),
                    current_period_start: i64_at(data, 16),
                    period_duration: u64_at(data, 24),
                    mint: address_at(data, 32),
                    value_transferred: u64_at(data, 64),
                },
            )
        } else {
            None
        }
    }

    /// Writes the limiter as the bytes of its account.
    pub fn encode(&self) -> (out: Vec<u8>)
        ensures
            out@ == self.spec_encode(),
    {
        let mut out: Vec<u8> = Vec::new();
        write_u64(&mut out, MINT_RATE_LIMIT_TAG);
        write_u64(&mut out, self.period_limit);
        write_i64(&mut out, self.current_period_start);
        write_u64(&mut out, self.period_duration);
        write_address(&mut out, &self.mint);
        write_u64(&mut out, self.value_transferred);
        assert(out@ =~= self.spec_encode());
        out
    }

    /// Reads a limiter from the bytes of an account.
    pub fn decode(data: &[u8]) -> (r: Result<MintRateLimit, PolicyError>)
        ensures
            r matches Ok(l) ==> MintRateLimit::spec_decode(data@) == Some(l),
            r matches Err(e) ==> MintRateLimit::spec_decode(data@) is None && e
                == PolicyError::InvalidPolicyAccount,
    {
        if data.len() < 72 {
            return Err(PolicyError::InvalidPolicyAccount);
        }
        if read_u64(data, 0) != MINT_RATE_LIMIT_TAG {
            return Err(PolicyError::InvalidPolicyAccount);
        }
        let period_duration: u64 = read_u64(data, 24);
        if period_duration == 0 {
            return Err(PolicyError::InvalidPolicyAccount);
        }
        Ok(
            MintRateLimit {
                period_limit: read_u64(data, 8),
                current_period_start: read_i64(data, 16),
                period_duration,
                mint: read_address(data, 32),
                value_transferred: read_u64(data, 64),
            },
        )
    }
}

impl AuthorityRateLimitView {
    /// The bytes of the account of the limiter.
    pub open spec fn spec_encode(self) -> Seq<u8> {
        spec_u64_to_le_bytes(AUTHORITY_RATE_LIMIT_TAG) + spec_u64_to_le_bytes(self.period_limit)
            + i64_bytes(self.current_period_start) + spec_u64_to_le_bytes(self.period_duration)
            + self.mint@ + spec_u32_to_le_bytes(self.entries.len() as u32) + entries_bytes(
            self.entries,
        )
    }

    /// The limiter that the bytes of an account stand for, if they stand for
    /// one: they start with the tag of a rate limiter per authority, the
    /// period has a length, and all the entries that the account counts are
    /// there.
    pub open spec fn spec_decode(data: Seq<u8>) -> Option<AuthorityRateLimitView> {
        if data.len() >= 68 && u64_at(data, 0) == AUTHORITY_RATE_LIMIT_TAG && u64_at(data, 24) != 0
            && data.len() >= 68 + 40 * u32_at(data, 64) {
            Some(
                AuthorityRateLimitView {
                    period_limit: u64_at(data, 8),
                    current_period_start: i64_at(data, 16),
                    period_duration: u64_at(data, 24),
                    mint: address_at(data, 32),
                    entries: Seq::new(
                        u32_at(data, 64) as nat,
                        |k: int| entry_at(data, 68 + 40 * k),
                    ),
                },
            )
        } else {
            None
        }
    }
}

impl AuthorityRateLimit {
    /// Writes the limiter as the bytes of its account. A limiter with more
    /// entries than four bytes can count cannot be written.
    pub fn encode(&self) -> (r: Option<Vec<u8>>)
        ensures
            r is Some <==> self.entries@.len() <= u32::MAX,
            r matches Some(out) ==> out@ == self@.spec_encode(),
    {
        let count: usize = self.entries.len();
        if count > u32::MAX as usize {
            return None;
        }
        let mut out: Vec<u8> = Vec::new();
        write_u64(&mut out, AUTHORITY_RATE_LIMIT_TAG);
        write_u64(&mut out, self.period_limit);
        write_i64(&mut out, self.current_period_start);
        write_u64(&mut out, self.period_duration);
        write_address(&mut out, &self.mint);
        write_u32(&mut out, count as u32);
        let ghost head = out@;
        let mut i: usize = 0;
        assert(self.entries@.take(0) =~= Seq::<LimiterEntry>::empty());
        while i < count
            invariant
                i <= count,
                count == self.entries@.len(),
                out@ == head + entries_bytes(self.entries@.take(i as int)),
            decreases count - i,
        {
            let ghost before = out@;
            write_address(&mut out, &self.entries[i].authority);
            write_u64(&mut out, self.entries[i].value_transferred);
            proof {
                let longer = self.entries@.take(i as int + 1);
                assert(longer.drop_last() =~= self.entries@.take(i as int));
                assert(longer.last() == self.entries@[i as int]);
                assert(out@ =~= head + entries_bytes(longer));
            }
            i = i + 1;
        }
        proof {
            assert(self.entries@.take(count as int) =~= self.entries@);
            assert(out@ =~= self@.spec_encode());
        }
        Some(out)
    }

    /// Reads a limiter from the bytes of an account.
    pub fn decode(data: &[u8]) -> (r: Result<AuthorityRateLimit, PolicyError>)
        ensures
            r matches Ok(l) ==> AuthorityRateLimitView::spec_decode(data@) == Some(l@),
            r matches Err(e) ==> AuthorityRateLimitView::spec_decode(data@) is None && e
                == PolicyError::InvalidPolicyAccount,
    {
        let len: usize = data.len();
        if len < 68 {
            return Err(PolicyError::InvalidPolicyAccount);
        }
        if read_u64(data, 0) != AUTHORITY_RATE_LIMIT_TAG {
            return Err(PolicyError::InvalidPolicyAccount);
        }
        let period_duration: u64 = read_u64(data, 24);
        if period_duration == 0 {
            return Err(PolicyError::InvalidPolicyAccount);
        }
        let count: u32 = read_u32(data, 64);
        if ((len - 68) as u64) / 40 < count as u64 {
            return Err(PolicyError::InvalidPolicyAccount);
        }
        let mut entries: Vec<LimiterEntry> = Vec::new();
        let mut i: usize = 0;
        while i < count as usize
            invariant
                i <= count,
                len == data@.len(),
                68 + 40 * count <= len,
                entries@ == Seq::new(i as nat, |k: int| entry_at(data@, 68 + 40 * k)),
            decreases count - i,
        {
            let at: usize = 68 + 40 * i;
            let entry = LimiterEntry {
                authority: read_address(data, at),
                value_transferred: read_u64(data, at + 32),
            };
            entries.push(entry);
            assert(entries@ =~= Seq::new((i + 1) as nat, |k: int| entry_at(data@, 68 + 40 * k)));
            i = i + 1;
        }
        Ok(
            AuthorityRateLimit {
                period_limit: read_u64(data, 8),
                current_period_start: read_i64(data, 16),
                period_duration,
                mint: read_address(data, 32),
                entries,
            },
        )
    }
}

impl BlockListView {
    /// The bytes of the account of the list.
    pub open spec fn spec_encode(self) -> Seq<u8> {
        spec_u64_to_le_bytes(BLOCK_LIST_TAG) + self.owner.bytes() + spec_u32_to_le_bytes(
            self.denied_addresses.len() as u32,
        ) + addresses_bytes(self.denied_addresses)
    }

    /// The list that the bytes of an account stand for, if they stand for
    /// one with an owner of the kind `kind`: they start with the tag of a
    /// block list, and all the addresses that the account counts are there.
    pub open spec fn spec_decode(data: Seq<u8>, kind: OwnerKind) -> Option<BlockListView> {
        let head = 8 + kind.width() + 4;
        if data.len() >= head && u64_at(data, 0) == BLOCK_LIST_TAG && data.len() >= head + 32
            * u32_at(data, 8 + kind.width()) {
            Some(
                BlockListView {
                    owner: owner_at(data, 8, kind),
                    denied_addresses: Seq::new(
                        u32_at(data, 8 + kind.width()) as nat,
                        |k: int| address_at(data, head + 32 * k),
                    ),
                },
            )
        } else {
            None
        }
    }
}

impl BlockList {
    /// Writes the list as the bytes of its account. A list with more
    /// addresses than four bytes can count cannot be written.
    pub fn encode(&self) -> (r: Option<Vec<u8>>)
        ensures
            r is Some <==> self.denied_addresses@.len() <= u32::MAX,
            r matches Some(out) ==> out@ == self@.spec_encode(),
    {
        let count: usize = self.denied_addresses.len();
        if count > u32::MAX as usize {
            return None;
        }
        let mut out: Vec<u8> = Vec::new();
        write_u64(&mut out, BLOCK_LIST_TAG);
        match self.owner {
            ListOwner::Authority(a) => {
                write_address(&mut out, &a);
            },
            ListOwner::Number(n) => {
                write_u64(&mut out, n);
            },
        }
        write_u32(&mut out, count as u32);
        let ghost head = out@;
        let mut i: usize = 0;
        assert(self.denied_addresses@.take(0) =~= Seq::<Address>::empty());
        while i < count
            invariant
                i <= count,
                count == self.denied_addresses@.len(),
                out@ == head + addresses_bytes(self.denied_addresses@.take(i as int)),
            decreases count - i,
        {
            write_address(&mut out, &self.denied_addresses[i]);
            proof {
                let longer = self.denied_addresses@.take(i as int + 1);
                assert(longer.drop_last() =~= self.denied_addresses@.take(i as int));
                assert(longer.last() == self.denied_addresses@[i as int]);
                assert(out@ =~= head + addresses_bytes(longer));
            }
            i = i + 1;
        }
        proof {
            assert(self.denied_addresses@.take(count as int) =~= self.denied_addresses@);
            assert(out@ =~= self@.spec_encode());
        }
        Some(out)
    }

    /// Reads a list whose owner is of the kind `kind` from the bytes of an
    /// account.
    pub fn decode(data: &[u8], kind: OwnerKind) -> (r: Result<BlockList, PolicyError>)
        ensures
            r matches Ok(l) ==> BlockListView::spec_decode(data@, kind) == Some(l@),
            r matches Err(e) ==> BlockListView::spec_decode(data@, kind) is None && e
                == PolicyError::InvalidPolicyAccount,
    {
        let len: usize = data.len();
        let width: usize = match kind {
            OwnerKind::Authority => 32,
            OwnerKind::Number => 8,
        };
        let head: usize = 8 + width + 4;
        if len < head {
            return Err(PolicyError::InvalidPolicyAccount);
        }
        if read_u64(data, 0) != BLOCK_LIST_TAG {
            return Err(PolicyError::InvalidPolicyAccount);
        }
        let count: u32 = read_u32(data, 8 + width);
        if ((len - head) as u64) / 32 < count as u64 {
            return Err(PolicyError::InvalidPolicyAccount);
        }
        let owner = match kind {
            OwnerKind::Authority => ListOwner::Authority(read_address(data, 8)),
            OwnerKind::Number => ListOwner::Number(read_u64(data, 8)),
        };
        let mut denied_addresses: Vec<Address> = Vec::new();
        let mut i: usize = 0;
        while i < count as usize
            invariant
                i <= count,
                len == data@.len(),
                head == 8 + kind.width() + 4,
                head + 32 * count <= len,
                denied_addresses@ == Seq::new(i as nat, |k: int| address_at(data@, head + 32 * k)),
            decreases count - i,
        {
            let at: usize = head + 32 * i;
            denied_addresses.push(read_address(data, at));
            assert(denied_addresses@ =~= Seq::new(
                (i + 1) as nat,
                |k: int| address_at(data@, head + 32 * k),
            ));
            i = i + 1;
        }
        Ok(BlockList { owner, denied_addresses })
    }
}

/// A number that was written is the number that is read.
pub proof fn lemma_u64_at(prefix: Seq<u8>, x: u64, suffix: Seq<u8>)
    ensures
        spec_u64_to_le_bytes(x).len() == 8,
        u64_at(prefix + spec_u64_to_le_bytes(x) + suffix, prefix.len() as int) == x,
{
    lemma_auto_spec_u64_to_from_le_bytes();
    let data = prefix + spec_u64_to_le_bytes(x) + suffix;
    assert(data.subrange(prefix.len() as int, prefix.len() as int + 8) =~= spec_u64_to_le_bytes(x));
}

/// A signed number that was written is the number that is read.
pub proof fn lemma_i64_at(prefix: Seq<u8>, x: i64, suffix: Seq<u8>)
    ensures
        i64_bytes(x).len() == 8,
        i64_at(prefix + i64_bytes(x) + suffix, prefix.len() as int) == x,
{
    lemma_u64_at(prefix, x as u64, suffix);
    assert((x as u64) as i64 == x) by (bit_vector);
}

/// A number of four bytes that was written is the number that is read.
pub proof fn lemma_u32_at(prefix: Seq<u8>, x: u32, suffix: Seq<u8>)
    ensures
        spec_u32_to_le_bytes(x).len() == 4,
        u32_at(prefix + spec_u32_to_le_bytes(x) + suffix, prefix.len() as int) == x,
{
    lemma_auto_spec_u32_to_from_le_bytes();
    let data = prefix + spec_u32_to_le_bytes(x) + suffix;
    assert(data.subrange(prefix.len() as int, prefix.len() as int + 4) =~= spec_u32_to_le_bytes(x));
}

/// An address that was written is the address that is read.
pub proof fn lemma_address_at(prefix: Seq<u8>, a: Address, suffix: Seq<u8>)
    ensures
        a@.len() == 32,
        address_at(prefix + a@ + suffix, prefix.len() as int) == a,
{
    lemma_address_of(a, a@);
    let data = prefix + a@ + suffix;
    assert(data.subrange(prefix.len() as int, prefix.len() as int + 32) =~= a@);
}

/// Each entry takes 40 bytes, and the bytes of the entry `k` are the `k`-th
/// 40 bytes.
pub proof fn lemma_entries_bytes(entries: Seq<LimiterEntry>, k: int)
    ensures
        entries_bytes(entries).len() == 40 * entries.len(),
        0 <= k < entries.len() ==> entries_bytes(entries).subrange(40 * k, 40 * k + 40)
            == entry_bytes(entries[k]),
        0 <= k < entries.len() ==> entry_bytes(entries[k]).len() == 40,
    decreases entries.len(),
{
    lemma_auto_spec_u64_to_from_le_bytes();
    if entries.len() > 0 {
        let front = entries.drop_last();
        lemma_entries_bytes(front, k);
        lemma_address_of(entries.last().authority, Seq::empty());
        assert(entry_bytes(entries.last()).len() == 40);
        if 0 <= k < entries.len() {
            lemma_address_of(entries[k].authority, Seq::empty());
            if k < front.len() {
                assert(front[k] == entries[k]);
                assert(entries_bytes(entries).subrange(40 * k, 40 * k + 40) =~= entries_bytes(
                    front,
                ).subrange(40 * k, 40 * k + 40));
            } else {
                assert(entries_bytes(entries).subrange(40 * k, 40 * k + 40) =~= entry_bytes(
                    entries.last(),
                ));
            }
        }
    }
}

/// Each address takes 32 bytes, and the bytes of the address `k` are the
/// `k`-th 32 bytes.
pub proof fn lemma_addresses_bytes(addresses: Seq<Address>, k: int)
    ensures
        addresses_bytes(addresses).len() == 32 * addresses.len(),
        0 <= k < addresses.len() ==> addresses_bytes(addresses).subrange(32 * k, 32 * k + 32)
            == addresses[k]@,
    decreases addresses.len(),
{
    if addresses.len() > 0 {
        let front = addresses.drop_last();
        lemma_addresses_bytes(front, k);
        lemma_address_of(addresses.last(), Seq::empty());
        if 0 <= k < addresses.len() {
            if k < front.len() {
                assert(front[k] == addresses[k]);
                assert(addresses_bytes(addresses).subrange(32 * k, 32 * k + 32)
                    =~= addresses_bytes(front).subrange(32 * k, 32 * k + 32));
            } else {
                assert(addresses_bytes(addresses).subrange(32 * k, 32 * k + 32)
                    =~= addresses.last()@);
            }
        }
    }
}

impl MintRateLimit {
    /// What was written is what is read, whatever bytes follow it.
    pub proof fn lemma_decode_encode(self, rest: Seq<u8>)
        requires
            self.period_duration > 0,
        ensures
            self.spec_encode().len() == 72,
            MintRateLimit::spec_decode(self.spec_encode() + rest) == Some(self),
    {
        let tag = spec_u64_to_le_bytes(MINT_RATE_LIMIT_TAG);
        let limit = spec_u64_to_le_bytes(self.period_limit);
        let start = i64_bytes(self.current_period_start);
        let duration = spec_u64_to_le_bytes(self.period_duration);
        let mint = self.mint@;
        let value = spec_u64_to_le_bytes(self.value_transferred);
        let data = self.spec_encode() + rest;
        lemma_u64_at(Seq::empty(), MINT_RATE_LIMIT_TAG, limit + start + duration + mint + value + rest);
        lemma_u64_at(tag, self.period_limit, start + duration + mint + value + rest);
        lemma_i64_at(tag + limit, self.current_period_start, duration + mint + value + rest);
        lemma_u64_at(tag + limit + start, self.period_duration, mint + value + rest);
        lemma_address_at(tag + limit + start + duration, self.mint, value + rest);
        lemma_u64_at(tag + limit + start + duration + mint, self.value_transferred, rest);
        assert(data =~= Seq::empty() + tag + (limit + start + duration + mint + value + rest));
        assert(data =~= tag + limit + (start + duration + mint + value + rest));
        assert(data =~= tag + limit + start + (duration + mint + value + rest));
        assert(data =~= tag + limit + start + duration + (mint + value + rest));
        assert(data =~= tag + limit + start + duration + mint + (value + rest));
        assert(data =~= tag + limit + start + duration + mint + value + rest);
    }
}

/// The entry `k` that was written behind `head` is the entry that is read
/// there.
pub proof fn lemma_entry_at(head: Seq<u8>, entries: Seq<LimiterEntry>, rest: Seq<u8>, k: int)
    requires
        0 <= k < entries.len(),
    ensures
        entry_at(head + entries_bytes(entries) + rest, head.len() + 40 * k) == entries[k],
{
    let items = entries_bytes(entries);
    let data = head + items + rest;
    let entry = entries[k];
    let at = head.len() + 40 * k;
    lemma_entries_bytes(entries, k);
    let chunk = data.subrange(at, at + 40);
    assert(chunk =~= items.subrange(40 * k, 40 * k + 40));
    lemma_address_of(entry.authority, Seq::empty());
    lemma_auto_spec_u64_to_from_le_bytes();
    assert(data.subrange(at, at + 32) =~= chunk.subrange(0, 32));
    assert(chunk.subrange(0, 32) =~= entry.authority@);
    assert(data.subrange(at + 32, at + 32 + 8) =~= chunk.subrange(32, 40));
    assert(chunk.subrange(32, 40) =~= spec_u64_to_le_bytes(entry.value_transferred));
}

impl AuthorityRateLimitView {
    /// The fields in front of the entries that were written are the fields
    /// that are read.
    pub proof fn lemma_head(self, tail: Seq<u8>)
        requires
            self.entries.len() <= u32::MAX,
        ensures
            ({
                let head = spec_u64_to_le_bytes(AUTHORITY_RATE_LIMIT_TAG) + spec_u64_to_le_bytes(
                    self.period_limit,
                ) + i64_bytes(self.current_period_start) + spec_u64_to_le_bytes(
                    self.period_duration,
                ) + self.mint@ + spec_u32_to_le_bytes(self.entries.len() as u32);
                let data = head + tail;
                &&& head.len() == 68
                &&& u64_at(data, 0) == AUTHORITY_RATE_LIMIT_TAG
                &&& u64_at(data, 8) == self.period_limit
                &&& i64_at(data, 16) == self.current_period_start
                &&& u64_at(data, 24) == self.period_duration
                &&& address_at(data, 32) == self.mint
                &&& u32_at(data, 64) == self.entries.len()
            }),
    {
        let tag = spec_u64_to_le_bytes(AUTHORITY_RATE_LIMIT_TAG);
        let limit = spec_u64_to_le_bytes(self.period_limit);
        let start = i64_bytes(self.current_period_start);
        let duration = spec_u64_to_le_bytes(self.period_duration);
        let mint = self.mint@;
        let count = spec_u32_to_le_bytes(self.entries.len() as u32);
        let data = tag + limit + start + duration + mint + count + tail;
        lemma_u64_at(Seq::empty(), AUTHORITY_RATE_LIMIT_TAG, limit + start + duration + mint + count + tail);
        lemma_u64_at(tag, self.period_limit, start + duration + mint + count + tail);
        lemma_i64_at(tag + limit, self.current_period_start, duration + mint + count + tail);
        lemma_u64_at(tag + limit + start, self.period_duration, mint + count + tail);
        lemma_address_at(tag + limit + start + duration, self.mint, count + tail);
        lemma_u32_at(tag + limit + start + duration + mint, self.entries.len() as u32, tail);
        assert(data =~= Seq::empty() + tag + (limit + start + duration + mint + count + tail));
        assert(data =~= tag + limit + (start + duration + mint + count + tail));
        assert(data =~= tag + limit + start + (duration + mint + count + tail));
        assert(data =~= tag + limit + start + duration + (mint + count + tail));
        assert(data =~= tag + limit + start + duration + mint + (count + tail));
    }

    /// What was written is what is read, whatever bytes follow it.
    pub proof fn lemma_decode_encode(self, rest: Seq<u8>)
        requires
            self.period_duration > 0,
            self.entries.len() <= u32::MAX,
        ensures
            self.spec_encode().len() == 68 + 40 * self.entries.len(),
            AuthorityRateLimitView::spec_decode(self.spec_encode() + rest) == Some(self),
    {
        let head = spec_u64_to_le_bytes(AUTHORITY_RATE_LIMIT_TAG) + spec_u64_to_le_bytes(
            self.period_limit,
        ) + i64_bytes(self.current_period_start) + spec_u64_to_le_bytes(self.period_duration)
            + self.mint@ + spec_u32_to_le_bytes(self.entries.len() as u32);
        let items = entries_bytes(self.entries);
        let data = self.spec_encode() + rest;
        self.lemma_head(items + rest);
        lemma_entries_bytes(self.entries, 0);
        assert(data =~= head + (items + rest));
        assert(data =~= head + items + rest);
        let read = Seq::new(u32_at(data, 64) as nat, |k: int| entry_at(data, 68 + 40 * k));
        assert(read.len() == self.entries.len());
        assert forall|k: int| 0 <= k < self.entries.len() implies read[k] == self.entries[k] by {
            lemma_entry_at(head, self.entries, rest, k);
        }
        assert(read =~= self.entries);
    }
}

impl BlockListView {
    /// What was written is what is read, whatever bytes follow it.
    pub proof fn lemma_decode_encode(self, rest: Seq<u8>)
        requires
            self.denied_addresses.len() <= u32::MAX,
        ensures
            self.spec_encode().len() == 8 + self.owner.kind().width() + 4 + 32
                * self.denied_addresses.len(),
            BlockListView::spec_decode(self.spec_encode() + rest, self.owner.kind()) == Some(self),
    {
        let kind = self.owner.kind();
        let tag = spec_u64_to_le_bytes(BLOCK_LIST_TAG);
        let owner = self.owner.bytes();
        let count = spec_u32_to_le_bytes(self.denied_addresses.len() as u32);
        let items = addresses_bytes(self.denied_addresses);
        let head = tag + owner + count;
        let data = self.spec_encode() + rest;
        lemma_u64_at(Seq::empty(), BLOCK_LIST_TAG, owner + count + items + rest);
        match self.owner {
            ListOwner::Authority(a) => {
                lemma_address_at(tag, a, count + items + rest);
            },
            ListOwner::Number(n) => {
                lemma_u64_at(tag, n, count + items + rest);
            },
        }
        lemma_u32_at(tag + owner, self.denied_addresses.len() as u32, items + rest);
        lemma_addresses_bytes(self.denied_addresses, 0);
        assert(data =~= Seq::empty() + tag + (owner + count + items + rest));
        assert(data =~= tag + owner + (count + items + rest));
        assert(data =~= tag + owner + count + (items + rest));
        assert(head.len() == 8 + kind.width() + 4);
        let first = 8 + kind.width() + 4;
        let read = Seq::new(
            u32_at(data, 8 + kind.width()) as nat,
            |k: int| address_at(data, first + 32 * k),
        );
        assert(read.len() == self.denied_addresses.len());
        assert forall|k: int| 0 <= k < self.denied_addresses.len() implies read[k]
            == self.denied_addresses[k] by {
            lemma_addresses_bytes(self.denied_addresses, k);
            let at = first + 32 * k;
            assert(data.subrange(at, at + 32) =~= items.subrange(32 * k, 32 * k + 32));
            lemma_address_of(self.denied_addresses[k], Seq::empty());
        }
        assert(read =~= self.denied_addresses);
    }
}

impl crate::rate_limits::Management {
    /// The bytes of the account: the tag and the administrator.
    pub open spec fn spec_encode(self) -> Seq<u8> {
        spec_u64_to_le_bytes(MANAGEMENT_TAG) + self.authority@
    }

    /// The account that the bytes stand for, if they stand for one: there
    /// are at least 40 of them and they start with the tag.
    pub open spec fn spec_decode(data: Seq<u8>) -> Option<crate::rate_limits::Management> {
        if data.len() >= 40 && u64_at(data, 0) == MANAGEMENT_TAG {
            Some(crate::rate_limits::Management { authority: address_at(data, 8) })
        } else {
            None
        }
    }

    /// Writes the account as its bytes.
    pub fn encode(&self) -> (out: Vec<u8>)
        ensures
            out@ == self.spec_encode(),
    {
        let mut out: Vec<u8> = Vec::new();
        write_u64(&mut out, MANAGEMENT_TAG);
        write_address(&mut out, &self.authority);
        assert(out@ =~= self.spec_encode());
        out
    }

    /// Reads the account from its bytes.
    pub fn decode(data: &[u8]) -> (r: Result<crate::rate_limits::Management, PolicyError>)
        ensures
            r matches Ok(m) ==> crate::rate_limits::Management::spec_decode(data@) == Some(m),
            r matches Err(e) ==> crate::rate_limits::Management::spec_decode(data@) is None && e
                == PolicyError::InvalidPolicyAccount,
    {
        if data.len() < 40 {
            return Err(PolicyError::InvalidPolicyAccount);
        }
        if read_u64(data, 0) != MANAGEMENT_TAG {
            return Err(PolicyError::InvalidPolicyAccount);
        }
        Ok(crate::rate_limits::Management { authority: read_address(data, 8) })
    }

    /// What was written is what is read, whatever bytes follow it.
    pub proof fn lemma_decode_encode(self, rest: Seq<u8>)
        ensures
            self.spec_encode().len() == 40,
            crate::rate_limits::Management::spec_decode(self.spec_encode() + rest) == Some(self),
    {
        let tag = spec_u64_to_le_bytes(MANAGEMENT_TAG);
        let data = self.spec_encode() + rest;
        lemma_u64_at(Seq::empty(), MANAGEMENT_TAG, self.authority@ + rest);
        lemma_address_at(tag, self.authority, rest);
        assert(data =~= Seq::empty() + tag + (self.authority@ + rest));
        assert(data =~= tag + self.authority@ + rest);
    }
}

impl crate::sanctioned_transfer_hook::Management {
    /// The bytes of the account: the tag, the administrator and the number
    /// of lists.
    pub open spec fn spec_encode(self) -> Seq<u8> {
        spec_u64_to_le_bytes(MANAGEMENT_TAG) + self.authority@ + spec_u64_to_le_bytes(
            self.num_block_lists,
        )
    }

    /// The account that the bytes stand for, if they stand for one: there
    /// are at least 48 of them and they start with the tag.
    pub open spec fn spec_decode(data: Seq<u8>) -> Option<
        crate::sanctioned_transfer_hook::Management,
    > {
        if data.len() >= 48 && u64_at(data, 0) == MANAGEMENT_TAG {
            Some(
                crate::sanctioned_transfer_hook::Management {
                    authority: address_at(data, 8),
                    num_block_lists: u64_at(data, 40),
                },
            )
        } else {
            None
        }
    }

    /// Writes the account as its bytes.
    pub fn encode(&self) -> (out: Vec<u8>)
        ensures
            out@ == self.spec_encode(),
    {
        let mut out: Vec<u8> = Vec::new();
        write_u64(&mut out, MANAGEMENT_TAG);
        write_address(&mut out, &self.authority);
        write_u64(&mut out, self.num_block_lists);
        assert(out@ =~= self.spec_encode());
        out
    }

    /// Reads the account from its bytes.
    pub fn decode(data: &[u8]) -> (r: Result<
        crate::sanctioned_transfer_hook::Management,
        PolicyError,
    >)
        ensures
            r matches Ok(m) ==> crate::sanctioned_transfer_hook::Management::spec_decode(data@)
                == Some(m),
            r matches Err(e) ==> crate::sanctioned_transfer_hook::Management::spec_decode(data@)
                is None && e == PolicyError::InvalidPolicyAccount,
    {
        if data.len() < 48 {
            return Err(PolicyError::InvalidPolicyAccount);
        }
        if read_u64(data, 0) != MANAGEMENT_TAG {
            return Err(PolicyError::InvalidPolicyAccount);
        }
        Ok(
            crate::sanctioned_transfer_hook::Management {
                authority: read_address(data, 8),
                num_block_lists: read_u64(data, 40),
            },
        )
    }

    /// What was written is what is read, whatever bytes follow it.
    pub proof fn lemma_decode_encode(self, rest: Seq<u8>)
        ensures
            self.spec_encode().len() == 48,
            crate::sanctioned_transfer_hook::Management::spec_decode(self.spec_encode() + rest)
                == Some(self),
    {
        let tag = spec_u64_to_le_bytes(MANAGEMENT_TAG);
        let count = spec_u64_to_le_bytes(self.num_block_lists);
        let data = self.spec_encode() + rest;
        lemma_u64_at(Seq::empty(), MANAGEMENT_TAG, self.authority@ + count + rest);
        lemma_address_at(tag, self.authority, count + rest);
        lemma_u64_at(tag + self.authority@, self.num_block_lists, rest);
        assert(data =~= Seq::empty() + tag + (self.authority@ + count + rest));
        assert(data =~= tag + self.authority@ + (count + rest));
        assert(data =~= tag + self.authority@ + count + rest);
    }
}

} // verus!
