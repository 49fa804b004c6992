//! A rate limiter with one counter for each authority.

use vstd::prelude::*;
use crate::address::Address;
use crate::error::RateLimitError;
use crate::limiters::{LimiterEntry, RateLimitExt};
use crate::window::{
    carried_over, lemma_rolled_start_bounds, lemma_rolled_start_spans, next_period_start,
    period_due, period_end, rolled_start, saturated_total,
};

verus! {

/// Limits the amount of one mint that each authority transfers within a
/// period. An authority gets its entry with its first transfer.
#[derive(Debug)]
pub struct AuthorityRateLimit {
    /// Maximum amount that can be transferred in a single period.
    pub period_limit: u64,
    /// The start time of the current period.
    pub current_period_start: i64,
    /// Duration of each period in seconds.
    pub period_duration: u64,
    /// Token mint the rate limit is for.
    pub mint: Address,
    /// The entries of the authorities seen so far, each authority once.
    pub entries: Vec<LimiterEntry>,
}

/// What an `AuthorityRateLimit` holds, as a mathematical value.
pub struct AuthorityRateLimitView {
    pub period_limit: u64,
    pub current_period_start: i64,
    pub period_duration: u64,
    pub mint: Address,
    pub entries: Seq<LimiterEntry>,
}

/// The authorities of the entries, in the order of the entries.
pub open spec fn authorities(entries: Seq<LimiterEntry>) -> Seq<Address> {
    entries.map_values(|e: LimiterEntry| e.authority)
}

/// Index of the first entry of `authority`, if it has one.
pub open spec fn position(entries: Seq<LimiterEntry>, authority: Address) -> Option<int> {
    authorities(entries).index_of_first(authority)
}

/// The entries with every counter at zero.
pub open spec fn cleared(entries: Seq<LimiterEntry>) -> Seq<LimiterEntry> {
    entries.map_values(|e: LimiterEntry| LimiterEntry { authority: e.authority, value_transferred: 0 })
}

/// No authority has two entries.
pub open spec fn distinct_authorities(entries: Seq<LimiterEntry>) -> bool {
    forall|i: int, j: int|
        0 <= i < j < entries.len() ==> (#[trigger] entries[i]).authority != (
        #[trigger] entries[j]).authority
}

/// `position` gives the first entry of the authority, and `None` exactly if
/// the authority has no entry.
pub proof fn lemma_position(entries: Seq<LimiterEntry>, authority: Address)
    ensures
        match position(entries, authority) {
            Some(i) => {
                &&& 0 <= i < entries.len()
                &&& entries[i].authority == authority
                &&& forall|j: int| 0 <= j < i ==> (#[trigger] entries[j]).authority != authority
            },
            None => forall|j: int| 0 <= j < entries.len() ==> (#[trigger] entries[j]).authority
                != authority,
        },
{
    let names = authorities(entries);
    names.index_of_first_ensures(authority);
    match names.index_of_first(authority) {
        Some(i) => {
            assert forall|j: int| 0 <= j < i implies (#[trigger] entries[j]).authority
                != authority by {
                assert(names[j] != authority);
            }
        },
        None => {
            assert forall|j: int| 0 <= j < entries.len() implies (#[trigger] entries[j]).authority
                != authority by {
                assert(names[j] == entries[j].authority);
                assert(names.contains(names[j]));
            }
        },
    }
}

/// The first entry of an authority is its position.
pub proof fn lemma_position_found(entries: Seq<LimiterEntry>, authority: Address, i: int)
    requires
        0 <= i < entries.len(),
        entries[i].authority == authority,
        forall|j: int| 0 <= j < i ==> (#[trigger] entries[j]).authority != authority,
    ensures
        position(entries, authority) == Some(i),
{
    lemma_position(entries, authority);
    match position(entries, authority) {
        Some(k) => {
            if k < i {
                assert(entries[k].authority != authority);
            }
            if i < k {
                assert(entries[i].authority != authority);
            }
        },
        None => {
            assert(entries[i].authority != authority);
        },
    }
}

/// An authority without an entry has no position.
pub proof fn lemma_position_absent(entries: Seq<LimiterEntry>, authority: Address)
    requires
        forall|j: int| 0 <= j < entries.len() ==> (#[trigger] entries[j]).authority != authority,
    ensures
        position(entries, authority) is None,
{
    lemma_position(entries, authority);
    match position(entries, authority) {
        Some(k) => {
            assert(entries[k].authority != authority);
        },
        None => {},
    }
}

/// Clearing the counters moves no entry.
pub proof fn lemma_cleared(entries: Seq<LimiterEntry>)
    ensures
        cleared(entries).len() == entries.len(),
        authorities(cleared(entries)) == authorities(entries),
        distinct_authorities(entries) ==> distinct_authorities(cleared(entries)),
        forall|a: Address| #[trigger] position(cleared(entries), a) == position(entries, a),
        cleared(cleared(entries)) == cleared(entries),
{
    assert(authorities(cleared(entries)) =~= authorities(entries));
    assert(cleared(cleared(entries)) =~= cleared(entries));
}

/// Writing a new count into an entry moves no entry.
pub proof fn lemma_recount(entries: Seq<LimiterEntry>, i: int, value: u64)
    requires
        0 <= i < entries.len(),
    ensures
        authorities(
            entries.update(
                i,
                LimiterEntry { authority: entries[i].authority, value_transferred: value },
            ),
        ) == authorities(entries),
        distinct_authorities(entries) ==> distinct_authorities(
            entries.update(
                i,
                LimiterEntry { authority: entries[i].authority, value_transferred: value },
            ),
        ),
{
    let updated = entries.update(
        i,
        LimiterEntry { authority: entries[i].authority, value_transferred: value },
    );
    assert(authorities(updated) =~= authorities(entries));
    if distinct_authorities(entries) {
        assert forall|x: int, y: int| 0 <= x < y < updated.len() implies (
        #[trigger] updated[x]).authority != (#[trigger] updated[y]).authority by {
            assert(updated[x].authority == entries[x].authority);
            assert(updated[y].authority == entries[y].authority);
        }
    }
}

/// An entry for a new authority goes to the end and moves no other entry.
pub proof fn lemma_appended(entries: Seq<LimiterEntry>, entry: LimiterEntry)
    requires
        position(entries, entry.authority) is None,
    ensures
        position(entries.push(entry), entry.authority) == Some(entries.len() as int),
        forall|a: Address|
            a != entry.authority ==> #[trigger] position(entries.push(entry), a) == position(
                entries,
                a,
            ),
        distinct_authorities(entries) ==> distinct_authorities(entries.push(entry)),
{
    let longer = entries.push(entry);
    lemma_position(entries, entry.authority);
    lemma_position_found(longer, entry.authority, entries.len() as int);
    assert forall|a: Address| a != entry.authority implies #[trigger] position(longer, a)
        == position(entries, a) by {
        lemma_position(entries, a);
        match position(entries, a) {
            Some(i) => {
                assert forall|j: int| 0 <= j < i implies (#[trigger] longer[j]).authority != a by {
                    assert(longer[j] == entries[j]);
                }
                assert(longer[i] == entries[i]);
                lemma_position_found(longer, a, i);
            },
            None => {
                assert forall|j: int| 0 <= j < longer.len() implies (
                #[trigger] longer[j]).authority != a by {
                    if j < entries.len() {
                        assert(longer[j] == entries[j]);
                    }
                }
                lemma_position_absent(longer, a);
            },
        }
    }
    if distinct_authorities(entries) {
        assert forall|x: int, y: int| 0 <= x < y < longer.len() implies (
        #[trigger] longer[x]).authority != (#[trigger] longer[y]).authority by {
            assert(longer[x] == entries[x]);
            if y < entries.len() {
                assert(longer[y] == entries[y]);
            }
        }
    }
}

impl AuthorityRateLimitView {
    /// The period has a length.
    pub open spec fn wf(self) -> bool {
        self.period_duration > 0
    }

    /// No authority has two entries. Every limiter starts out so and every
    /// operation keeps it so; where a limiter that was read from elsewhere
    /// repeats an authority, the first of its entries counts.
    pub open spec fn distinct(self) -> bool {
        distinct_authorities(self.entries)
    }

    /// The current period has ended at `now`.
    pub open spec fn due(self, now: i64) -> bool {
        period_due(self.current_period_start as int, self.period_duration as int, now as int)
    }

    /// Amount that `authority` has transferred in the current period: what
    /// its entry holds, and zero if it has none.
    pub open spec fn transferred_by(self, authority: Address) -> u64 {
        match position(self.entries, authority) {
            Some(i) => self.entries[i].value_transferred,
            None => 0,
        }
    }

    /// The limiter after the clock was read as `now`: moved to the period
    /// that holds `now` and with every counter at zero if the period has
    /// ended, unchanged otherwise.
    pub open spec fn rolled_over(self, now: i64) -> AuthorityRateLimitView {
        if self.due(now) {
            AuthorityRateLimitView {
                current_period_start: rolled_start(
                    self.current_period_start as int,
                    self.period_duration as int,
                    now as int,
                ) as i64,
                entries: cleared(self.entries),
                ..self
            }
        } else {
            self
        }
    }

    /// The limiter with an entry for `authority`: a new one at the end, with
    /// nothing transferred, unless the authority has one already.
    pub open spec fn with_entry(self, authority: Address) -> AuthorityRateLimitView {
        if position(self.entries, authority) is None {
            AuthorityRateLimitView {
                entries: self.entries.push(LimiterEntry { authority, value_transferred: 0 }),
                ..self
            }
        } else {
            self
        }
    }

    /// The limiter with `value` as the count of `authority`, in its entry or
    /// in a new one at the end.
    pub open spec fn with_count(self, authority: Address, value: u64) -> AuthorityRateLimitView {
        let entry = LimiterEntry { authority, value_transferred: value };
        AuthorityRateLimitView {
            entries: match position(self.entries, authority) {
                Some(i) => self.entries.update(i, entry),
                None => self.entries.push(entry),
            },
            ..self
        }
    }

    /// The count of `authority` that a transfer of `amount` at `now` would
    /// lead to.
    pub open spec fn total_after(self, authority: Address, amount: u64, now: i64) -> int {
        saturated_total(self.rolled_over(now).transferred_by(authority) as int, amount as int)
    }

    /// The limiter after a transfer of `amount` by `authority` at `now`: the
    /// transfer is counted if it stays within the limit, and nothing changes
    /// otherwise.
    pub open spec fn after_transfer(self, authority: Address, amount: u64, now: i64)
        -> AuthorityRateLimitView {
        if self.total_after(authority, amount, now) <= self.period_limit {
            self.rolled_over(now).with_count(
                authority,
                self.total_after(authority, amount, now) as u64,
            )
        } else {
            self
        }
    }

    /// A roll-over keeps a limiter valid, clears every count if the period
    /// has ended and keeps every count otherwise.
    pub proof fn lemma_rolled_over(self, now: i64)
        ensures
            self.wf() ==> self.rolled_over(now).wf(),
            self.distinct() ==> self.rolled_over(now).distinct(),
            forall|a: Address| #[trigger]
                self.rolled_over(now).transferred_by(a) == (if self.due(now) {
                    0
                } else {
                    self.transferred_by(a)
                }),
    {
        lemma_cleared(self.entries);
        assert forall|a: Address| #[trigger]
            self.rolled_over(now).transferred_by(a) == (if self.due(now) {
                0
            } else {
                self.transferred_by(a)
            }) by {
            if self.due(now) {
                lemma_position(cleared(self.entries), a);
            }
        }
    }

    /// Setting the count of one authority keeps a limiter valid, gives that
    /// authority the count and leaves the other counts alone.
    pub proof fn lemma_with_count(self, authority: Address, value: u64)
        ensures
            self.wf() ==> self.with_count(authority, value).wf(),
            self.distinct() ==> self.with_count(authority, value).distinct(),
            self.with_count(authority, value).transferred_by(authority) == value,
            forall|a: Address|
                a != authority ==> #[trigger] self.with_count(authority, value).transferred_by(a)
                    == self.transferred_by(a),
    {
        let entry = LimiterEntry { authority, value_transferred: value };
        let after = self.with_count(authority, value);
        lemma_position(self.entries, authority);
        match position(self.entries, authority) {
            Some(i) => {
                lemma_recount(self.entries, i, value);
                assert forall|a: Address|
                    a != authority implies #[trigger] after.transferred_by(a)
                        == self.transferred_by(a) by {
                    lemma_position(self.entries, a);
                }
            },
            None => {
                lemma_appended(self.entries, entry);
                assert forall|a: Address|
                    a != authority implies #[trigger] after.transferred_by(a)
                        == self.transferred_by(a) by {
                    lemma_position(self.entries, a);
                }
            },
        }
    }
}

impl AuthorityRateLimitView {
    /// No authority is counted beyond the limit.
    pub open spec fn within_limit(self) -> bool {
        forall|a: Address| #[trigger] self.transferred_by(a) <= self.period_limit
    }

    /// The limiter after the transfers `calls`, each an authority, an amount
    /// and the time of the transfer, in their order.
    pub open spec fn after_transfers(self, calls: Seq<(Address, u64, i64)>) -> AuthorityRateLimitView
        decreases calls.len(),
    {
        if calls.len() == 0 {
            self
        } else {
            self.after_transfers(calls.drop_last()).after_transfer(
                calls.last().0,
                calls.last().1,
                calls.last().2,
            )
        }
    }

    /// A limiter that is within its limit stays within it, whoever transfers
    /// whatever and whenever.
    pub proof fn lemma_stays_within_limit(self, calls: Seq<(Address, u64, i64)>)
        requires
            self.wf(),
            self.within_limit(),
        ensures
            self.after_transfers(calls).wf(),
            self.after_transfers(calls).period_limit == self.period_limit,
            self.after_transfers(calls).period_duration == self.period_duration,
            self.after_transfers(calls).within_limit(),
            self.distinct() ==> self.after_transfers(calls).distinct(),
        decreases calls.len(),
    {
        if calls.len() > 0 {
            let before = self.after_transfers(calls.drop_last());
            self.lemma_stays_within_limit(calls.drop_last());
            let (a, amount, now) = calls.last();
            let total = before.total_after(a, amount, now);
            before.lemma_rolled_over(now);
            before.rolled_over(now).lemma_with_count(a, total as u64);
            let after = before.after_transfer(a, amount, now);
            assert forall|b: Address| #[trigger] after.transferred_by(b) <= after.period_limit by {
                assert(before.transferred_by(b) <= before.period_limit);
                assert(before.rolled_over(now).transferred_by(b) <= before.period_limit);
            }
        }
    }

    /// No authority is ever counted beyond the limit of a new limiter,
    /// whoever transfers whatever and whenever.
    pub proof fn lemma_total_never_exceeds_limit(
        period_limit: u64,
        period_duration: u64,
        start_time: i64,
        mint: Address,
        calls: Seq<(Address, u64, i64)>,
        authority: Address,
    )
        requires
            period_duration > 0,
        ensures
            (AuthorityRateLimitView {
                period_limit,
                current_period_start: start_time,
                period_duration,
                mint,
                entries: Seq::empty(),
            }).after_transfers(calls).transferred_by(authority) <= period_limit,
    {
        let fresh = AuthorityRateLimitView {
            period_limit,
            current_period_start: start_time,
            period_duration,
            mint,
            entries: Seq::empty(),
        };
        assert forall|a: Address| #[trigger] fresh.transferred_by(a) <= fresh.period_limit by {
            lemma_position_absent(fresh.entries, a);
        }
        fresh.lemma_stays_within_limit(calls);
        assert(fresh.after_transfers(calls).transferred_by(authority) <= period_limit);
    }

    /// A transfer that would exceed the limit changes nothing, and within
    /// one period a transfer that is counted adds its amount to the count of
    /// its authority, held at the largest counter value, and to no other.
    pub proof fn lemma_transfer_within_period(self, authority: Address, amount: u64, now: i64)
        requires
            self.wf(),
            !self.due(now),
        ensures
            saturated_total(self.transferred_by(authority) as int, amount as int)
                > self.period_limit ==> self.after_transfer(authority, amount, now) == self,
            saturated_total(self.transferred_by(authority) as int, amount as int)
                <= self.period_limit ==> {
                &&& self.after_transfer(authority, amount, now).transferred_by(authority)
                    == saturated_total(self.transferred_by(authority) as int, amount as int)
                &&& forall|b: Address|
                    b != authority ==> #[trigger] self.after_transfer(
                        authority,
                        amount,
                        now,
                    ).transferred_by(b) == self.transferred_by(b)
            },
    {
        let total = saturated_total(self.transferred_by(authority) as int, amount as int);
        if total <= self.period_limit {
            self.lemma_with_count(authority, total as u64);
        }
    }

    /// Rolling over twice at the same time is rolling over once.
    pub proof fn lemma_roll_over_idempotent(self, now: i64)
        requires
            self.wf(),
        ensures
            self.rolled_over(now).rolled_over(now) == self.rolled_over(now),
    {
        if self.due(now) {
            lemma_rolled_start_bounds(
                self.current_period_start as int,
                self.period_duration as int,
                now as int,
            );
        }
    }

    /// A roll-over at a time that lies in the `n`-th period after the
    /// current one moves the start by exactly `n` periods and leaves every
    /// counter at zero.
    pub proof fn lemma_roll_over_spans(self, now: i64, n: int)
        requires
            self.wf(),
            n >= 1,
            self.current_period_start + n * self.period_duration <= now,
            now < self.current_period_start + (n + 1) * self.period_duration,
        ensures
            self.rolled_over(now).current_period_start == self.current_period_start + n
                * self.period_duration,
            self.rolled_over(now).entries == cleared(self.entries),
            forall|a: Address| #[trigger] self.rolled_over(now).transferred_by(a) == 0,
            self.rolled_over(now).period_limit == self.period_limit,
            self.rolled_over(now).period_duration == self.period_duration,
            self.rolled_over(now).mint == self.mint,
    {
        lemma_rolled_start_spans(
            self.current_period_start as int,
            self.period_duration as int,
            now as int,
            n,
        );
        self.lemma_rolled_over(now);
    }
}

impl View for AuthorityRateLimit {
    type V = AuthorityRateLimitView;

    open spec fn view(&self) -> AuthorityRateLimitView {
        AuthorityRateLimitView {
            period_limit: self.period_limit,
            current_period_start: self.current_period_start,
            period_duration: self.period_duration,
            mint: self.mint,
            entries: self.entries@,
        }
    }
}

impl AuthorityRateLimit {
    /// A limiter for `mint` whose first period starts at `start_time`, with
    /// no entries yet. A period of zero length is refused.
    pub fn new(period_limit: u64, period_duration: u64, start_time: i64, mint: Address) -> (r: Result<
        AuthorityRateLimit,
        RateLimitError,
    >)
        ensures
            period_duration == 0 ==> (r matches Err(e) && e == RateLimitError::InvalidPeriodConfig),
            period_duration > 0 ==> (r matches Ok(l) && l.wf() && l@.distinct() && l@ == (AuthorityRateLimitView {
                period_limit,
                current_period_start: start_time,
                period_duration,
                mint,
                entries: Seq::empty(),
            })),
            r matches Ok(l) ==> forall|a: Address| #[trigger] l@.transferred_by(a) == 0,
    {
        if period_duration == 0 {
            return Err(RateLimitError::InvalidPeriodConfig);
        }
        proof {
            assert forall|a: Address| position(Seq::<LimiterEntry>::empty(), a) is None by {
                lemma_position_absent(Seq::<LimiterEntry>::empty(), a);
            }
        }
        Ok(
            AuthorityRateLimit {
                entries: Vec::new(),
                period_limit,
                current_period_start: start_time,
                period_duration,
                mint,
            },
        )
    }

    /// Index of the entry of `authority`, if it has one.
    pub fn entry_index(&self, authority: &Address) -> (r: Option<usize>)
        ensures
            r matches Some(i) ==> {
                &&& position(self.entries@, *authority) == Some(i as int)
                &&& i < self.entries@.len()
                &&& self.entries@[i as int].authority == *authority
            },
            r is None ==> position(self.entries@, *authority) is None,
    {
        let mut i: usize = 0;
        while i < self.entries.len()
            invariant
                i <= self.entries@.len(),
                forall|j: int| 0 <= j < i ==> (#[trigger] self.entries@[j]).authority != *authority,
            decreases self.entries@.len() - i,
        {
            if self.entries[i].authority == *authority {
                proof {
                    lemma_position_found(self.entries@, *authority, i as int);
                }
                return Some(i);
            }
            i = i + 1;
        }
        proof {
            lemma_position_absent(self.entries@, *authority);
        }
        None
    }

    /// Gives `authority` an entry with nothing transferred, unless it has an
    /// entry already.
    pub fn init_limiter_entry(&mut self, authority: Address)
        ensures
            final(self)@ == old(self)@.with_entry(authority),
            position(final(self).entries@, authority) is Some,
            old(self).wf() ==> final(self).wf(),
            old(self)@.distinct() ==> final(self)@.distinct(),
    {
        if self.entry_index(&authority).is_none() {
            proof {
                lemma_appended(self.entries@, LimiterEntry { authority, value_transferred: 0 });
            }
            self.entries.push(LimiterEntry { authority, value_transferred: 0 });
        }
    }

    /// The entry of `authority` for reading and writing, or `None` if the
    /// authority has no entry. What the caller writes into the entry is what
    /// the limiter then holds at the entry's position; nothing else changes.
    pub fn limiter_entry(&mut self, authority: Address) -> (r: Option<&mut LimiterEntry>)
        ensures
            match r {
                Some(entry) => {
                    &&& position(old(self).entries@, authority) matches Some(i)
                    &&& *entry == old(self).entries@[i]
                    &&& final(self)@ == (AuthorityRateLimitView {
                        entries: old(self).entries@.update(i, *final(entry)),
                        ..old(self)@
                    })
                },
                None => position(old(self).entries@, authority) is None && *final(self) == *old(
                    self,
                ),
            },
    {
        match self.entry_index(&authority) {
            Some(i) => Some(&mut self.entries[i]),
            None => None,
        }
    }

    /// The amount that `authority` has transferred in the current period.
    pub fn transferred_by(&self, authority: &Address) -> (value: u64)
        ensures
            value == self@.transferred_by(*authority),
    {
        match self.entry_index(authority) {
            Some(i) => self.entries[i].value_transferred,
            None => 0,
        }
    }
}

impl RateLimitExt for AuthorityRateLimit {
    open spec fn wf(&self) -> bool {
        self@.wf()
    }

    open spec fn spec_start_time(&self) -> i64 {
        self.current_period_start
    }

    open spec fn spec_period_duration(&self) -> u64 {
        self.period_duration
    }

    open spec fn spec_period_limit(&self) -> u64 {
        self.period_limit
    }

    open spec fn spec_transferred(&self, authority: Option<Address>) -> u64 {
        match authority {
            Some(a) => self@.transferred_by(a),
            None => 0,
        }
    }

    open spec fn accepts(&self, authority: Option<Address>) -> bool {
        authority is Some
    }

    fn start_time(&self) -> (t: i64) {
        self.current_period_start
    }

    fn end_time(&self) -> (t: i64) {
        period_end(self.current_period_start, self.period_duration)
    }

    fn period_duration_seconds(&self) -> (d: u64) {
        self.period_duration
    }

    fn roll_over(&mut self, current_time: i64)
        ensures
            final(self)@ == old(self)@.rolled_over(current_time),
            old(self)@.distinct() ==> final(self)@.distinct(),
            forall|a: Address| #[trigger]
                final(self)@.transferred_by(a) == carried_over(
                    old(self).current_period_start as int,
                    old(self).period_duration as int,
                    current_time as int,
                    old(self)@.transferred_by(a) as int,
                ),
    {
        proof {
            self@.lemma_rolled_over(current_time);
        }
        match next_period_start(self.current_period_start, self.period_duration, current_time) {
            Some(start) => {
                self.current_period_start = start;
                let mut i: usize = 0;
                while i < self.entries.len()
                    invariant
                        i <= self.entries@.len(),
                        self.entries@.len() == old(self).entries@.len(),
                        self.period_limit == old(self).period_limit,
                        self.period_duration == old(self).period_duration,
                        self.mint == old(self).mint,
                        self.current_period_start == start,
                        forall|j: int|
                            0 <= j < i ==> #[trigger] self.entries@[j] == cleared(
                                old(self).entries@,
                            )[j],
                        forall|j: int|
                            i <= j < self.entries@.len() ==> #[trigger] self.entries@[j] == old(
                                self,
                            ).entries@[j],
                    decreases self.entries@.len() - i,
                {
                    let authority = self.entries[i].authority;
                    self.entries[i] = LimiterEntry { authority, value_transferred: 0 };
                    i = i + 1;
                }
                assert(self.entries@ =~= cleared(old(self).entries@));
            },
            None => {},
        }
    }

    fn check_and_update(&mut self, authority: Option<Address>, amount: u64, current_time: i64) -> (r:
        Result<(), RateLimitError>)
        ensures
            old(self)@.distinct() ==> final(self)@.distinct(),
            authority matches Some(a) ==> {
                &&& final(self)@ == old(self)@.after_transfer(a, amount, current_time)
                &&& r is Ok <==> old(self)@.total_after(a, amount, current_time) <= old(
                    self,
                ).period_limit
                &&& r is Ok ==> forall|b: Address|
                    b != a ==> #[trigger] final(self)@.transferred_by(b) == carried_over(
                        old(self).current_period_start as int,
                        old(self).period_duration as int,
                        current_time as int,
                        old(self)@.transferred_by(b) as int,
                    )
            },
    {
        let a = match authority {
            Some(a) => a,
            None => {
                return Err(RateLimitError::InvalidCheckAndUpdate);
            },
        };
        proof {
            self@.lemma_rolled_over(current_time);
            self@.rolled_over(current_time).lemma_with_count(
                a,
                self@.total_after(a, amount, current_time) as u64,
            );
            lemma_cleared(self.entries@);
        }
        let next = next_period_start(self.current_period_start, self.period_duration, current_time);
        let found = self.entry_index(&a);
        let counted: u64 = match next {
            Some(_) => 0,
            None => match found {
                Some(i) => self.entries[i].value_transferred,
                None => 0,
            },
        };
        let total: u64 = counted.saturating_add(amount);
        if total > self.period_limit {
            return Err(RateLimitError::RateLimitExceeded);
        }
        self.roll_over(current_time);
        let entry = LimiterEntry { authority: a, value_transferred: total };
        match found {
            Some(i) => {
                self.entries[i] = entry;
            },
            None => {
                self.entries.push(entry);
            },
        }
        Ok(())
    }
}

} // verus!
