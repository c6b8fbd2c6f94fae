//! The participant pool: the coordinator-owned map from address to bid.
//!
//! The pool is the only mutable state the coordinator carries between rounds.
//! It is represented as a sequence of entries in registration order with
//! pairwise-distinct addresses; registration order is what makes the ranking's
//! tie-break on equal bids well defined.

use vstd::prelude::*;

use crate::{Address, Bid};

verus! {

/// One pool entry: a registered participant's address and its current bid.
#[derive(Clone, Copy, PartialEq, Eq, Structural, Debug)]
pub struct Entry {
    pub address: Address,
    pub bid: Bid,
}

/// Entries have pairwise-distinct addresses.
pub open spec fn pool_wf(s: Seq<Entry>) -> bool {
    forall|i: int, j: int| 0 <= i < j < s.len() ==> s[i].address != s[j].address
}

/// Some entry carries this address.
pub open spec fn has_addr(s: Seq<Entry>, a: Address) -> bool {
    exists|i: int| 0 <= i < s.len() && s[i].address == a
}

/// The index of the entry carrying this address (unique when `pool_wf` holds).
pub open spec fn idx_of(s: Seq<Entry>, a: Address) -> int {
    choose|i: int| 0 <= i < s.len() && s[i].address == a
}

/// The bid registered for this address.
pub open spec fn bid_of(s: Seq<Entry>, a: Address) -> Bid {
    s[idx_of(s, a)].bid
}

/// In a well-formed pool, `idx_of` is the one index carrying the address.
pub proof fn lemma_idx_of(s: Seq<Entry>, a: Address)
    requires
        pool_wf(s),
        has_addr(s, a),
    ensures
        0 <= idx_of(s, a) < s.len(),
        s[idx_of(s, a)].address == a,
        forall|i: int| 0 <= i < s.len() && s[i].address == a ==> i == idx_of(s, a),
{
    let k = idx_of(s, a);
    assert(0 <= k < s.len() && s[k].address == a);
    assert forall|i: int| 0 <= i < s.len() && s[i].address == a implies i == k by {
        if i != k {
            if i < k {
                assert(s[i].address != s[k].address);
            } else {
                assert(s[k].address != s[i].address);
            }
        }
    }
}

/// The pool after an insert-or-overwrite registration for `address`.
///
/// A re-registration replaces the bid wholesale (last-write-wins) and keeps
/// the entry's position; a new address is appended after all current entries.
pub open spec fn inserted(s: Seq<Entry>, address: Address, bid: Bid) -> Seq<Entry> {
    if has_addr(s, address) {
        s.update(idx_of(s, address), Entry { address, bid })
    } else {
        s.push(Entry { address, bid })
    }
}

/// The pool after evicting `address`; unchanged when it is not present.
pub open spec fn removed(s: Seq<Entry>, address: Address) -> Seq<Entry> {
    if has_addr(s, address) {
        s.remove(idx_of(s, address))
    } else {
        s
    }
}

/// The entries whose address the liveness scan reported live, in pool order.
pub open spec fn retained(s: Seq<Entry>, live: Seq<Address>) -> Seq<Entry>
    decreases s.len(),
{
    if s.len() == 0 {
        Seq::empty()
    } else {
        let rest = retained(s.drop_last(), live);
        if live.contains(s.last().address) {
            rest.push(s.last())
        } else {
            rest
        }
    }
}

/// Pruning keeps exactly the live addresses that were present, with their bids.
pub proof fn lemma_retained_membership(s: Seq<Entry>, live: Seq<Address>)
    ensures
        forall|i: int|
            0 <= i < retained(s, live).len() ==> s.contains(#[trigger] retained(s, live)[i])
                && live.contains(retained(s, live)[i].address),
        forall|i: int|
            0 <= i < s.len() && live.contains(s[i].address) ==> retained(s, live).contains(
                #[trigger] s[i],
            ),
    decreases s.len(),
{
    if s.len() > 0 {
        lemma_retained_membership(s.drop_last(), live);
        let rest = retained(s.drop_last(), live);
        let out = retained(s, live);
        assert forall|i: int| 0 <= i < out.len() implies s.contains(out[i]) && live.contains(
            out[i].address,
        ) by {
            if i < rest.len() {
                assert(s.drop_last().contains(rest[i]));
                let j = choose|j: int| 0 <= j < s.drop_last().len() && s.drop_last()[j] == rest[i];
                assert(s[j] == rest[i]);
            } else {
                assert(out[i] == s.last());
                assert(s[s.len() - 1] == s.last());
            }
        }
        assert forall|i: int| 0 <= i < s.len() && live.contains(s[i].address) implies out.contains(
            s[i],
        ) by {
            if i < s.len() - 1 {
                assert(s.drop_last()[i] == s[i]);
                assert(rest.contains(s[i]));
                let j = choose|j: int| 0 <= j < rest.len() && rest[j] == s[i];
                assert(out[j] == s[i]);
            } else {
                assert(out[out.len() - 1] == s.last());
            }
        }
    }
}

/// Pruning never invents an address: absent or non-live addresses are absent
/// afterwards, and a well-formed pool stays well-formed.
pub proof fn lemma_retained_wf(s: Seq<Entry>, live: Seq<Address>)
    requires
        pool_wf(s),
    ensures
        pool_wf(retained(s, live)),
        forall|a: Address| has_addr(retained(s, live), a) ==> has_addr(s, a) && live.contains(a),
        forall|a: Address| has_addr(s, a) && live.contains(a) ==> has_addr(retained(s, live), a),
    decreases s.len(),
{
    let out = retained(s, live);
    lemma_retained_membership(s, live);
    assert forall|i: int, j: int| 0 <= i < j < out.len() implies out[i].address
        != out[j].address by {
        if s.len() > 0 {
            let rest = retained(s.drop_last(), live);
            assert(pool_wf(s.drop_last())) by {
                assert(forall|i: int| 0 <= i < s.len() - 1 ==> s.drop_last()[i] == s[i]);
            }
            lemma_retained_wf(s.drop_last(), live);
            if j == rest.len() {
                // out[j] is the last entry of s; out[i] came from the front.
                lemma_retained_membership(s.drop_last(), live);
                assert(s.drop_last().contains(rest[i]));
                let m = choose|m: int|
                    0 <= m < s.drop_last().len() && s.drop_last()[m] == rest[i];
                assert(s[m] == rest[i]);
                assert(s[m].address != s[s.len() - 1].address);
            }
        }
    }
    assert forall|a: Address| has_addr(out, a) implies has_addr(s, a) && live.contains(a) by {
        let i = choose|i: int| 0 <= i < out.len() && out[i].address == a;
        assert(s.contains(out[i]));
        let j = choose|j: int| 0 <= j < s.len() && s[j] == out[i];
    }
    assert forall|a: Address| has_addr(s, a) && live.contains(a) implies has_addr(out, a) by {
        let i = choose|i: int| 0 <= i < s.len() && s[i].address == a;
        assert(out.contains(s[i]));
        let j = choose|j: int| 0 <= j < out.len() && out[j] == s[i];
    }
}

/// The coordinator's pool of currently registered participants.
pub struct Pool {
    entries: Vec<Entry>,
}

impl View for Pool {
    type V = Seq<Entry>;

    closed spec fn view(&self) -> Seq<Entry> {
        self.entries@
    }
}

impl Pool {
    /// An empty pool.
    pub fn new() -> (p: Pool)
        ensures
            p@ =~= Seq::<Entry>::empty(),
            pool_wf(p@),
    {
        Pool { entries: Vec::new() }
    }

    /// How many participants are registered.
    pub fn len(&self) -> (n: usize)
        ensures
            n == self@.len(),
    {
        self.entries.len()
    }

    /// Whether the pool has no participants (the coordinator's idle state).
    pub fn is_empty(&self) -> (b: bool)
        ensures
            b <==> self@.len() == 0,
    {
        self.entries.len() == 0
    }

    /// The entry at a position, in registration order.
    pub fn entry_at(&self, i: usize) -> (e: Entry)
        requires
            i < self@.len(),
        ensures
            e == self@[i as int],
    {
        self.entries[i]
    }

    /// The position of the entry for `address`, if one is registered.
    fn find_index(&self, address: Address) -> (r: Option<usize>)
        ensures
            match r {
                Some(i) => i < self@.len() && self@[i as int].address == address,
                None => !has_addr(self@, address),
            },
    {
        let n = self.entries.len();
        let mut i: usize = 0;
        while i < n
            invariant
                n == self@.len(),
                i <= n,
                forall|j: int| 0 <= j < i ==> self@[j].address != address,
            decreases n - i,
        {
            if self.entries[i].address == address {
                return Some(i);
            }
            i = i + 1;
        }
        None
    }

    /// Whether `address` is registered.
    pub fn contains(&self, address: Address) -> (b: bool)
        ensures
            b == has_addr(self@, address),
    {
        match self.find_index(address) {
            Some(_) => true,
            None => false,
        }
    }

    /// The bid registered for `address`, if it is present.
    pub fn bid(&self, address: Address) -> (r: Option<Bid>)
        requires
            pool_wf(self@),
        ensures
            match r {
                Some(b) => has_addr(self@, address) && b == bid_of(self@, address),
                None => !has_addr(self@, address),
            },
    {
        match self.find_index(address) {
            Some(i) => {
                proof {
                    lemma_idx_of(self@, address);
                }
                Some(self.entries[i].bid)
            },
            None => None,
        }
    }

    /// Insert-or-overwrite the entry for `address` (last-write-wins).
    pub fn insert(&mut self, address: Address, bid: Bid)
        requires
            pool_wf(old(self)@),
        ensures
            final(self)@ == inserted(old(self)@, address, bid),
            pool_wf(final(self)@),
            has_addr(final(self)@, address),
            bid_of(final(self)@, address) == bid,
            forall|b: Address| b != address ==> (has_addr(final(self)@, b) <==> has_addr(old(self)@, b)),
            forall|b: Address|
                b != address && has_addr(old(self)@, b) ==> bid_of(final(self)@, b) == bid_of(
                    old(self)@,
                    b,
                ),
    {
        let ghost s0 = self@;
        let e = Entry { address, bid };
        match self.find_index(address) {
            Some(i) => {
                proof {
                    lemma_idx_of(s0, address);
                }
                self.entries[i] = e;
                proof {
                    lemma_insert_overwrite_post(s0, self@, address, bid);
                }
            },
            None => {
                self.entries.push(e);
                proof {
                    lemma_insert_fresh_post(s0, self@, address, bid);
                }
            },
        }
    }

    /// Evict the entry for `address`, if one is registered.
    pub fn remove(&mut self, address: Address)
        requires
            pool_wf(old(self)@),
        ensures
            final(self)@ == removed(old(self)@, address),
            pool_wf(final(self)@),
            !has_addr(final(self)@, address),
            forall|b: Address| b != address ==> (has_addr(final(self)@, b) <==> has_addr(old(self)@, b)),
            forall|b: Address|
                b != address && has_addr(old(self)@, b) ==> bid_of(final(self)@, b) == bid_of(
                    old(self)@,
                    b,
                ),
    {
        let ghost s0 = self@;
        match self.find_index(address) {
            Some(i) => {
                proof {
                    lemma_idx_of(s0, address);
                }
                self.entries.remove(i);
                proof {
                    lemma_remove_post(s0, self@, address);
                }
            },
            None => {},
        }
    }

    /// Keep exactly the entries whose address the liveness scan reported live.
    pub fn retain_live(&mut self, live: &Vec<Address>)
        requires
            pool_wf(old(self)@),
        ensures
            final(self)@ == retained(old(self)@, live@),
            pool_wf(final(self)@),
    {
        let ghost s0 = self@;
        let n = self.entries.len();
        let mut out: Vec<Entry> = Vec::new();
        let mut i: usize = 0;
        while i < n
            invariant
                n == s0.len(),
                i <= n,
                self@ == s0,
                out@ == retained(s0.subrange(0, i as int), live@),
            decreases n - i,
        {
            let e = self.entries[i];
            proof {
                let pre = s0.subrange(0, i as int);
                let cur = s0.subrange(0, i + 1 as int);
                assert(cur.drop_last() =~= pre);
                assert(cur.last() == s0[i as int]);
            }
            if addr_in(live, e.address) {
                out.push(e);
            }
            i = i + 1;
        }
        proof {
            assert(s0.subrange(0, n as int) =~= s0);
        }
        self.entries = out;
        proof {
            lemma_retained_wf(s0, live@);
        }
    }
}

/// Whether the slice of live addresses holds `a`.
fn addr_in(live: &Vec<Address>, a: Address) -> (b: bool)
    ensures
        b == live@.contains(a),
{
    let n = live.len();
    let mut i: usize = 0;
    while i < n
        invariant
            n == live@.len(),
            i <= n,
            forall|j: int| 0 <= j < i ==> live@[j] != a,
        decreases n - i,
    {
        if live[i] == a {
            return true;
        }
        i = i + 1;
    }
    false
}

/// After overwriting the entry at `idx_of(s0, address)` with the new bid.
proof fn lemma_insert_overwrite_post(s0: Seq<Entry>, s1: Seq<Entry>, address: Address, bid: Bid)
    requires
        pool_wf(s0),
        has_addr(s0, address),
        s1 == s0.update(idx_of(s0, address), Entry { address, bid }),
    ensures
        s1 == inserted(s0, address, bid),
        pool_wf(s1),
        has_addr(s1, address),
        bid_of(s1, address) == bid,
        forall|b: Address| b != address ==> (has_addr(s1, b) <==> has_addr(s0, b)),
        forall|b: Address| b != address && has_addr(s0, b) ==> bid_of(s1, b) == bid_of(s0, b),
{
    lemma_idx_of(s0, address);
    let k = idx_of(s0, address);
    assert(forall|i: int| 0 <= i < s1.len() ==> s1[i].address == s0[i].address);
    assert(pool_wf(s1));
    assert(s1[k].address == address);
    lemma_idx_of(s1, address);
    assert(idx_of(s1, address) == k);
    assert forall|b: Address| b != address implies (has_addr(s1, b) <==> has_addr(s0, b)) by {
        if has_addr(s1, b) {
            let i = choose|i: int| 0 <= i < s1.len() && s1[i].address == b;
            assert(s0[i].address == b);
        }
        if has_addr(s0, b) {
            let i = choose|i: int| 0 <= i < s0.len() && s0[i].address == b;
            assert(s1[i].address == b);
        }
    }
    assert forall|b: Address| b != address && has_addr(s0, b) implies bid_of(s1, b) == bid_of(
        s0,
        b,
    ) by {
        lemma_idx_of(s0, b);
        lemma_idx_of(s1, b);
        let i = idx_of(s0, b);
        assert(s1[i].address == b);
        assert(idx_of(s1, b) == i);
        assert(i != k);
    }
}

/// After appending a fresh entry for a previously absent address.
proof fn lemma_insert_fresh_post(s0: Seq<Entry>, s1: Seq<Entry>, address: Address, bid: Bid)
    requires
        pool_wf(s0),
        !has_addr(s0, address),
        s1 == s0.push(Entry { address, bid }),
    ensures
        s1 == inserted(s0, address, bid),
        pool_wf(s1),
        has_addr(s1, address),
        bid_of(s1, address) == bid,
        forall|b: Address| b != address ==> (has_addr(s1, b) <==> has_addr(s0, b)),
        forall|b: Address| b != address && has_addr(s0, b) ==> bid_of(s1, b) == bid_of(s0, b),
{
    let k = s0.len() as int;
    assert(s1[k].address == address);
    assert(forall|i: int| 0 <= i < s0.len() ==> s1[i] == s0[i]);
    assert forall|i: int, j: int| 0 <= i < j < s1.len() implies s1[i].address != s1[j].address by {
        if j == k {
            assert(s0[i].address != address);
        }
    }
    lemma_idx_of(s1, address);
    assert(idx_of(s1, address) == k);
    assert forall|b: Address| b != address && has_addr(s0, b) implies bid_of(s1, b) == bid_of(
        s0,
        b,
    ) by {
        lemma_idx_of(s0, b);
        lemma_idx_of(s1, b);
        let i = idx_of(s0, b);
        assert(s1[i].address == b);
        assert(idx_of(s1, b) == i);
    }
}

/// After removing the entry at `idx_of(s0, address)`.
proof fn lemma_remove_post(s0: Seq<Entry>, s1: Seq<Entry>, address: Address)
    requires
        pool_wf(s0),
        has_addr(s0, address),
        s1 == s0.remove(idx_of(s0, address)),
    ensures
        s1 == removed(s0, address),
        pool_wf(s1),
        !has_addr(s1, address),
        forall|b: Address| b != address ==> (has_addr(s1, b) <==> has_addr(s0, b)),
        forall|b: Address| b != address && has_addr(s0, b) ==> bid_of(s1, b) == bid_of(s0, b),
{
    lemma_idx_of(s0, address);
    let k = idx_of(s0, address);
    s0.remove_ensures(k);
    assert forall|i: int, j: int| 0 <= i < j < s1.len() implies s1[i].address != s1[j].address by {
        let i0: int = if i < k { i } else { i + 1 };
        let j0: int = if j < k { j } else { j + 1 };
        assert(s1[i] == s0[i0]);
        assert(s1[j] == s0[j0]);
    }
    assert forall|i: int| 0 <= i < s1.len() implies s1[i].address != address by {
        let i0: int = if i < k { i } else { i + 1 };
        assert(s1[i] == s0[i0]);
        assert(i0 != k);
    }
    assert forall|b: Address| b != address implies (has_addr(s1, b) <==> has_addr(s0, b)) by {
        if has_addr(s1, b) {
            let i = choose|i: int| 0 <= i < s1.len() && s1[i].address == b;
            let i0: int = if i < k { i } else { i + 1 };
            assert(s1[i] == s0[i0]);
        }
        if has_addr(s0, b) {
            let i = choose|i: int| 0 <= i < s0.len() && s0[i].address == b;
            assert(i != k);
            let i1: int = if i < k { i } else { i - 1 };
            assert(s1[i1] == s0[i]);
        }
    }
    assert forall|b: Address| b != address && has_addr(s0, b) implies bid_of(s1, b) == bid_of(
        s0,
        b,
    ) by {
        lemma_idx_of(s0, b);
        lemma_idx_of(s1, b);
        let i = idx_of(s0, b);
        assert(i != k);
        let i1: int = if i < k { i } else { i - 1 };
        assert(s1[i1] == s0[i]);
        assert(idx_of(s1, b) == i1);
    }
}

} // verus!
