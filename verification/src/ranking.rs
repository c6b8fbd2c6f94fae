//! Ranking: total-orders a pool snapshot by ascending bid.
//!
//! The rank is a pure function of the pool. Ties on equal bids are broken by
//! registration order, so the order is strict and the lowest-bid participant
//! always stands at position zero.

use vstd::prelude::*;

use crate::pool::{bid_of, has_addr, idx_of, lemma_idx_of, pool_wf, Entry, Pool};
use crate::{Address, Bid};

verus! {

/// `a` ranks strictly before `b`: a lower bid, or the same bid registered
/// earlier.
pub open spec fn rank_before(s: Seq<Entry>, a: Address, b: Address) -> bool {
    ||| bid_of(s, a) < bid_of(s, b)
    ||| (bid_of(s, a) == bid_of(s, b) && idx_of(s, a) < idx_of(s, b))
}

/// What the ranking returns: every pooled address exactly once, in strictly
/// ascending rank order.
pub open spec fn rank_post(s: Seq<Entry>, r: Seq<Address>) -> bool {
    &&& r.len() == s.len()
    &&& forall|a: Address| r.contains(a) <==> has_addr(s, a)
    &&& forall|i: int, j: int| 0 <= i < j < r.len() ==> rank_before(s, r[i], r[j])
}

/// No two entries carry the same bid.
pub open spec fn distinct_bids(s: Seq<Entry>) -> bool {
    forall|i: int, j: int| 0 <= i < j < s.len() ==> s[i].bid != s[j].bid
}

/// A pool entry paired with the position it was read from.
#[derive(Clone, Copy)]
struct Keyed {
    address: Address,
    bid: Bid,
    idx: usize,
}

/// The keyed record faithfully mirrors the pool entry at its position.
spec fn keyed_ok(s: Seq<Entry>, k: Keyed) -> bool {
    k.idx < s.len() && s[k.idx as int] == (Entry { address: k.address, bid: k.bid })
}

/// Strict sort order on keyed records: bid first, then pool position.
spec fn key_lt(a: Keyed, b: Keyed) -> bool {
    ||| a.bid < b.bid
    ||| (a.bid == b.bid && a.idx < b.idx)
}

/// Some keyed record in the sequence was read from pool position `m`.
spec fn covers(ks: Seq<Keyed>, m: int) -> bool {
    exists|p: int| 0 <= p < ks.len() && (#[trigger] ks[p]).idx == m
}

fn key_lt_exec(a: Keyed, b: Keyed) -> (r: bool)
    ensures
        r == key_lt(a, b),
{
    a.bid < b.bid || (a.bid == b.bid && a.idx < b.idx)
}

/// A faithful keyed record names the address, bid and position of one entry.
proof fn lemma_keyed_resolves(s: Seq<Entry>, k: Keyed)
    requires
        pool_wf(s),
        keyed_ok(s, k),
    ensures
        has_addr(s, k.address),
        idx_of(s, k.address) == k.idx,
        bid_of(s, k.address) == k.bid,
{
    assert(s[k.idx as int].address == k.address);
    lemma_idx_of(s, k.address);
}

/// Order the pool's addresses ascending by bid, ties by registration order.
pub fn rank_addresses(pool: &Pool) -> (r: Vec<Address>)
    requires
        pool_wf(pool@),
    ensures
        rank_post(pool@, r@),
{
    let ghost s = pool@;
    let n = pool.len();
    let mut sorted: Vec<Keyed> = Vec::new();
    let mut i: usize = 0;
    while i < n
        invariant
            pool_wf(s),
            s == pool@,
            n == s.len(),
            i <= n,
            sorted@.len() == i,
            forall|m: int|
                0 <= m < sorted@.len() ==> keyed_ok(s, #[trigger] sorted@[m]) && sorted@[m].idx
                    < i,
            forall|m: int| 0 <= m < i ==> covers(sorted@, m),
            forall|m: int, p: int| 0 <= m < p < sorted@.len() ==> key_lt(sorted@[m], sorted@[p]),
        decreases n - i,
    {
        let e = pool.entry_at(i);
        let k = Keyed { address: e.address, bid: e.bid, idx: i };
        let mut p: usize = 0;
        while p < sorted.len() && key_lt_exec(sorted[p], k)
            invariant
                p <= sorted@.len(),
                forall|m: int| 0 <= m < p ==> key_lt(#[trigger] sorted@[m], k),
            decreases sorted@.len() - p,
        {
            p = p + 1;
        }
        let ghost before = sorted@;
        sorted.insert(p, k);
        proof {
            before.insert_ensures(p as int, k);
            assert forall|m: int| 0 <= m < sorted@.len() implies keyed_ok(
                s,
                #[trigger] sorted@[m],
            ) && sorted@[m].idx < i + 1 by {
                if m < p {
                    assert(sorted@[m] == before[m]);
                } else if m == p {
                    assert(sorted@[m] == k);
                } else {
                    assert(sorted@[m] == before[m - 1]);
                }
            }
            assert forall|m: int| 0 <= m < i + 1 implies covers(sorted@, m) by {
                if m == i {
                    assert(sorted@[p as int].idx == m);
                } else {
                    assert(covers(before, m));
                    let q0 = choose|q0: int| 0 <= q0 < before.len() && (#[trigger] before[q0]).idx
                        == m;
                    if q0 < p {
                        assert(sorted@[q0].idx == m);
                    } else {
                        assert(sorted@[q0 + 1] == before[q0]);
                        assert(sorted@[q0 + 1].idx == m);
                    }
                }
            }
            assert forall|m: int, q: int| 0 <= m < q < sorted@.len() implies key_lt(
                sorted@[m],
                sorted@[q],
            ) by {
                if (p as int) < sorted@.len() - 1 {
                    // The record displaced to position p + 1 sorts after k:
                    // it is distinct from k (its pool position is older) and
                    // the scan stopped before it.
                    assert(sorted@[p + 1] == before[p as int]);
                    assert(!key_lt(before[p as int], k));
                    assert(before[p as int].idx < i);
                    assert(key_lt(k, before[p as int]));
                }
                if q < p {
                    assert(sorted@[m] == before[m] && sorted@[q] == before[q]);
                    assert(key_lt(before[m], before[q]));
                } else if q == p {
                    assert(sorted@[m] == before[m] && sorted@[q] == k);
                    assert(key_lt(before[m], k));
                } else {
                    assert(sorted@[q] == before[q - 1]);
                    if m < p {
                        assert(sorted@[m] == before[m]);
                        if m < q - 1 {
                            assert(key_lt(before[m], before[q - 1]));
                        } else {
                            assert(key_lt(before[m], k));
                        }
                    } else if m == p {
                        assert(sorted@[m] == k);
                        if q == p + 1 {
                            assert(key_lt(k, before[p as int]));
                        } else {
                            assert(key_lt(before[p as int], before[q - 1]));
                            assert(key_lt(k, before[q - 1]));
                        }
                    } else {
                        assert(sorted@[m] == before[m - 1]);
                        assert(key_lt(before[m - 1], before[q - 1]));
                    }
                }
            }
        }
        i = i + 1;
    }
    let mut r: Vec<Address> = Vec::new();
    let mut t: usize = 0;
    while t < sorted.len()
        invariant
            r@.len() == t,
            t <= sorted@.len(),
            forall|m: int| 0 <= m < t ==> r@[m] == (#[trigger] sorted@[m]).address,
        decreases sorted@.len() - t,
    {
        let k = sorted[t];
        r.push(k.address);
        t = t + 1;
    }
    proof {
        assert(r@.len() == s.len());
        assert forall|i0: int, j0: int| 0 <= i0 < j0 < r@.len() implies rank_before(
            s,
            r@[i0],
            r@[j0],
        ) by {
            lemma_keyed_resolves(s, sorted@[i0]);
            lemma_keyed_resolves(s, sorted@[j0]);
            assert(key_lt(sorted@[i0], sorted@[j0]));
        }
        assert forall|a: Address| r@.contains(a) implies has_addr(s, a) by {
            let m = choose|m: int| 0 <= m < r@.len() && r@[m] == a;
            lemma_keyed_resolves(s, sorted@[m]);
        }
        assert forall|a: Address| has_addr(s, a) implies r@.contains(a) by {
            let i0 = choose|i0: int| 0 <= i0 < s.len() && s[i0].address == a;
            assert(covers(sorted@, i0));
            let p = choose|p: int| 0 <= p < sorted@.len() && (#[trigger] sorted@[p]).idx == i0;
            assert(keyed_ok(s, sorted@[p]));
            assert(s[i0].address == sorted@[p].address);
            assert(r@[p] == a);
        }
    }
    r
}

/// For a pool with pairwise-distinct bids, the ranking is a permutation of the
/// pool's addresses in strictly ascending bid order.
pub proof fn lemma_rank_strictly_ascending(s: Seq<Entry>, r: Seq<Address>)
    requires
        pool_wf(s),
        distinct_bids(s),
        rank_post(s, r),
    ensures
        r.len() == s.len(),
        forall|a: Address| r.contains(a) <==> has_addr(s, a),
        forall|i: int, j: int| 0 <= i < j < r.len() ==> r[i] != r[j],
        forall|i: int, j: int| 0 <= i < j < r.len() ==> bid_of(s, r[i]) < bid_of(s, r[j]),
{
    assert forall|i: int, j: int| 0 <= i < j < r.len() implies r[i] != r[j] && bid_of(s, r[i])
        < bid_of(s, r[j]) by {
        assert(r.contains(r[i]));
        assert(r.contains(r[j]));
        lemma_idx_of(s, r[i]);
        lemma_idx_of(s, r[j]);
        let ki = idx_of(s, r[i]);
        let kj = idx_of(s, r[j]);
        assert(rank_before(s, r[i], r[j]));
        if ki != kj {
            if ki < kj {
                assert(s[ki].bid != s[kj].bid);
            } else {
                assert(s[kj].bid != s[ki].bid);
            }
        }
    }
}

} // verus!
