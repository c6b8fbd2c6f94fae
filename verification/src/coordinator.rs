//! The coordinator: pool ownership, registration handling, round planning.
//!
//! Exactly one task owns a `Coordinator`. Each round it drains the
//! registration queue into the pool, prunes non-live entries, ranks the rest
//! ascending by bid, notifies everyone of its position, runs one contribution
//! session against the lowest-bid participant, and removes that participant
//! from the pool whatever the session's outcome. The suspending work — the
//! channel, the connections, storage, the deadline timer — happens outside;
//! this module takes the reported events and decides what follows.

use vstd::prelude::*;

use crate::pool::{
    bid_of, has_addr, inserted, pool_wf, removed, retained, lemma_retained_wf, Pool,
};
use crate::ranking::{rank_addresses, rank_post};
use crate::{Address, Bid};

verus! {

/// How long a contribution session may run before it is abandoned: ten
/// minutes.
pub const CONTRIBUTION_TIME_SECS: u64 = 10 * 60;

/// The conditions that terminate the coordinator.
#[derive(Clone, Copy, PartialEq, Eq, Debug)]
pub enum FatalError {
    /// The registration source closed permanently; no participant can ever
    /// arrive again.
    ChannelClosed,
    /// Durable chain state could not be read or written.
    StorageError,
}

/// What the registration queue reported.
#[derive(Clone, Copy, PartialEq, Eq, Debug)]
pub enum QueueEvent {
    /// A participant registered with this bid.
    Received { address: Address, bid: Bid },
    /// The queue is currently empty (only reported by a non-blocking drain).
    Empty,
    /// The queue was closed permanently.
    Closed,
}

/// What the coordinator decides on a queue report.
#[derive(Clone, Copy, PartialEq, Eq, Debug)]
pub enum QueueDecision {
    /// The registration was admitted into the pool; keep draining.
    Admitted,
    /// Nothing is pending; proceed with the round.
    Proceed,
    /// The coordinator must terminate.
    Fatal { error: FatalError },
}

/// One status message owed to a ranked participant: its zero-based rank, the
/// total ranked count, the selected contributor's bid and its own bid.
#[derive(Clone, Copy, PartialEq, Eq, Debug)]
pub struct StatusMessage {
    pub address: Address,
    pub rank: u64,
    pub total: u64,
    pub contributor_bid: Bid,
    pub bid: Bid,
}

/// The coordinator's state between events: the pool it exclusively owns.
pub struct Coordinator {
    /// The participants currently known, with their bids.
    pub pool: Pool,
}

/// Seeds a coordinator with participants known before the loop starts,
/// with the same insert-or-overwrite semantics as a live registration.
pub struct Builder {
    pool: Pool,
}

impl View for Builder {
    type V = Seq<crate::pool::Entry>;

    closed spec fn view(&self) -> Seq<crate::pool::Entry> {
        self.pool@
    }
}

impl Builder {
    /// Start from an empty pool.
    pub fn new() -> (b: Builder)
        ensures
            b@ =~= Seq::<crate::pool::Entry>::empty(),
            pool_wf(b@),
    {
        Builder { pool: Pool::new() }
    }

    /// Record a registration; a repeated address replaces its bid wholesale.
    pub fn register(&mut self, address: Address, bid: Bid)
        requires
            pool_wf(old(self)@),
        ensures
            final(self)@ == inserted(old(self)@, address, bid),
            pool_wf(final(self)@),
            has_addr(final(self)@, address),
            bid_of(final(self)@, address) == bid,
    {
        self.pool.insert(address, bid);
    }

    /// Hand the seeded pool to a coordinator.
    pub fn build(self) -> (c: Coordinator)
        ensures
            c.pool@ == self@,
    {
        Coordinator { pool: self.pool }
    }
}

/// The pool invariant across a round: every address found in the pool after
/// the liveness prune and a subsequent admission either passed the liveness
/// check or is the address that was inserted after it.
pub proof fn lemma_round_pool_invariant(
    s: Seq<crate::pool::Entry>,
    live: Seq<Address>,
    address: Address,
    bid: Bid,
    a: Address,
)
    requires
        pool_wf(s),
        has_addr(inserted(retained(s, live), address, bid), a),
    ensures
        a == address || (has_addr(s, a) && live.contains(a)),
{
    let pruned = retained(s, live);
    lemma_retained_wf(s, live);
    if a != address {
        let t = inserted(pruned, address, bid);
        let i = choose|i: int| 0 <= i < t.len() && t[i].address == a;
        if has_addr(pruned, address) {
            crate::pool::lemma_idx_of(pruned, address);
            assert(pruned[i].address == a);
        } else {
            if i < pruned.len() {
                assert(pruned[i] == t[i]);
            } else {
                assert(t[i].address == address);
            }
        }
        assert(has_addr(pruned, a));
    }
}

impl Coordinator {
    /// A coordinator with an empty pool, in the idle state.
    pub fn new() -> (c: Coordinator)
        ensures
            c.pool@ =~= Seq::<crate::pool::Entry>::empty(),
            pool_wf(c.pool@),
    {
        Coordinator { pool: Pool::new() }
    }

    /// Whether the coordinator is idle: with an empty pool it must block for
    /// the first registration instead of proceeding with a round.
    pub fn is_idle(&self) -> (b: bool)
        ensures
            b <==> self.pool@.len() == 0,
    {
        self.pool.is_empty()
    }

    /// Decide on one registration-queue report. A received registration is
    /// admitted insert-or-overwrite; an empty queue lets the round proceed; a
    /// closed queue is fatal, whether observed while blocked or mid-drain.
    pub fn on_queue_event(&mut self, e: QueueEvent) -> (d: QueueDecision)
        requires
            pool_wf(old(self).pool@),
        ensures
            pool_wf(final(self).pool@),
            match e {
                QueueEvent::Received { address, bid } => final(self).pool@ == inserted(
                    old(self).pool@,
                    address,
                    bid,
                ) && d == QueueDecision::Admitted,
                QueueEvent::Empty => final(self).pool@ == old(self).pool@ && d
                    == QueueDecision::Proceed,
                QueueEvent::Closed => final(self).pool@ == old(self).pool@ && d
                    == (QueueDecision::Fatal { error: FatalError::ChannelClosed }),
            },
    {
        match e {
            QueueEvent::Received { address, bid } => {
                self.pool.insert(address, bid);
                QueueDecision::Admitted
            },
            QueueEvent::Empty => QueueDecision::Proceed,
            QueueEvent::Closed => QueueDecision::Fatal { error: FatalError::ChannelClosed },
        }
    }

    /// Drop every entry whose address the liveness scan did not report live.
    /// A participant reported non-live is absent immediately afterwards,
    /// whatever its bid.
    pub fn prune_participants(&mut self, live: &Vec<Address>)
        requires
            pool_wf(old(self).pool@),
        ensures
            final(self).pool@ == retained(old(self).pool@, live@),
            pool_wf(final(self).pool@),
            forall|a: Address| !live@.contains(a) ==> !has_addr(final(self).pool@, a),
            forall|a: Address|
                has_addr(old(self).pool@, a) && live@.contains(a) ==> has_addr(
                    final(self).pool@,
                    a,
                ),
    {
        self.pool.retain_live(live);
        proof {
            lemma_retained_wf(old(self).pool@, live@);
        }
    }

    /// Rank the pool's addresses ascending by bid, ties by registration
    /// order. An empty result means the round must restart.
    pub fn score_participants(&self) -> (r: Vec<Address>)
        requires
            pool_wf(self.pool@),
        ensures
            rank_post(self.pool@, r@),
    {
        rank_addresses(&self.pool)
    }

    /// The next contributor is always the ranked sequence's first address:
    /// the lowest-bid live participant of this round's snapshot.
    pub fn select_contributor(&self, ranked: &Vec<Address>) -> (r: Option<Address>)
        ensures
            match r {
                Some(a) => ranked@.len() > 0 && a == ranked@[0],
                None => ranked@.len() == 0,
            },
    {
        if ranked.len() > 0 {
            Some(ranked[0])
        } else {
            None
        }
    }

    /// The status message owed to every ranked participant, in rank order:
    /// its zero-based rank, the ranked total, the selected contributor's bid
    /// and its own bid.
    pub fn status_messages(&self, ranked: &Vec<Address>, contributor_bid: Bid) -> (msgs: Vec<
        StatusMessage,
    >)
        requires
            pool_wf(self.pool@),
            forall|i: int| 0 <= i < ranked@.len() ==> has_addr(self.pool@, ranked@[i]),
        ensures
            msgs@.len() == ranked@.len(),
            forall|i: int|
                0 <= i < msgs@.len() ==> msgs@[i] == (StatusMessage {
                    address: ranked@[i],
                    rank: i as u64,
                    total: ranked@.len() as u64,
                    contributor_bid,
                    bid: bid_of(self.pool@, ranked@[i]),
                }),
    {
        let n = ranked.len();
        let total = n as u64;
        let mut msgs: Vec<StatusMessage> = Vec::new();
        let mut i: usize = 0;
        while i < n
            invariant
                pool_wf(self.pool@),
                n == ranked@.len(),
                total == n as u64,
                i <= n,
                forall|j: int| 0 <= j < ranked@.len() ==> has_addr(self.pool@, ranked@[j]),
                msgs@.len() == i,
                forall|j: int|
                    0 <= j < i ==> msgs@[j] == (StatusMessage {
                        address: ranked@[j],
                        rank: j as u64,
                        total: ranked@.len() as u64,
                        contributor_bid,
                        bid: bid_of(self.pool@, ranked@[j]),
                    }),
            decreases n - i,
        {
            let a = ranked[i];
            let own_bid = match self.pool.bid(a) {
                Some(b) => b,
                None => 0,
            };
            msgs.push(
                StatusMessage { address: a, rank: i as u64, total, contributor_bid, bid: own_bid },
            );
            i = i + 1;
        }
        msgs
    }

    /// Evict a participant: on a failed notification delivery, and
    /// unconditionally for the selected contributor when its session ends,
    /// whether it Confirmed, Declined, was Struck or timed out. The address
    /// is absent from the pool of the next round.
    pub fn remove_participant(&mut self, address: Address)
        requires
            pool_wf(old(self).pool@),
        ensures
            final(self).pool@ == removed(old(self).pool@, address),
            pool_wf(final(self).pool@),
            !has_addr(final(self).pool@, address),
            forall|b: Address|
                b != address ==> (has_addr(final(self).pool@, b) <==> has_addr(
                    old(self).pool@,
                    b,
                )),
            forall|b: Address|
                b != address && has_addr(old(self).pool@, b) ==> bid_of(final(self).pool@, b)
                    == bid_of(old(self).pool@, b),
    {
        self.pool.remove(address);
    }
}

} // verus!
