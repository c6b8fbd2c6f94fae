//! Round-level behaviour: registration, pruning, ranking and notification.

use summonerd::coordinator::{
    Builder, Coordinator, FatalError, QueueDecision, QueueEvent, StatusMessage,
};

fn seeded(entries: &[(u64, u128)]) -> Coordinator {
    let mut b = Builder::new();
    for &(address, bid) in entries {
        b.register(address, bid);
    }
    b.build()
}

#[test]
fn ranker_ascending_on_distinct_bids() {
    let c = seeded(&[(1, 5), (2, 2), (3, 8)]);
    let ranked = c.score_participants();
    assert_eq!(ranked, vec![2, 1, 3]);
    let mut last: Option<u128> = None;
    for a in &ranked {
        let bid = c.pool.bid(*a).unwrap();
        if let Some(prev) = last {
            assert!(prev < bid);
        }
        last = Some(bid);
    }
}

#[test]
fn ranker_empty_pool_yields_empty_sequence() {
    let c = Coordinator::new();
    assert!(c.score_participants().is_empty());
    assert_eq!(c.select_contributor(&Vec::new()), None);
}

#[test]
fn ranker_equal_bids_keep_registration_order() {
    let c = seeded(&[(10, 5), (20, 5), (30, 5)]);
    assert_eq!(c.score_participants(), vec![10, 20, 30]);
}

#[test]
fn pruning_removes_non_live_regardless_of_bid() {
    let mut c = seeded(&[(1, 1), (2, 1000), (3, 7)]);
    // Only 2 and 3 report live; 1 has the best bid but must go.
    c.prune_participants(&vec![2, 3]);
    assert!(!c.pool.contains(1));
    assert!(c.pool.contains(2));
    assert!(c.pool.contains(3));
    assert_eq!(c.pool.len(), 2);
}

#[test]
fn pruning_may_remove_nothing() {
    let mut c = seeded(&[(1, 1), (2, 2)]);
    c.prune_participants(&vec![1, 2]);
    assert_eq!(c.pool.len(), 2);
}

#[test]
fn re_registration_is_last_write_wins() {
    let mut c = seeded(&[(1, 5)]);
    assert_eq!(c.on_queue_event(QueueEvent::Received { address: 1, bid: 3 }), QueueDecision::Admitted);
    assert_eq!(c.pool.len(), 1);
    assert_eq!(c.pool.bid(1), Some(3));
}

#[test]
fn queue_closed_is_fatal_channel_closed() {
    // Registration source closes while the loop is blocked on an empty pool.
    let mut c = Coordinator::new();
    assert!(c.is_idle());
    let d = c.on_queue_event(QueueEvent::Closed);
    assert_eq!(d, QueueDecision::Fatal { error: FatalError::ChannelClosed });
}

#[test]
fn queue_closed_mid_drain_is_fatal_too() {
    let mut c = seeded(&[(1, 5)]);
    assert!(!c.is_idle());
    let d = c.on_queue_event(QueueEvent::Closed);
    assert_eq!(d, QueueDecision::Fatal { error: FatalError::ChannelClosed });
}

#[test]
fn queue_empty_lets_the_round_proceed() {
    let mut c = seeded(&[(1, 5)]);
    assert_eq!(c.on_queue_event(QueueEvent::Empty), QueueDecision::Proceed);
    assert_eq!(c.pool.len(), 1);
}

#[test]
fn status_messages_carry_rank_total_and_bids() {
    // Pool = {A: bid 5, B: bid 2, C: bid 8} with A = 1, B = 2, C = 3.
    let c = seeded(&[(1, 5), (2, 2), (3, 8)]);
    let ranked = c.score_participants();
    assert_eq!(ranked, vec![2, 1, 3]);
    let contributor = c.select_contributor(&ranked).unwrap();
    assert_eq!(contributor, 2);
    let contributor_bid = c.pool.bid(contributor).unwrap();
    assert_eq!(contributor_bid, 2);
    let msgs = c.status_messages(&ranked, contributor_bid);
    assert_eq!(msgs.len(), 3);
    assert_eq!(
        msgs[0],
        StatusMessage { address: 2, rank: 0, total: 3, contributor_bid: 2, bid: 2 }
    );
    assert_eq!(
        msgs[1],
        StatusMessage { address: 1, rank: 1, total: 3, contributor_bid: 2, bid: 5 }
    );
    assert_eq!(
        msgs[2],
        StatusMessage { address: 3, rank: 2, total: 3, contributor_bid: 2, bid: 8 }
    );
}

#[test]
fn notify_failure_evicts_without_aborting_the_round() {
    let mut c = seeded(&[(1, 5), (2, 2), (3, 8)]);
    // Delivery to 3 failed: evict it; the others stay.
    c.remove_participant(3);
    assert!(!c.pool.contains(3));
    assert!(c.pool.contains(1));
    assert!(c.pool.contains(2));
}

#[test]
fn builder_seeds_and_coordinator_starts_active() {
    let c = seeded(&[(4, 9)]);
    assert!(!c.is_idle());
    assert_eq!(c.pool.bid(4), Some(9));
    let empty = Builder::new().build();
    assert!(empty.is_idle());
}
