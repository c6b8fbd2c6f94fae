//! Session-level behaviour: the contribution protocol's outcomes.

use summonerd::coordinator::Builder;
use summonerd::session::{Action, Event, Outcome, Phase, Session};

/// Drive a session that commits, against a toy storage whose parent advances
/// with every commit. Returns the slot assigned and the parent the linkage
/// was checked against.
fn run_confirmed_session(
    contributor: u64,
    storage_parent: &mut u64,
    storage_slot: &mut u64,
) -> (u64, u64) {
    let fetched_parent = *storage_parent;
    let (mut s, first) = Session::begin(contributor, fetched_parent);
    assert_eq!(first, Action::RequestContribution { parent: fetched_parent });
    let a = s.step(Event::Responded { payload: Some(41) });
    assert_eq!(a, Action::Validate { payload: 41 });
    let a = s.step(Event::Validated { contribution: Some(42) });
    let linked_parent = match a {
        Action::CheckLinkage { contribution, parent } => {
            assert_eq!(contribution, 42);
            parent
        }
        other => panic!("expected a linkage check, got {:?}", other),
    };
    let a = s.step(Event::LinkageChecked { linked: true });
    assert_eq!(a, Action::Commit { contributor, contribution: 42 });
    // Storage assigns the next slot and the committed contribution becomes
    // the new parent.
    *storage_slot += 1;
    *storage_parent += 1;
    let a = s.step(Event::Committed { slot: *storage_slot });
    assert_eq!(a, Action::Confirm { slot: *storage_slot });
    let a = s.step(Event::ConfirmDelivered { ok: true });
    assert_eq!(a, Action::Ignored);
    assert_eq!(s.outcome(), Some(Outcome::Confirmed { slot: *storage_slot }));
    (*storage_slot, linked_parent)
}

#[test]
fn confirmed_session_confirms_current_slot_and_contributor_leaves_pool() {
    let mut b = Builder::new();
    b.register(2, 2);
    b.register(1, 5);
    let mut c = b.build();
    let mut parent: u64 = 100;
    let mut slot: u64 = 0;
    let (confirmed_slot, _) = run_confirmed_session(2, &mut parent, &mut slot);
    // The contributor was told exactly the slot storage reports as current
    // immediately after the commit.
    assert_eq!(confirmed_slot, slot);
    // Unconditional cleanup: absent from the pool in the next round.
    c.remove_participant(2);
    assert!(!c.pool.contains(2));
    assert!(c.pool.contains(1));
}

#[test]
fn second_round_links_against_first_rounds_commit() {
    let mut parent: u64 = 100;
    let mut slot: u64 = 0;
    let (_, linked1) = run_confirmed_session(2, &mut parent, &mut slot);
    assert_eq!(linked1, 100);
    let (_, linked2) = run_confirmed_session(1, &mut parent, &mut slot);
    // The second session's linkage check uses the parent produced by the
    // first round's commit, not the original one.
    assert_eq!(linked2, 101);
    assert_eq!(slot, 2);
}

#[test]
fn unlinked_payload_strikes_and_never_commits() {
    let (mut s, _) = Session::begin(7, 100);
    let a = s.step(Event::Responded { payload: Some(51) });
    assert!(!matches!(a, Action::Commit { .. }));
    let a = s.step(Event::Validated { contribution: Some(52) });
    assert!(matches!(a, Action::CheckLinkage { .. }));
    // Validates, but fails linkage to the parent fetched at session start.
    let a = s.step(Event::LinkageChecked { linked: false });
    assert_eq!(a, Action::RecordStrike { contributor: 7 });
    let a = s.step(Event::StrikeRecorded);
    assert_eq!(a, Action::Ignored);
    assert_eq!(s.outcome(), Some(Outcome::Struck));
}

#[test]
fn invalid_payload_strikes() {
    let (mut s, _) = Session::begin(7, 100);
    s.step(Event::Responded { payload: Some(51) });
    let a = s.step(Event::Validated { contribution: None });
    assert_eq!(a, Action::RecordStrike { contributor: 7 });
    s.step(Event::StrikeRecorded);
    assert_eq!(s.outcome(), Some(Outcome::Struck));
}

#[test]
fn declining_evicts_without_a_strike() {
    let mut b = Builder::new();
    b.register(7, 3);
    let mut c = b.build();
    let (mut s, _) = Session::begin(7, 100);
    let a = s.step(Event::Responded { payload: None });
    // No strike is decided, only the end of the session.
    assert_eq!(a, Action::Ignored);
    assert_eq!(s.outcome(), Some(Outcome::Declined));
    c.remove_participant(7);
    assert!(!c.pool.contains(7));
}

#[test]
fn deadline_expiry_times_out_without_strike_or_commit() {
    let mut b = Builder::new();
    b.register(7, 3);
    let mut c = b.build();
    let (mut s, _) = Session::begin(7, 100);
    let a = s.step(Event::DeadlineExpired);
    assert_eq!(a, Action::Ignored);
    assert_eq!(s.outcome(), Some(Outcome::TimedOut));
    c.remove_participant(7);
    assert!(!c.pool.contains(7));
}

#[test]
fn late_result_after_deadline_is_discarded() {
    let (mut s, _) = Session::begin(7, 100);
    s.step(Event::DeadlineExpired);
    let before = s;
    // The in-flight request's late result arrives after expiry.
    let a = s.step(Event::Responded { payload: Some(60) });
    assert_eq!(a, Action::Ignored);
    assert_eq!(s, before);
    assert_eq!(s.outcome(), Some(Outcome::TimedOut));
}

#[test]
fn deadline_expiry_mid_validation_still_times_out() {
    let (mut s, _) = Session::begin(7, 100);
    s.step(Event::Responded { payload: Some(61) });
    assert!(matches!(s.phase, Phase::Validating { .. }));
    let a = s.step(Event::DeadlineExpired);
    assert_eq!(a, Action::Ignored);
    assert_eq!(s.outcome(), Some(Outcome::TimedOut));
}
