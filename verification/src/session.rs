//! The contribution session: the bounded-time protocol that requests,
//! validates, links, commits or strikes a single contribution.
//!
//! The session is an explicit state machine. The surrounding runtime performs
//! each decided action (ask the participant, run the validation capability,
//! commit to storage, deliver the confirmation, record the strike) and feeds
//! the result back as the next event; expiry of the session deadline is itself
//! an event. Every decision — what to do with a payload, when a strike is
//! owed, which parent the linkage is checked against, which slot the
//! contributor is told to confirm — is taken here and verified.
//!
//! Contributions and parent chain states are opaque cryptographic objects;
//! the coordinator never looks inside them, so the machine carries them as
//! plain handles chosen by the runtime.

use vstd::prelude::*;

use crate::Address;

verus! {

/// Handle for the chain state a contribution must link to.
pub type CrsState = u64;

/// Handle for a contribution as received, before validation.
pub type UnvalidatedContribution = u64;

/// Handle for a contribution that passed cryptographic validation.
pub type Contribution = u64;

/// Sequence position storage assigned to a committed contribution.
pub type Slot = u64;

/// How a session ended.
#[derive(Clone, Copy, PartialEq, Eq, Debug)]
pub enum Outcome {
    /// The contribution was committed and the contributor told its slot.
    Confirmed { slot: Slot },
    /// The participant offered nothing; no strike is owed.
    Declined,
    /// The deadline expired first; no strike, no commit.
    TimedOut,
    /// The payload failed validation or linkage; a strike was recorded.
    Struck,
}

/// Where the session currently stands.
#[derive(Clone, Copy, PartialEq, Eq, Debug)]
pub enum Phase {
    /// Waiting for the participant's response to the contribution request.
    Requesting,
    /// Waiting for the validation capability's verdict on the payload.
    Validating { payload: UnvalidatedContribution },
    /// Waiting for the linkage check of the validated contribution.
    Linking { contribution: Contribution },
    /// Waiting for storage to commit the contribution.
    Committing { contribution: Contribution },
    /// Waiting for the confirmation delivery to the contributor.
    Confirming { slot: Slot },
    /// Waiting for storage to record the strike.
    Striking,
    /// The session is over.
    Done { outcome: Outcome },
}

/// What the runtime reports back to the session.
#[derive(Clone, Copy, PartialEq, Eq, Debug)]
pub enum Event {
    /// The participant answered the contribution request, or declined.
    Responded { payload: Option<UnvalidatedContribution> },
    /// The validation capability accepted (with the validated form) or
    /// rejected the payload.
    Validated { contribution: Option<Contribution> },
    /// The linkage check against the session's parent passed or failed.
    LinkageChecked { linked: bool },
    /// Storage committed the contribution and assigned this slot.
    Committed { slot: Slot },
    /// The confirmation was delivered, or the connection failed.
    ConfirmDelivered { ok: bool },
    /// Storage recorded the strike.
    StrikeRecorded,
    /// The session deadline expired.
    DeadlineExpired,
}

/// What the runtime must do next.
#[derive(Clone, Copy, PartialEq, Eq, Debug)]
pub enum Action {
    /// Ask the contributor for a contribution extending this parent.
    RequestContribution { parent: CrsState },
    /// Run cryptographic validation of the payload against the ceremony root.
    Validate { payload: UnvalidatedContribution },
    /// Check that the contribution links to this parent.
    CheckLinkage { contribution: Contribution, parent: CrsState },
    /// Durably commit the contribution for this contributor.
    Commit { contributor: Address, contribution: Contribution },
    /// Tell the contributor the slot its contribution received.
    Confirm { slot: Slot },
    /// Durably record a strike against the contributor.
    RecordStrike { contributor: Address },
    /// Nothing: the session is over or the event was stale.
    Ignored,
}

/// One contribution session against a chosen contributor.
#[derive(Clone, Copy, PartialEq, Eq, Debug)]
pub struct Session {
    /// The selected lowest-bid participant.
    pub contributor: Address,
    /// The chain state that was current when the session started; the
    /// contribution must link to exactly this parent.
    pub parent: CrsState,
    /// Where the session stands.
    pub phase: Phase,
}

/// Phases in which no commit has been decided yet.
pub open spec fn pre_commit(p: Phase) -> bool {
    match p {
        Phase::Requesting | Phase::Validating { .. } | Phase::Linking { .. } => true,
        _ => false,
    }
}

/// The successor state of a session on an event.
pub open spec fn step_next(s: Session, e: Event) -> Session {
    Session { phase: phase_next(s.phase, e), ..s }
}

/// The successor phase on an event. Events that do not belong to the current
/// phase (a late response after the deadline, for instance) change nothing.
pub open spec fn phase_next(p: Phase, e: Event) -> Phase {
    match (p, e) {
        (Phase::Requesting, Event::Responded { payload: Some(u) }) => Phase::Validating {
            payload: u,
        },
        (Phase::Requesting, Event::Responded { payload: None }) => Phase::Done {
            outcome: Outcome::Declined,
        },
        (Phase::Validating { .. }, Event::Validated { contribution: Some(c) }) => Phase::Linking {
            contribution: c,
        },
        (Phase::Validating { .. }, Event::Validated { contribution: None }) => Phase::Striking,
        (Phase::Linking { contribution }, Event::LinkageChecked { linked: true })
            => Phase::Committing { contribution },
        (Phase::Linking { .. }, Event::LinkageChecked { linked: false }) => Phase::Striking,
        (Phase::Committing { .. }, Event::Committed { slot }) => Phase::Confirming { slot },
        (Phase::Confirming { slot }, Event::ConfirmDelivered { .. }) => Phase::Done {
            outcome: Outcome::Confirmed { slot },
        },
        (Phase::Striking, Event::StrikeRecorded) => Phase::Done { outcome: Outcome::Struck },
        (Phase::Requesting, Event::DeadlineExpired) => Phase::Done { outcome: Outcome::TimedOut },
        (Phase::Validating { .. }, Event::DeadlineExpired) => Phase::Done {
            outcome: Outcome::TimedOut,
        },
        (Phase::Linking { .. }, Event::DeadlineExpired) => Phase::Done {
            outcome: Outcome::TimedOut,
        },
        (p, _) => p,
    }
}

/// The action owed on an event.
pub open spec fn step_action(s: Session, e: Event) -> Action {
    match (s.phase, e) {
        (Phase::Requesting, Event::Responded { payload: Some(u) }) => Action::Validate {
            payload: u,
        },
        (Phase::Validating { .. }, Event::Validated { contribution: Some(c) })
            => Action::CheckLinkage { contribution: c, parent: s.parent },
        (Phase::Validating { .. }, Event::Validated { contribution: None })
            => Action::RecordStrike { contributor: s.contributor },
        (Phase::Linking { contribution }, Event::LinkageChecked { linked: true })
            => Action::Commit { contributor: s.contributor, contribution },
        (Phase::Linking { .. }, Event::LinkageChecked { linked: false }) => Action::RecordStrike {
            contributor: s.contributor,
        },
        (Phase::Committing { .. }, Event::Committed { slot }) => Action::Confirm { slot },
        _ => Action::Ignored,
    }
}

impl Session {
    /// Start a session against `contributor` given the parent chain state
    /// fetched from storage at this moment. The one action owed first is the
    /// contribution request carrying exactly that parent.
    pub fn begin(contributor: Address, parent: CrsState) -> (r: (Session, Action))
        ensures
            r.0 == (Session { contributor, parent, phase: Phase::Requesting }),
            r.1 == (Action::RequestContribution { parent }),
    {
        (
            Session { contributor, parent, phase: Phase::Requesting },
            Action::RequestContribution { parent },
        )
    }

    /// Feed one event into the session; returns the action the runtime owes.
    pub fn step(&mut self, e: Event) -> (a: Action)
        ensures
            *final(self) == step_next(*old(self), e),
            a == step_action(*old(self), e),
    {
        let next = match (self.phase, e) {
            (Phase::Requesting, Event::Responded { payload: Some(u) }) => Phase::Validating {
                payload: u,
            },
            (Phase::Requesting, Event::Responded { payload: None }) => Phase::Done {
                outcome: Outcome::Declined,
            },
            (Phase::Validating { .. }, Event::Validated { contribution: Some(c) })
                => Phase::Linking { contribution: c },
            (Phase::Validating { .. }, Event::Validated { contribution: None }) => Phase::Striking,
            (Phase::Linking { contribution }, Event::LinkageChecked { linked: true })
                => Phase::Committing { contribution },
            (Phase::Linking { .. }, Event::LinkageChecked { linked: false }) => Phase::Striking,
            (Phase::Committing { .. }, Event::Committed { slot }) => Phase::Confirming { slot },
            (Phase::Confirming { slot }, Event::ConfirmDelivered { .. }) => Phase::Done {
                outcome: Outcome::Confirmed { slot },
            },
            (Phase::Striking, Event::StrikeRecorded) => Phase::Done { outcome: Outcome::Struck },
            (Phase::Requesting, Event::DeadlineExpired) => Phase::Done {
                outcome: Outcome::TimedOut,
            },
            (Phase::Validating { .. }, Event::DeadlineExpired) => Phase::Done {
                outcome: Outcome::TimedOut,
            },
            (Phase::Linking { .. }, Event::DeadlineExpired) => Phase::Done {
                outcome: Outcome::TimedOut,
            },
            (p, _) => p,
        };
        let a = match (self.phase, e) {
            (Phase::Requesting, Event::Responded { payload: Some(u) }) => Action::Validate {
                payload: u,
            },
            (Phase::Validating { .. }, Event::Validated { contribution: Some(c) })
                => Action::CheckLinkage { contribution: c, parent: self.parent },
            (Phase::Validating { .. }, Event::Validated { contribution: None })
                => Action::RecordStrike { contributor: self.contributor },
            (Phase::Linking { contribution }, Event::LinkageChecked { linked: true })
                => Action::Commit { contributor: self.contributor, contribution },
            (Phase::Linking { .. }, Event::LinkageChecked { linked: false })
                => Action::RecordStrike { contributor: self.contributor },
            (Phase::Committing { .. }, Event::Committed { slot }) => Action::Confirm { slot },
            _ => Action::Ignored,
        };
        self.phase = next;
        a
    }

    /// How the session ended, once it is done.
    pub fn outcome(&self) -> (r: Option<Outcome>)
        ensures
            r == (match self.phase {
                Phase::Done { outcome } => Some(outcome),
                _ => None::<Outcome>,
            }),
    {
        match self.phase {
            Phase::Done { outcome } => Some(outcome),
            _ => None,
        }
    }
}

/// A commit is decided exactly on a successful linkage check, and always
/// carries the contribution whose linkage to the session's parent passed.
pub proof fn lemma_commit_only_after_linkage(s: Session, e: Event)
    ensures
        (exists|c: Contribution|
            step_action(s, e) == (Action::Commit { contributor: s.contributor, contribution: c }))
            <==> (s.phase matches Phase::Linking { .. } && e == (Event::LinkageChecked {
            linked: true,
        })),
        forall|c: Contribution|
            step_action(s, e) == (Action::Commit { contributor: s.contributor, contribution: c })
                ==> s.phase == (Phase::Linking { contribution: c }),
{
    match s.phase {
        Phase::Linking { contribution } => {
            if e == (Event::LinkageChecked { linked: true }) {
                assert(step_action(s, e) == (Action::Commit {
                    contributor: s.contributor,
                    contribution,
                }));
            }
        },
        _ => {},
    }
}

/// A strike is decided exactly when the payload fails validation or when the
/// validated contribution fails linkage to the session's parent.
pub proof fn lemma_strike_only_on_invalid(s: Session, e: Event)
    ensures
        step_action(s, e) == (Action::RecordStrike { contributor: s.contributor }) <==> (
        (s.phase matches Phase::Validating { .. } && e == (Event::Validated {
            contribution: None,
        })) || (s.phase matches Phase::Linking { .. } && e == (Event::LinkageChecked {
            linked: false,
        }))),
{
}

/// The linkage check is always made against the parent fetched when the
/// session started, never a later one.
pub proof fn lemma_linkage_against_session_parent(s: Session, e: Event, c: Contribution, p: CrsState)
    requires
        step_action(s, e) == (Action::CheckLinkage { contribution: c, parent: p }),
    ensures
        p == s.parent,
{
}

/// The contributor is told to confirm exactly the slot storage assigned at
/// the commit, and the session then ends Confirmed with that same slot.
pub proof fn lemma_confirm_slot_matches_commit(s: Session, e: Event, slot: Slot)
    ensures
        step_action(s, e) == (Action::Confirm { slot }) <==> (s.phase matches Phase::Committing {
            ..
        } && e == (Event::Committed { slot })),
        step_action(s, e) == (Action::Confirm { slot }) ==> step_next(s, e).phase == (
        Phase::Confirming { slot }),
        (s.phase == (Phase::Confirming { slot }) && (e matches Event::ConfirmDelivered { .. }))
            ==> step_next(s, e).phase == (Phase::Done { outcome: Outcome::Confirmed { slot } }),
{
}

/// Declining yields outcome Declined: no strike and no commit are decided,
/// on this or any later event of the session.
pub proof fn lemma_decline_no_strike(s: Session, e: Event)
    requires
        s.phase == Phase::Requesting,
        e == (Event::Responded { payload: None::<UnvalidatedContribution> }),
    ensures
        step_next(s, e).phase == (Phase::Done { outcome: Outcome::Declined }),
        step_action(s, e) == Action::Ignored,
{
}

/// Deadline expiry before a commit ends the session TimedOut: no strike and
/// no commit are decided, on this or any later event of the session.
pub proof fn lemma_timeout_no_strike_no_commit(s: Session, e: Event)
    requires
        e == Event::DeadlineExpired,
    ensures
        step_action(s, e) == Action::Ignored,
        pre_commit(s.phase) ==> step_next(s, e).phase == (Phase::Done {
            outcome: Outcome::TimedOut,
        }),
{
}

/// A finished session absorbs every further event: the state never changes
/// again and no further action — in particular no commit and no strike — is
/// ever decided. A late result arriving after the deadline is discarded.
pub proof fn lemma_done_absorbing(s: Session, e: Event)
    requires
        s.phase matches Phase::Done { .. },
    ensures
        step_next(s, e) == s,
        step_action(s, e) == Action::Ignored,
{
}

} // verus!
