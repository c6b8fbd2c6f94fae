//! Coordinator core for a multi-party ceremony that incrementally extends a
//! common reference string through verified contributions.
//!
//! The library holds the coordinator's decision logic: the participant pool
//! with last-write-wins registration, liveness pruning, ascending-bid ranking,
//! status notification planning, and the bounded-time contribution session as
//! an explicit state machine. Everything that suspends or talks to the outside
//! world (the registration channel, participant connections, durable storage,
//! timers) stays in the surrounding runtime, which feeds events into this core
//! and carries out the actions it decides on.

use vstd::prelude::*;

pub mod coordinator;
pub mod pool;
pub mod ranking;
pub mod session;

verus! {

/// Stable identity of a participant connection.
pub type Address = u64;

/// Ordering value submitted alongside a participant at registration.
pub type Bid = u128;

} // verus!
