//! Leader election for a single Raft node, as a state machine over plain values.
//!
//! A node is driven by events (a vote request, a vote response, an election timeout) and
//! answers each with its next state and the side effects it asks its surroundings to perform.

pub mod membership;
pub mod messages;
pub mod model;
pub mod raft;
pub mod safety;
pub mod state;
pub mod timer;

pub use crate::membership::Membership;
pub use crate::messages::{HardState, NodeId, Rejected, Term, VoteRequest, VoteResponse};
pub use crate::raft::Raft;
pub use crate::state::{Action, Event, RaftState};
pub use crate::timer::ElectionTimer;
