//! The role a node plays, and the side effects a transition asks for.

use crate::messages::{HardState, NodeId, VoteRequest, VoteResponse};
use vstd::prelude::*;

verus! {

/// The role of a node. A node holds exactly one at any time.
#[derive(Clone, Copy, Debug, PartialEq, Eq, Structural)]
pub enum RaftState {
    /// Not started yet: every vote request is rejected.
    Initializing,
    /// Waits for a leader's message or for the election timeout.
    Follower,
    /// Asks for votes in the current term.
    Candidate {
        /// Votes received so far, the node's own among them.
        votes_granted: u32,
        /// Votes that make a majority of the members.
        votes_needed: u32,
    },
    /// Has won the election of the current term.
    Leader,
}

/// A side effect that a transition asks the node's surroundings to perform.
///
/// The actions of one transition are performed in the order in which they were pushed,
/// before any reply that the transition returned is sent, and before the node is given its
/// next event. If `Persist` fails, none of the actions after it is performed, no reply is
/// sent, and the node stops.
#[derive(Clone, Copy, Debug, PartialEq, Eq, Structural)]
pub enum Action {
    /// Write the hard state to durable storage.
    Persist(HardState),
    /// Restart the election timer with a fresh random duration.
    ResetElectionTimer,
    /// Tell whoever tracks the leader who it is now; `None` if it is unknown.
    NotifyLeader(Option<NodeId>),
    /// Send the request to its target.
    Send(VoteRequest),
}

/// Something that happens to a node. A node takes its events one at a time.
#[derive(Clone, Copy, Debug, PartialEq, Eq, Structural)]
pub enum Event {
    /// Startup has loaded the hard state and the position of the log's last entry.
    StartupComplete { hard_state: HardState, last_log_index: u64, last_log_term: u64 },
    /// The log's last entry is now at `last_log_index`, written in `last_log_term`.
    LogChanged { last_log_index: u64, last_log_term: u64 },
    /// A candidate asks for the node's vote.
    VoteRequestArrived(VoteRequest),
    /// A peer has answered the vote request that the node sent it.
    VoteResponseArrived { request: VoteRequest, response: VoteResponse },
    /// The election timer has fired.
    ElectionTimeout,
}

} // verus!
