//! The values that nodes exchange during an election, and the state a node keeps on disk.

use vstd::prelude::*;

verus! {

/// Identifies one member of the cluster.
pub type NodeId = u64;

/// An election epoch.
pub type Term = u64;

/// What a node must have on disk before it acts on a vote or a term.
#[derive(Clone, Copy, Debug, PartialEq, Eq, Structural)]
pub struct HardState {
    pub current_term: Term,
    pub voted_for: Option<NodeId>,
}

/// A candidate's request for a vote.
#[derive(Clone, Copy, Debug, PartialEq, Eq, Structural)]
pub struct VoteRequest {
    /// The node the request is addressed to.
    pub target: NodeId,
    pub term: Term,
    pub candidate_id: NodeId,
    pub last_log_index: u64,
    pub last_log_term: u64,
}

impl VoteRequest {
    pub fn new(
        target: NodeId,
        term: Term,
        candidate_id: NodeId,
        last_log_index: u64,
        last_log_term: u64,
    ) -> (req: VoteRequest)
        ensures
            req == (VoteRequest { target, term, candidate_id, last_log_index, last_log_term }),
    {
        VoteRequest { target, term, candidate_id, last_log_index, last_log_term }
    }
}

/// A node's answer to a vote request.
#[derive(Clone, Copy, Debug, PartialEq, Eq, Structural)]
pub struct VoteResponse {
    /// The answering node's term once it has handled the request.
    pub term: Term,
    pub vote_granted: bool,
}

/// Why a vote request got no answer at all.
#[derive(Clone, Copy, Debug, PartialEq, Eq, Structural)]
pub enum Rejected {
    /// The receiving node has not finished starting up; the sender may retry.
    Initializing,
    /// The candidate is not a member of the receiving node's cluster.
    NotMember,
}

} // verus!
