//! The election rules, stated over a mathematical model of a node.

use crate::membership::{others, quorum};
use crate::messages::{HardState, NodeId, Rejected, Term, VoteRequest, VoteResponse};
use crate::state::{Action, Event, RaftState};
use vstd::prelude::*;

verus! {

/// All that a node knows, as plain mathematical values.
pub struct NodeState {
    pub id: NodeId,
    /// The members of the cluster, each once.
    pub members: Seq<NodeId>,
    pub hard_state: HardState,
    /// Index and term of the last entry of the node's log.
    pub last_log_index: u64,
    pub last_log_term: u64,
    pub state: RaftState,
    /// The leader the node knows of, if any.
    pub current_leader: Option<NodeId>,
}

impl NodeState {
    /// A node that has not started: term 0, no vote, an empty log.
    pub open spec fn initial(id: NodeId, members: Seq<NodeId>) -> NodeState {
        NodeState {
            id,
            members,
            hard_state: HardState { current_term: 0, voted_for: None },
            last_log_index: 0,
            last_log_term: 0,
            state: RaftState::Initializing,
            current_leader: None,
        }
    }

    /// What holds of a node between any two transitions.
    pub open spec fn wf(self) -> bool {
        &&& self.members.no_duplicates()
        &&& self.members.len() <= u32::MAX
        &&& self.state is Initializing ==> self.hard_state == (HardState {
            current_term: 0,
            voted_for: None,
        })
        &&& self.state matches RaftState::Candidate { votes_granted, votes_needed } ==> {
            &&& votes_needed == quorum(self.members.len())
            &&& 1 <= votes_granted <= votes_needed
        }
        &&& (self.state is Candidate || self.state is Leader) ==> self.hard_state.voted_for
            == Some(self.id)
        &&& self.state is Leader ==> self.current_leader == Some(self.id)
    }

    /// The term the node is in.
    pub open spec fn current_term(self) -> Term {
        self.hard_state.current_term
    }

    /// The candidate that has the node's vote in its term, if any.
    pub open spec fn voted_for(self) -> Option<NodeId> {
        self.hard_state.voted_for
    }

    // ------------------------------------------------------------------------------------
    // Startup
    // ------------------------------------------------------------------------------------

    /// The node once startup has loaded `hard_state` and the log's last position. Only a
    /// node that is initializing starts.
    pub open spec fn started(
        self,
        hard_state: HardState,
        last_log_index: u64,
        last_log_term: u64,
    ) -> NodeState {
        if self.state is Initializing {
            NodeState {
                hard_state,
                last_log_index,
                last_log_term,
                state: RaftState::Follower,
                current_leader: None,
                ..self
            }
        } else {
            self
        }
    }

    /// What startup asks for: the new follower's timer runs, and no leader is known.
    pub open spec fn start_actions(self) -> Seq<Action> {
        if self.state is Initializing {
            seq![Action::ResetElectionTimer, Action::NotifyLeader(None)]
        } else {
            seq![]
        }
    }

    /// The node once the log's last entry is at `last_log_index`, written in `last_log_term`.
    pub open spec fn with_last_log(self, last_log_index: u64, last_log_term: u64) -> NodeState {
        NodeState { last_log_index, last_log_term, ..self }
    }

    // ------------------------------------------------------------------------------------
    // Receiving a vote request
    // ------------------------------------------------------------------------------------

    /// The candidate's log ends before the node's own: its last entry is of an older term,
    /// or of the same term at a smaller index.
    pub open spec fn log_ahead_of(self, req: VoteRequest) -> bool {
        ||| req.last_log_term < self.last_log_term
        ||| (req.last_log_term == self.last_log_term && req.last_log_index < self.last_log_index)
    }

    /// The node has no vote to withhold from `candidate` in the term `term`: the term is
    /// new to it, or it has not voted in it, or it voted for `candidate`.
    pub open spec fn vote_is_free(self, term: Term, candidate: NodeId) -> bool {
        ||| term > self.current_term()
        ||| self.voted_for() is None
        ||| self.voted_for() == Some(candidate)
    }

    /// Whether a started node votes for the sender of `req`.
    pub open spec fn grants(self, req: VoteRequest) -> bool {
        &&& self.members.contains(req.candidate_id)
        &&& req.term >= self.current_term()
        &&& !self.log_ahead_of(req)
        &&& self.vote_is_free(req.term, req.candidate_id)
    }

    /// A granted vote for a newer term ends a candidacy or a leadership.
    pub open spec fn yields_to(self, req: VoteRequest) -> bool {
        &&& self.grants(req)
        &&& req.term > self.current_term()
        &&& (self.state is Candidate || self.state is Leader)
    }

    /// A started node after it has handled `req`.
    pub open spec fn voted(self, req: VoteRequest) -> NodeState {
        if self.grants(req) {
            NodeState {
                hard_state: HardState {
                    current_term: req.term,
                    voted_for: Some(req.candidate_id),
                },
                state: if self.yields_to(req) {
                    RaftState::Follower
                } else {
                    self.state
                },
                current_leader: if self.yields_to(req) {
                    None
                } else {
                    self.current_leader
                },
                ..self
            }
        } else {
            self
        }
    }

    /// What a started node answers to `req`.
    pub open spec fn vote_reply(self, req: VoteRequest) -> Result<VoteResponse, Rejected> {
        if !self.members.contains(req.candidate_id) {
            Err(Rejected::NotMember)
        } else {
            Ok(
                VoteResponse {
                    term: self.voted(req).current_term(),
                    vote_granted: self.grants(req),
                },
            )
        }
    }

    /// What a started node asks for when it handles `req`. A granted vote restarts the
    /// election timer, and the hard state is written if the vote changed it. A candidate or
    /// leader that yields steps down first.
    pub open spec fn vote_actions(self, req: VoteRequest) -> Seq<Action> {
        let after = self.voted(req);
        if self.yields_to(req) {
            Self::follower_actions() + seq![Action::Persist(after.hard_state)]
        } else if !self.grants(req) {
            seq![]
        } else if after.hard_state != self.hard_state {
            seq![Action::Persist(after.hard_state), Action::ResetElectionTimer]
        } else {
            seq![Action::ResetElectionTimer]
        }
    }

    /// The node after a vote request has arrived: a node that is initializing ignores it.
    pub open spec fn received(self, req: VoteRequest) -> NodeState {
        if self.state is Initializing {
            self
        } else {
            self.voted(req)
        }
    }

    /// What any node answers to `req`.
    pub open spec fn receive_reply(self, req: VoteRequest) -> Result<VoteResponse, Rejected> {
        if self.state is Initializing {
            Err(Rejected::Initializing)
        } else {
            self.vote_reply(req)
        }
    }

    /// What any node asks for when it handles `req`.
    pub open spec fn receive_actions(self, req: VoteRequest) -> Seq<Action> {
        if self.state is Initializing {
            seq![]
        } else {
            self.vote_actions(req)
        }
    }

    // ------------------------------------------------------------------------------------
    // Asking for votes
    // ------------------------------------------------------------------------------------

    /// The request by which the node asks `target` for its vote.
    pub open spec fn vote_request_to(self, target: NodeId) -> VoteRequest {
        VoteRequest {
            target,
            term: self.current_term(),
            candidate_id: self.id,
            last_log_index: self.last_log_index,
            last_log_term: self.last_log_term,
        }
    }

    /// The members that the node asks for a vote: all but itself.
    pub open spec fn peers(self) -> Seq<NodeId> {
        others(self.id, self.members)
    }

    /// Asking one target for its vote, as an action.
    pub open spec fn asking(self) -> spec_fn(NodeId) -> Action {
        |target: NodeId| Action::Send(self.vote_request_to(target))
    }

    /// One request to each of `targets`, in their order.
    pub open spec fn requests_to(self, targets: Seq<NodeId>) -> Seq<Action> {
        targets.map_values(self.asking())
    }

    /// One request to each peer, in the order of the members.
    pub open spec fn solicitations(self) -> Seq<Action> {
        self.requests_to(self.peers())
    }

    // ------------------------------------------------------------------------------------
    // The three transitions
    // ------------------------------------------------------------------------------------

    /// The node as a follower: it knows of no leader, and a tally is dropped.
    pub open spec fn as_follower(self) -> NodeState {
        NodeState { state: RaftState::Follower, current_leader: None, ..self }
    }

    /// What becoming follower asks for.
    pub open spec fn follower_actions() -> Seq<Action> {
        seq![Action::ResetElectionTimer, Action::NotifyLeader(None)]
    }

    /// Whether the node may stand for election: it is a follower or a candidate, and a
    /// next term exists.
    pub open spec fn can_campaign(self) -> bool {
        &&& self.state is Follower || self.state is Candidate
        &&& self.current_term() < u64::MAX
    }

    /// The node as a candidate of the next term, with its own vote.
    pub open spec fn as_candidate(self) -> NodeState {
        NodeState {
            hard_state: HardState {
                current_term: (self.current_term() + 1) as u64,
                voted_for: Some(self.id),
            },
            state: RaftState::Candidate {
                votes_granted: 1,
                votes_needed: quorum(self.members.len()) as u32,
            },
            ..self
        }
    }

    /// What becoming candidate asks for: the vote is written, the timer restarted, and then
    /// every peer asked.
    pub open spec fn candidate_actions(self) -> Seq<Action> {
        let after = self.as_candidate();
        seq![Action::Persist(after.hard_state), Action::ResetElectionTimer] + after.solicitations()
    }

    /// Whether the node is a candidate that holds a majority of the votes.
    pub open spec fn has_won(self) -> bool {
        self.state matches RaftState::Candidate { votes_granted, votes_needed } && votes_granted
            >= votes_needed
    }

    /// The node as the leader it knows of.
    pub open spec fn as_leader(self) -> NodeState {
        NodeState { state: RaftState::Leader, current_leader: Some(self.id), ..self }
    }

    /// What becoming leader asks for.
    pub open spec fn leader_actions(self) -> Seq<Action> {
        seq![Action::NotifyLeader(Some(self.id))]
    }

    // ------------------------------------------------------------------------------------
    // The election timeout
    // ------------------------------------------------------------------------------------

    /// The node after its election timer has fired.
    pub open spec fn timed_out(self) -> NodeState {
        if self.can_campaign() {
            self.as_candidate()
        } else {
            self
        }
    }

    /// What the node asks for when its election timer fires.
    pub open spec fn timeout_actions(self) -> Seq<Action> {
        if self.can_campaign() {
            self.candidate_actions()
        } else {
            seq![]
        }
    }

    // ------------------------------------------------------------------------------------
    // Receiving a vote response
    // ------------------------------------------------------------------------------------

    /// The response answers a request of the election that the node is running now.
    pub open spec fn awaits(self, req: VoteRequest) -> bool {
        self.state is Candidate && req.term == self.current_term()
    }

    /// The tally once one more vote has come in.
    pub open spec fn counted(self) -> NodeState {
        match self.state {
            RaftState::Candidate { votes_granted, votes_needed } => {
                let tally = NodeState {
                    state: RaftState::Candidate {
                        votes_granted: (votes_granted + 1) as u32,
                        votes_needed,
                    },
                    ..self
                };
                if tally.has_won() {
                    tally.as_leader()
                } else {
                    tally
                }
            },
            _ => self,
        }
    }

    /// The node after the response `res` to its request `req` has arrived. A response that
    /// the node does not await changes nothing. One of a later term ends the candidacy: the
    /// node moves to that term, and its vote stays as it is. A granted vote is counted.
    pub open spec fn answered(self, req: VoteRequest, res: VoteResponse) -> NodeState {
        if !self.awaits(req) {
            self
        } else if res.term > self.current_term() {
            NodeState {
                hard_state: HardState { current_term: res.term, voted_for: self.voted_for() },
                ..self.as_follower()
            }
        } else if res.vote_granted {
            self.counted()
        } else {
            self
        }
    }

    /// What the node asks for when the response `res` to its request `req` arrives.
    pub open spec fn answer_actions(self, req: VoteRequest, res: VoteResponse) -> Seq<Action> {
        let after = self.answered(req, res);
        if !self.awaits(req) {
            seq![]
        } else if res.term > self.current_term() {
            Self::follower_actions() + seq![Action::Persist(after.hard_state)]
        } else if after.state is Leader {
            after.leader_actions()
        } else {
            seq![]
        }
    }

    // ------------------------------------------------------------------------------------
    // Events
    // ------------------------------------------------------------------------------------

    /// The node after `event`.
    pub open spec fn after(self, event: Event) -> NodeState {
        match event {
            Event::StartupComplete { hard_state, last_log_index, last_log_term } => self.started(
                hard_state,
                last_log_index,
                last_log_term,
            ),
            Event::LogChanged { last_log_index, last_log_term } => self.with_last_log(
                last_log_index,
                last_log_term,
            ),
            Event::VoteRequestArrived(req) => self.received(req),
            Event::VoteResponseArrived { request, response } => self.answered(request, response),
            Event::ElectionTimeout => self.timed_out(),
        }
    }

    /// What the node asks for when `event` happens.
    pub open spec fn actions_on(self, event: Event) -> Seq<Action> {
        match event {
            Event::StartupComplete { .. } => self.start_actions(),
            Event::LogChanged { .. } => seq![],
            Event::VoteRequestArrived(req) => self.receive_actions(req),
            Event::VoteResponseArrived { request, response } => self.answer_actions(
                request,
                response,
            ),
            Event::ElectionTimeout => self.timeout_actions(),
        }
    }

    /// What the node answers to `event`: only a vote request has an answer.
    pub open spec fn reply_on(self, event: Event) -> Option<Result<VoteResponse, Rejected>> {
        match event {
            Event::VoteRequestArrived(req) => Some(self.receive_reply(req)),
            _ => None,
        }
    }

    /// The node after all of `events`, in their order.
    pub open spec fn after_all(self, events: Seq<Event>) -> NodeState
        decreases events.len(),
    {
        if events.len() == 0 {
            self
        } else {
            self.after_all(events.drop_last()).after(events.last())
        }
    }
}

} // verus!
