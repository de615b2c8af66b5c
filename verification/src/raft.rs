//! The node: its state, and the transitions that events cause.

use crate::membership::Membership;
use crate::messages::{HardState, NodeId, Rejected, Term, VoteRequest, VoteResponse};
use crate::model::NodeState;
use crate::state::{Action, Event, RaftState};
use vstd::prelude::*;

verus! {

/// One node's part in leader election.
///
/// Every transition takes the list of actions that its caller will perform and appends to
/// it. The node itself performs no input or output.
#[derive(Debug)]
pub struct Raft {
    id: NodeId,
    members: Membership,
    hard_state: HardState,
    last_log_index: u64,
    last_log_term: u64,
    state: RaftState,
    current_leader: Option<NodeId>,
}

impl View for Raft {
    type V = NodeState;

    closed spec fn view(&self) -> NodeState {
        NodeState {
            id: self.id,
            members: self.members@,
            hard_state: self.hard_state,
            last_log_index: self.last_log_index,
            last_log_term: self.last_log_term,
            state: self.state,
            current_leader: self.current_leader,
        }
    }
}

impl Clone for Raft {
    fn clone(&self) -> (copy: Raft)
        ensures
            copy@ == self@,
    {
        proof {
            use_type_invariant(self);
        }
        Raft {
            id: self.id,
            members: self.members.clone(),
            hard_state: self.hard_state,
            last_log_index: self.last_log_index,
            last_log_term: self.last_log_term,
            state: self.state,
            current_leader: self.current_leader,
        }
    }
}

impl Raft {
    /// What holds of every node, between any two transitions.
    #[verifier::type_invariant]
    pub open spec fn wf(self) -> bool {
        self@.wf()
    }

    /// A node that has not started yet.
    pub fn new(id: NodeId, members: Membership) -> (node: Raft)
        ensures
            node@ == NodeState::initial(id, members@),
            node@.wf(),
    {
        proof {
            use_type_invariant(&members);
        }
        Raft {
            id,
            members,
            hard_state: HardState { current_term: 0, voted_for: None },
            last_log_index: 0,
            last_log_term: 0,
            state: RaftState::Initializing,
            current_leader: None,
        }
    }

    /// Ends startup: the node takes the hard state and the log position that were loaded
    /// from storage and becomes a follower. Does nothing, and returns `false`, on a node
    /// that has started already.
    pub fn start(
        &mut self,
        ctx: &mut Vec<Action>,
        hard_state: HardState,
        last_log_index: u64,
        last_log_term: u64,
    ) -> (started: bool)
        ensures
            started == old(self)@.state is Initializing,
            final(self)@ == old(self)@.started(hard_state, last_log_index, last_log_term),
            final(ctx)@ == old(ctx)@ + old(self)@.start_actions(),
            final(self)@.wf(),
    {
        proof {
            use_type_invariant(&*self);
        }
        if let RaftState::Initializing = self.state {
            self.become_follower(ctx);
            self.hard_state = hard_state;
            self.last_log_index = last_log_index;
            self.last_log_term = last_log_term;
            true
        } else {
            false
        }
    }

    /// Records where the node's log ends now.
    pub fn set_last_log(&mut self, last_log_index: u64, last_log_term: u64)
        ensures
            final(self)@ == old(self)@.with_last_log(last_log_index, last_log_term),
            final(self)@.wf(),
    {
        proof {
            use_type_invariant(&*self);
        }
        self.last_log_index = last_log_index;
        self.last_log_term = last_log_term;
    }

    /// Answers a candidate's request for a vote.
    ///
    /// A node that is initializing rejects the request, and so does any node if the
    /// candidate is not a member. Otherwise the vote is granted if and only if the
    /// request's term is not behind the node's, the candidate's log does not end before the
    /// node's, and the node has not voted for another candidate in the request's term. A
    /// granted vote moves the node to the request's term, is recorded, and restarts the
    /// election timer; a refused one changes nothing.
    pub fn handle(&mut self, msg: VoteRequest, ctx: &mut Vec<Action>) -> (reply: Result<
        VoteResponse,
        Rejected,
    >)
        ensures
            final(self)@ == old(self)@.received(msg),
            reply == old(self)@.receive_reply(msg),
            final(ctx)@ == old(ctx)@ + old(self)@.receive_actions(msg),
            final(self)@.wf(),
            reply == Err::<VoteResponse, Rejected>(Rejected::Initializing) <==> old(
                self,
            )@.state is Initializing,
            reply == Err::<VoteResponse, Rejected>(Rejected::NotMember) <==> !(old(
                self,
            )@.state is Initializing) && !old(self)@.members.contains(msg.candidate_id),
            (reply matches Ok(res) && res.vote_granted) <==> !(old(self)@.state is Initializing)
                && old(self)@.grants(msg),
            (reply matches Ok(res) && res.vote_granted) ==> {
                &&& msg.term >= old(self)@.current_term()
                &&& final(self)@.current_term() == vstd::math::max(
                    old(self)@.current_term() as int,
                    msg.term as int,
                )
                &&& final(self)@.voted_for() == Some(msg.candidate_id)
            },
            old(self)@.log_ahead_of(msg) ==> !(reply matches Ok(res) && res.vote_granted),
    {
        proof {
            use_type_invariant(&*self);
        }
        // Only handle requests if the node has finished initialization.
        if let RaftState::Initializing = self.state {
            return Err(Rejected::Initializing);
        }
        self._handle_vote_request(ctx, msg)
    }

    /// The voting rules, for a node that has started.
    fn _handle_vote_request(&mut self, ctx: &mut Vec<Action>, msg: VoteRequest) -> (reply: Result<
        VoteResponse,
        Rejected,
    >)
        requires
            !(old(self)@.state is Initializing),
        ensures
            final(self)@ == old(self)@.voted(msg),
            reply == old(self)@.vote_reply(msg),
            final(ctx)@ == old(ctx)@ + old(self)@.vote_actions(msg),
            final(self)@.wf(),
    {
        proof {
            use_type_invariant(&*self);
        }
        // Don't interact with non-cluster members.
        if !self.members.contains(msg.candidate_id) {
            return Err(Rejected::NotMember);
        }
        // If the candidate's term is less than this node's current term, reject.
        if msg.term < self.hard_state.current_term {
            return Ok(VoteResponse { term: self.hard_state.current_term, vote_granted: false });
        }
        // If the candidate's log is not at least as up-to-date as this node's, reject.
        if msg.last_log_term < self.last_log_term || (msg.last_log_term == self.last_log_term
            && msg.last_log_index < self.last_log_index) {
            return Ok(VoteResponse { term: self.hard_state.current_term, vote_granted: false });
        }
        // If the term is newer than the current term, cast the vote. A candidate or a leader
        // of the older term steps down.
        if msg.term > self.hard_state.current_term {
            let yields = match self.state {
                RaftState::Candidate { .. } | RaftState::Leader => true,
                _ => false,
            };
            if yields {
                self.become_follower(ctx);
            }
            self.hard_state = HardState {
                current_term: msg.term,
                voted_for: Some(msg.candidate_id),
            };
            self.save_hard_state(ctx);
            if !yields {
                self.update_election_timeout(ctx);
            }
            return Ok(VoteResponse { term: self.hard_state.current_term, vote_granted: true });
        }
        // The term is the same as the current term.
        match self.hard_state.voted_for {
            // This node has already voted.
            Some(candidate_id) => {
                if candidate_id == msg.candidate_id {
                    self.update_election_timeout(ctx);
                    Ok(VoteResponse { term: self.hard_state.current_term, vote_granted: true })
                } else {
                    Ok(VoteResponse { term: self.hard_state.current_term, vote_granted: false })
                }
            },
            // This node has not voted yet, so vote for the candidate.
            None => {
                self.hard_state = HardState {
                    current_term: self.hard_state.current_term,
                    voted_for: Some(msg.candidate_id),
                };
                self.save_hard_state(ctx);
                self.update_election_timeout(ctx);
                Ok(VoteResponse { term: self.hard_state.current_term, vote_granted: true })
            },
        }
    }

    /// Asks for the node's hard state to be written.
    fn save_hard_state(&self, ctx: &mut Vec<Action>)
        ensures
            final(ctx)@ == old(ctx)@.push(Action::Persist(self@.hard_state)),
    {
        ctx.push(Action::Persist(self.hard_state));
    }

    /// Asks for the election timer to be restarted.
    fn update_election_timeout(&self, ctx: &mut Vec<Action>)
        ensures
            final(ctx)@ == old(ctx)@.push(Action::ResetElectionTimer),
    {
        ctx.push(Action::ResetElectionTimer);
    }

    /// Makes the node a follower that knows of no leader, and restarts the election timer.
    /// A candidate's tally is dropped.
    pub(crate) fn become_follower(&mut self, ctx: &mut Vec<Action>)
        ensures
            final(self)@ == old(self)@.as_follower(),
            final(ctx)@ == old(ctx)@ + NodeState::follower_actions(),
            final(self)@.wf(),
    {
        proof {
            use_type_invariant(&*self);
        }
        self.state = RaftState::Follower;
        self.current_leader = None;
        self.update_election_timeout(ctx);
        ctx.push(Action::NotifyLeader(None));
    }

    /// Asks `target` for its vote in the node's current term.
    pub fn request_vote(&self, ctx: &mut Vec<Action>, target: NodeId)
        ensures
            final(ctx)@ == old(ctx)@.push(Action::Send(self@.vote_request_to(target))),
    {
        let rpc = VoteRequest::new(
            target,
            self.hard_state.current_term,
            self.id,
            self.last_log_index,
            self.last_log_term,
        );
        ctx.push(Action::Send(rpc));
    }

    /// Asks each of `targets` for its vote, in their order.
    pub fn solicit_votes(&self, ctx: &mut Vec<Action>, targets: &Membership)
        ensures
            final(ctx)@ == old(ctx)@ + self@.requests_to(targets@),
    {
        let ghost before = ctx@;
        let n = targets.len();
        let mut i: usize = 0;
        proof {
            assert(self@.requests_to(targets@.take(0)) == Seq::<Action>::empty());
        }
        while i < n
            invariant
                i <= n,
                n == targets@.len(),
                ctx@ == before + self@.requests_to(targets@.take(i as int)),
            decreases n - i,
        {
            let target = targets.get(i);
            proof {
                assert(targets@.take(i as int + 1) == targets@.take(i as int).push(target));
                targets@.take(i as int).lemma_push_map_commute(self@.asking(), target);
            }
            self.request_vote(ctx, target);
            i = i + 1;
        }
        proof {
            assert(targets@.take(n as int) == targets@);
        }
    }

    /// Starts an election: the node moves to the next term, votes for itself, and asks
    /// every other member for its vote.
    pub(crate) fn become_candidate(&mut self, ctx: &mut Vec<Action>)
        requires
            old(self)@.can_campaign(),
        ensures
            final(self)@ == old(self)@.as_candidate(),
            final(ctx)@ == old(ctx)@ + old(self)@.candidate_actions(),
            final(self)@.wf(),
    {
        proof {
            use_type_invariant(&*self);
        }
        self.hard_state = HardState {
            current_term: self.hard_state.current_term + 1,
            voted_for: Some(self.id),
        };
        self.state = RaftState::Candidate { votes_granted: 1, votes_needed: self.members.quorum() };
        self.save_hard_state(ctx);
        self.update_election_timeout(ctx);
        let peers = self.members.without(self.id);
        self.solicit_votes(ctx, &peers);
    }

    /// Makes a candidate that holds a majority of the votes the leader of its term.
    pub(crate) fn become_leader(&mut self, ctx: &mut Vec<Action>)
        requires
            old(self)@.has_won(),
        ensures
            final(self)@ == old(self)@.as_leader(),
            final(ctx)@ == old(ctx)@ + old(self)@.leader_actions(),
            final(self)@.wf(),
    {
        proof {
            use_type_invariant(&*self);
        }
        self.current_leader = Some(self.id);
        self.state = RaftState::Leader;
        ctx.push(Action::NotifyLeader(self.current_leader));
    }

    /// The election timer has fired. A follower or a candidate starts a new election in the
    /// next term; any other node does nothing, and so does a node whose term is the last
    /// that a term can be. Returns whether an election was started.
    pub fn election_timeout(&mut self, ctx: &mut Vec<Action>) -> (campaigns: bool)
        ensures
            campaigns == old(self)@.can_campaign(),
            final(self)@ == old(self)@.timed_out(),
            final(ctx)@ == old(ctx)@ + old(self)@.timeout_actions(),
            final(self)@.wf(),
    {
        proof {
            use_type_invariant(&*self);
        }
        let waiting = match self.state {
            RaftState::Follower | RaftState::Candidate { .. } => true,
            _ => false,
        };
        if waiting && self.hard_state.current_term < u64::MAX {
            self.become_candidate(ctx);
            true
        } else {
            false
        }
    }

    /// Takes in the response `res` to the vote request `rpc` that the node sent.
    ///
    /// A response counts only while the node is a candidate in the term of the request.
    /// A response of a later term makes the node a follower of that term. A granted vote
    /// is added to the tally, and the node becomes leader when the tally reaches a majority.
    ///
    /// The tally counts responses, not voters: the caller hands in the one response that
    /// each request resolves to, and no response twice.
    pub fn handle_vote_response(&mut self, ctx: &mut Vec<Action>, rpc: VoteRequest, res: VoteResponse)
        ensures
            final(self)@ == old(self)@.answered(rpc, res),
            final(ctx)@ == old(ctx)@ + old(self)@.answer_actions(rpc, res),
            final(self)@.wf(),
            (final(self)@.state is Leader && !(old(self)@.state is Leader)) ==> (old(self)@.state
                matches RaftState::Candidate { votes_granted, votes_needed } && votes_granted + 1
                >= votes_needed),
    {
        proof {
            use_type_invariant(&*self);
        }
        // Ensure the node is still in candidate state, in the election that the request
        // belongs to.
        let (votes_granted, votes_needed) = match self.state {
            RaftState::Candidate { votes_granted, votes_needed } => (votes_granted, votes_needed),
            _ => {
                return ;
            },
        };
        if rpc.term != self.hard_state.current_term {
            return ;
        }
        // If the peer's term is greater than the current term, revert to follower state.
        if res.term > self.hard_state.current_term {
            self.become_follower(ctx);
            self.hard_state = HardState {
                current_term: res.term,
                voted_for: self.hard_state.voted_for,
            };
            self.save_hard_state(ctx);
            return ;
        }
        // If the peer granted its vote, update the tally.
        if res.vote_granted {
            if votes_granted < votes_needed {
                self.state = RaftState::Candidate {
                    votes_granted: votes_granted + 1,
                    votes_needed,
                };
            }
            if votes_granted + 1 >= votes_needed {
                // The campaign was successful: go into leader state.
                self.become_leader(ctx);
            }
        }
    }

    /// Takes one event: the node moves on, and asks in `ctx` for what the event calls for.
    /// Returns the answer to a vote request, and `None` on any other event.
    pub fn step(&mut self, ctx: &mut Vec<Action>, event: Event) -> (reply: Option<
        Result<VoteResponse, Rejected>,
    >)
        ensures
            final(self)@ == old(self)@.after(event),
            final(ctx)@ == old(ctx)@ + old(self)@.actions_on(event),
            reply == old(self)@.reply_on(event),
            final(self)@.wf(),
    {
        match event {
            Event::StartupComplete { hard_state, last_log_index, last_log_term } => {
                let _ = self.start(ctx, hard_state, last_log_index, last_log_term);
                None
            },
            Event::LogChanged { last_log_index, last_log_term } => {
                self.set_last_log(last_log_index, last_log_term);
                None
            },
            Event::VoteRequestArrived(msg) => Some(self.handle(msg, ctx)),
            Event::VoteResponseArrived { request, response } => {
                self.handle_vote_response(ctx, request, response);
                None
            },
            Event::ElectionTimeout => {
                let _ = self.election_timeout(ctx);
                None
            },
        }
    }

    pub fn id(&self) -> (id: NodeId)
        ensures
            id == self@.id,
    {
        self.id
    }

    pub fn members(&self) -> (members: &Membership)
        ensures
            members@ == self@.members,
    {
        &self.members
    }

    pub fn hard_state(&self) -> (hard_state: HardState)
        ensures
            hard_state == self@.hard_state,
    {
        self.hard_state
    }

    pub fn current_term(&self) -> (term: Term)
        ensures
            term == self@.current_term(),
    {
        self.hard_state.current_term
    }

    pub fn voted_for(&self) -> (vote: Option<NodeId>)
        ensures
            vote == self@.voted_for(),
    {
        self.hard_state.voted_for
    }

    pub fn last_log_index(&self) -> (index: u64)
        ensures
            index == self@.last_log_index,
    {
        self.last_log_index
    }

    pub fn last_log_term(&self) -> (term: u64)
        ensures
            term == self@.last_log_term,
    {
        self.last_log_term
    }

    pub fn state(&self) -> (state: RaftState)
        ensures
            state == self@.state,
    {
        self.state
    }

    pub fn current_leader(&self) -> (leader: Option<NodeId>)
        ensures
            leader == self@.current_leader,
    {
        self.current_leader
    }
}

} // verus!
