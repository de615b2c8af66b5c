//! What the election rules guarantee, proved of every node and every sequence of events.

use crate::membership::{law_majorities_share_a_member, lemma_others, quorum};
use crate::messages::{HardState, NodeId, Rejected, Term, VoteRequest, VoteResponse};
use crate::model::NodeState;
use crate::state::{Action, Event, RaftState};
use vstd::prelude::*;

verus! {

/// How a node's hard state may move: the term never decreases, and a vote that was cast in
/// a term stands for as long as the term lasts.
pub open spec fn follows(before: HardState, after: HardState) -> bool {
    &&& before.current_term <= after.current_term
    &&& (before.current_term == after.current_term && before.voted_for is Some)
        ==> after.voted_for == before.voted_for
}

/// The vote that `event` makes the node cast, with the term it is cast in: its own when it
/// starts an election, a candidate's when it grants a request.
pub open spec fn vote_cast(node: NodeState, event: Event) -> Option<(Term, NodeId)> {
    match event {
        Event::ElectionTimeout => if node.can_campaign() {
            Some((node.after(event).current_term(), node.id))
        } else {
            None
        },
        Event::VoteRequestArrived(req) => match node.receive_reply(req) {
            Ok(res) => if res.vote_granted {
                Some((res.term, req.candidate_id))
            } else {
                None
            },
            Err(_) => None,
        },
        _ => None,
    }
}

/// The moves that the roles allow.
pub open spec fn may_become(before: RaftState, after: RaftState) -> bool {
    match before {
        RaftState::Initializing => after is Initializing || after is Follower,
        RaftState::Follower => after is Follower || after is Candidate,
        RaftState::Candidate { .. } => after is Candidate || after is Leader || after is Follower,
        RaftState::Leader => after is Leader || after is Follower,
    }
}

/// No request is sent before the hard state that it relies on is written.
pub open spec fn persists_before_sending(actions: Seq<Action>) -> bool {
    forall|i: int, j: int|
        #![trigger actions[i], actions[j]]
        0 <= i < j < actions.len() && actions[i] is Send ==> !(actions[j] is Persist)
}

/// Every event leaves a well-formed node well-formed.
pub proof fn lemma_event_keeps_wf(node: NodeState, event: Event)
    requires
        node.wf(),
    ensures
        node.after(event).wf(),
{
}

/// Every sequence of events leaves a well-formed node well-formed, and moves its hard state
/// only forward.
pub proof fn lemma_events_move_forward(node: NodeState, events: Seq<Event>)
    requires
        node.wf(),
    ensures
        node.after_all(events).wf(),
        follows(node.hard_state, node.after_all(events).hard_state),
    decreases events.len(),
{
    if events.len() > 0 {
        lemma_events_move_forward(node, events.drop_last());
        lemma_event_keeps_wf(node.after_all(events.drop_last()), events.last());
    }
}

/// Handling `events` is handling the first `k` of them and then the rest.
pub proof fn lemma_events_split(node: NodeState, events: Seq<Event>, k: int)
    requires
        0 <= k <= events.len(),
    ensures
        node.after_all(events) == node.after_all(events.take(k)).after_all(events.skip(k)),
    decreases events.len(),
{
    if k == events.len() {
        assert(events.take(k) == events);
        assert(events.skip(k).len() == 0);
    } else {
        lemma_events_split(node, events.drop_last(), k);
        assert(events.drop_last().take(k) == events.take(k));
        assert(events.drop_last().skip(k) == events.skip(k).drop_last());
        assert(events.skip(k).last() == events.last());
    }
}

/// The term of a node never decreases, and within a term its vote never changes once it is
/// cast, whatever the event.
pub proof fn law_term_and_vote_move_forward(node: NodeState, event: Event)
    requires
        node.wf(),
    ensures
        follows(node.hard_state, node.after(event).hard_state),
{
}

/// A vote leaves the node in the term of the vote, with the vote on record.
pub proof fn law_vote_is_recorded(node: NodeState, event: Event)
    requires
        node.wf(),
    ensures
        vote_cast(node, event) matches Some((term, candidate)) ==> node.after(event).hard_state
            == (HardState { current_term: term, voted_for: Some(candidate) }),
{
}

/// A node casts at most one vote per term: if, in the course of any sequence of events, it
/// votes twice in the same term, both votes are for the same candidate.
pub proof fn law_one_vote_per_term(
    node: NodeState,
    events: Seq<Event>,
    i: int,
    j: int,
    term: Term,
    first: NodeId,
    second: NodeId,
)
    requires
        node.wf(),
        0 <= i < j < events.len(),
        vote_cast(node.after_all(events.take(i)), events[i]) == Some((term, first)),
        vote_cast(node.after_all(events.take(j)), events[j]) == Some((term, second)),
    ensures
        first == second,
{
    let at_i = node.after_all(events.take(i));
    let past_i = node.after_all(events.take(i + 1));
    let at_j = node.after_all(events.take(j));
    lemma_events_move_forward(node, events.take(i));
    law_vote_is_recorded(at_i, events[i]);
    assert(past_i == at_i.after(events[i])) by {
        assert(events.take(i + 1).drop_last() == events.take(i));
    }
    lemma_event_keeps_wf(at_i, events[i]);
    // From the first vote to the second the hard state only moves forward.
    let between = events.take(j).skip(i + 1);
    assert(at_j == past_i.after_all(between)) by {
        lemma_events_split(node, events.take(j), i + 1);
        assert(events.take(j).take(i + 1) == events.take(i + 1));
    }
    lemma_events_move_forward(past_i, between);
    law_vote_is_recorded(at_j, events[j]);
    law_term_and_vote_move_forward(at_j, events[j]);
}

/// The same for vote requests alone: of any two requests that a node grants with the same
/// term in its answer, whatever happens in between, the candidates are the same.
pub proof fn law_one_candidate_per_term(
    node: NodeState,
    events: Seq<Event>,
    i: int,
    j: int,
    first: VoteRequest,
    second: VoteRequest,
)
    requires
        node.wf(),
        0 <= i < j < events.len(),
        events[i] == Event::VoteRequestArrived(first),
        events[j] == Event::VoteRequestArrived(second),
        node.after_all(events.take(i)).receive_reply(first) matches Ok(a) && a.vote_granted && (
        node.after_all(events.take(j)).receive_reply(second) matches Ok(b) && b.vote_granted
            && a.term == b.term),
    ensures
        first.candidate_id == second.candidate_id,
{
    let term = node.after_all(events.take(i)).receive_reply(first)->Ok_0.term;
    law_one_vote_per_term(node, events, i, j, term, first.candidate_id, second.candidate_id);
}

/// At most one candidate wins a term. If every member casts at most one vote in the term,
/// so that `vote_of` tells for whom, and each of two candidates has the votes of a majority
/// of the members, then the two are the same node.
pub proof fn law_one_winner_per_term(
    members: Seq<NodeId>,
    vote_of: spec_fn(NodeId) -> Option<NodeId>,
    first: NodeId,
    first_voters: Seq<NodeId>,
    second: NodeId,
    second_voters: Seq<NodeId>,
)
    requires
        members.no_duplicates(),
        first_voters.no_duplicates(),
        second_voters.no_duplicates(),
        first_voters.len() >= quorum(members.len()),
        second_voters.len() >= quorum(members.len()),
        forall|i: int|
            0 <= i < first_voters.len() ==> members.contains(#[trigger] first_voters[i])
                && vote_of(first_voters[i]) == Some(first),
        forall|i: int|
            0 <= i < second_voters.len() ==> members.contains(#[trigger] second_voters[i])
                && vote_of(second_voters[i]) == Some(second),
    ensures
        first == second,
{
    law_majorities_share_a_member(members, first_voters, second_voters);
    let voter = choose|id: NodeId| first_voters.contains(id) && second_voters.contains(id);
    let i = choose|i: int| 0 <= i < first_voters.len() && first_voters[i] == voter;
    let j = choose|j: int| 0 <= j < second_voters.len() && second_voters[j] == voter;
    assert(vote_of(first_voters[i]) == Some(first));
    assert(vote_of(second_voters[j]) == Some(second));
}

/// A granted vote is for a term that is not behind the node's, and leaves the node in the
/// later of its own term and the request's.
pub proof fn law_grant_moves_to_later_term(node: NodeState, req: VoteRequest)
    requires
        node.wf(),
        node.receive_reply(req) matches Ok(res) && res.vote_granted,
    ensures
        req.term >= node.current_term(),
        node.received(req).current_term() == vstd::math::max(
            node.current_term() as int,
            req.term as int,
        ),
{
}

/// A candidate whose log ends before the node's gets no vote, however new its term.
pub proof fn law_stale_log_gets_no_vote(node: NodeState, req: VoteRequest)
    requires
        req.last_log_term < node.last_log_term || (req.last_log_term == node.last_log_term
            && req.last_log_index < node.last_log_index),
    ensures
        !(node.receive_reply(req) matches Ok(res) && res.vote_granted),
        node.received(req) == node,
        node.receive_actions(req) == Seq::<Action>::empty(),
{
}

/// A request of an older term gets the node's term and no vote, and changes nothing.
pub proof fn law_stale_term_gets_no_vote(node: NodeState, req: VoteRequest)
    requires
        !(node.state is Initializing),
        node.members.contains(req.candidate_id),
        req.term < node.current_term(),
    ensures
        node.receive_reply(req) == Ok::<VoteResponse, Rejected>(
            VoteResponse { term: node.current_term(), vote_granted: false },
        ),
        node.received(req) == node,
        node.receive_actions(req) == Seq::<Action>::empty(),
{
}

/// A node becomes leader only as a candidate, by a granted vote that brings its tally to
/// a majority.
pub proof fn law_leader_has_majority(node: NodeState, event: Event)
    requires
        node.wf(),
        !(node.state is Leader),
        node.after(event).state is Leader,
    ensures
        event matches Event::VoteResponseArrived { request, response } && response.vote_granted
            && node.awaits(request),
        node.state matches RaftState::Candidate { votes_granted, votes_needed } && votes_granted
            + 1 >= votes_needed && votes_needed == quorum(node.members.len()),
{
}

/// Handling the same request a second time gives the same answer as the first and leaves
/// the hard state as the first left it, with nothing to write.
pub proof fn law_repeated_request_is_idempotent(node: NodeState, req: VoteRequest)
    requires
        node.wf(),
    ensures
        node.received(req).receive_reply(req) == node.receive_reply(req),
        node.received(req).received(req).hard_state == node.received(req).hard_state,
        node.received(req).received(req) == node.received(req),
        forall|k: int|
            0 <= k < node.received(req).receive_actions(req).len() ==> !(
            #[trigger] node.received(req).receive_actions(req)[k] is Persist),
{
}

/// Roles change only along the allowed moves. A leader or a candidate falls back to
/// follower only when the node moves to a later term, a follower becomes candidate only
/// in the next term, and a candidate stays candidate in its term or in the next.
pub proof fn law_roles_move_as_allowed(node: NodeState, event: Event)
    requires
        node.wf(),
    ensures
        may_become(node.state, node.after(event).state),
        (node.state is Leader || node.state is Candidate) && node.after(event).state is Follower
            ==> node.after(event).current_term() > node.current_term(),
        node.state is Follower && node.after(event).state is Candidate ==> node.after(
            event,
        ).current_term() == node.current_term() + 1,
        node.state is Candidate && node.after(event).state is Candidate ==> node.after(
            event,
        ).current_term() == node.current_term() || node.after(event).current_term()
            == node.current_term() + 1,
{
}

/// The hard state changes only together with the request to write it, what is written is
/// the new hard state, and no request is sent before it is written. Startup alone sets
/// the hard state without writing it: it is what storage held.
pub proof fn law_hard_state_is_persisted(node: NodeState, event: Event)
    requires
        node.wf(),
        !(event is StartupComplete),
    ensures
        node.after(event).hard_state != node.hard_state <==> node.actions_on(event).contains(
            Action::Persist(node.after(event).hard_state),
        ),
        forall|k: int|
            0 <= k < node.actions_on(event).len() && (#[trigger] node.actions_on(event)[k])
                is Persist ==> node.actions_on(event)[k] == Action::Persist(
                node.after(event).hard_state,
            ) && node.after(event).hard_state != node.hard_state,
        persists_before_sending(node.actions_on(event)),
{
    let actions = node.actions_on(event);
    let after = node.after(event);
    match event {
        Event::ElectionTimeout => {
            if node.can_campaign() {
                let asks = after.solicitations();
                assert(actions[0] == Action::Persist(after.hard_state));
                assert forall|k: int| 2 <= k < actions.len() implies actions[k] is Send by {
                    assert(actions[k] == asks[k - 2]);
                }
            }
        },
        Event::VoteRequestArrived(req) => {
            if node.receive_actions(req).len() > 0 {
                if node.yields_to(req) {
                    assert(actions[2] == Action::Persist(after.hard_state));
                } else if after.hard_state != node.hard_state {
                    assert(actions[0] == Action::Persist(after.hard_state));
                }
            }
        },
        Event::VoteResponseArrived { request, response } => {
            if node.awaits(request) && response.term > node.current_term() {
                assert(actions[2] == Action::Persist(after.hard_state));
            }
        },
        _ => {},
    }
}

/// A node resets its election timer whenever it casts a vote and whenever it becomes
/// follower or starts a candidacy.
pub proof fn law_timer_is_reset(node: NodeState, event: Event)
    requires
        node.wf(),
    ensures
        vote_cast(node, event) is Some ==> node.actions_on(event).contains(
            Action::ResetElectionTimer,
        ),
        node.after(event).state is Follower && !(node.state is Follower)
            ==> node.actions_on(event).contains(Action::ResetElectionTimer),
        node.after(event).state is Candidate && node.after(event).current_term()
            != node.current_term() ==> node.actions_on(event).contains(
            Action::ResetElectionTimer,
        ),
{
    let actions = node.actions_on(event);
    match event {
        Event::StartupComplete { .. } => {
            if node.state is Initializing {
                assert(actions[0] == Action::ResetElectionTimer);
            }
        },
        Event::ElectionTimeout => {
            if node.can_campaign() {
                assert(actions[1] == Action::ResetElectionTimer);
            }
        },
        Event::VoteRequestArrived(req) => {
            if !(node.state is Initializing) && node.grants(req) {
                if node.yields_to(req) || node.voted(req).hard_state == node.hard_state {
                    assert(actions[0] == Action::ResetElectionTimer);
                } else {
                    assert(actions[1] == Action::ResetElectionTimer);
                }
            }
        },
        Event::VoteResponseArrived { request, response } => {
            if node.awaits(request) && response.term > node.current_term() {
                assert(actions[0] == Action::ResetElectionTimer);
            }
        },
        Event::LogChanged { .. } => {},
    }
}

/// A candidate asks each other member for its vote once, and nobody else.
pub proof fn law_one_request_per_peer(node: NodeState)
    requires
        node.wf(),
    ensures
        node.peers().no_duplicates(),
        forall|member: NodeId| #[trigger]
            node.peers().contains(member) <==> node.members.contains(member) && member
                != node.id,
        node.solicitations().len() == node.peers().len(),
        forall|k: int|
            0 <= k < node.peers().len() ==> #[trigger] node.solicitations()[k] == Action::Send(
                node.vote_request_to(node.peers()[k]),
            ),
{
    lemma_others(node.id, node.members);
}

} // verus!
