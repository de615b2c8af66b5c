use raft_election::{
    Action, HardState, Membership, Raft, RaftState, VoteRequest, VoteResponse,
};

/// A follower among the members 1, 2 and 3.
fn started(id: u64, hard_state: HardState, last_log_index: u64, last_log_term: u64) -> Raft {
    let mut node = Raft::new(id, Membership::new(vec![1, 2, 3]).unwrap());
    let mut ctx = Vec::new();
    assert!(node.start(&mut ctx, hard_state, last_log_index, last_log_term));
    assert_eq!(node.state(), RaftState::Follower);
    node
}

fn sent_to(ctx: &Vec<Action>, target: u64) -> VoteRequest {
    for action in ctx {
        if let Action::Send(rpc) = action {
            if rpc.target == target {
                return *rpc;
            }
        }
    }
    panic!("no vote request was sent to node {}", target);
}

#[test]
fn three_nodes_elect_the_first_to_time_out() {
    let fresh = HardState { current_term: 0, voted_for: None };
    let mut node1 = started(1, fresh, 0, 0);
    let mut node2 = started(2, fresh, 0, 0);
    let mut node3 = started(3, fresh, 0, 0);

    // Node 1's timer fires first.
    let mut ctx1 = Vec::new();
    assert!(node1.election_timeout(&mut ctx1));
    assert_eq!(node1.state(), RaftState::Candidate { votes_granted: 1, votes_needed: 2 });
    assert_eq!(node1.current_term(), 1);
    let mut votes_granted = 1;
    let votes_needed = 2;
    let to_node2 = sent_to(&ctx1, 2);
    let to_node3 = sent_to(&ctx1, 3);
    assert_eq!(to_node2, VoteRequest::new(2, 1, 1, 0, 0));
    assert_eq!(to_node3, VoteRequest::new(3, 1, 1, 0, 0));
    assert_eq!((to_node2.last_log_index, to_node2.last_log_term), (0, 0));
    assert_eq!((to_node3.last_log_index, to_node3.last_log_term), (0, 0));

    // Both grant.
    let mut ctx2 = Vec::new();
    let from_node2 = node2.handle(to_node2, &mut ctx2).unwrap();
    assert_eq!(from_node2, VoteResponse { term: 1, vote_granted: true });
    let mut ctx3 = Vec::new();
    let from_node3 = node3.handle(to_node3, &mut ctx3).unwrap();
    assert_eq!(from_node3, VoteResponse { term: 1, vote_granted: true });
    for response in [from_node2, from_node3] {
        if response.vote_granted {
            votes_granted += 1;
        }
    }

    // Node 1 is leader from the vote that completes the majority.
    ctx1.clear();
    node1.handle_vote_response(&mut ctx1, to_node2, from_node2);
    assert_eq!(node1.state(), RaftState::Leader);
    node1.handle_vote_response(&mut ctx1, to_node3, from_node3);
    assert_eq!(node1.state(), RaftState::Leader);
    assert_eq!(votes_granted, 3);
    assert!(votes_granted >= votes_needed);
    assert_eq!(node1.current_leader(), Some(1));
    assert_eq!(node1.current_term(), 1);
    assert_eq!(ctx1, vec![Action::NotifyLeader(Some(1))]);
    assert_eq!(node2.voted_for(), Some(1));
    assert_eq!(node3.voted_for(), Some(1));
}

#[test]
fn request_of_term_3_at_term_5_is_refused() {
    let mut node1 = started(1, HardState { current_term: 5, voted_for: None }, 0, 0);
    let mut ctx = Vec::new();
    let response = node1.handle(VoteRequest::new(1, 3, 2, 0, 0), &mut ctx);
    assert_eq!(response, Ok(VoteResponse { term: 5, vote_granted: false }));
    // No state mutated.
    assert_eq!(node1.hard_state(), HardState { current_term: 5, voted_for: None });
    assert_eq!(node1.state(), RaftState::Follower);
    assert_eq!(node1.current_leader(), None);
    assert_eq!((node1.last_log_index(), node1.last_log_term()), (0, 0));
    assert!(ctx.is_empty());
}

#[test]
fn follower_votes_for_a_candidate_with_a_longer_log() {
    let mut node1 = started(1, HardState { current_term: 2, voted_for: None }, 8, 2);
    let mut ctx = Vec::new();
    let response = node1.handle(VoteRequest::new(1, 2, 2, 10, 2), &mut ctx).unwrap();
    assert!(response.vote_granted);
    assert_eq!(response, VoteResponse { term: 2, vote_granted: true });
    assert_eq!(node1.voted_for(), Some(2));
    assert_eq!(node1.current_term(), 2);
}

#[test]
fn vote_of_term_4_is_not_given_twice() {
    let mut node1 = started(1, HardState { current_term: 4, voted_for: Some(2) }, 0, 0);
    let mut ctx = Vec::new();
    let response = node1.handle(VoteRequest::new(1, 4, 3, 0, 0), &mut ctx);
    assert_eq!(response, Ok(VoteResponse { term: 4, vote_granted: false }));
    assert_eq!(node1.voted_for(), Some(2));
    assert!(ctx.is_empty());
}

#[test]
fn candidate_steps_down_on_a_later_term() {
    let mut node = Raft::new(1, Membership::new(vec![1, 2, 3, 4, 5]).unwrap());
    let mut ctx = Vec::new();
    node.start(&mut ctx, HardState { current_term: 5, voted_for: None }, 0, 0);
    assert!(node.election_timeout(&mut ctx));
    assert_eq!(node.current_term(), 6);
    assert_eq!(node.state(), RaftState::Candidate { votes_granted: 1, votes_needed: 3 });
    let rpc = sent_to(&ctx, 2);
    ctx.clear();

    node.handle_vote_response(&mut ctx, rpc, VoteResponse { term: 7, vote_granted: false });
    assert_eq!(node.state(), RaftState::Follower);
    assert_eq!(node.current_term(), 7);
    assert_eq!(node.current_leader(), None);
    let recorded = HardState { current_term: 7, voted_for: Some(1) };
    assert_eq!(node.hard_state(), recorded);
    assert_eq!(
        ctx,
        vec![Action::ResetElectionTimer, Action::NotifyLeader(None), Action::Persist(recorded)]
    );

    // The election is given up: votes for it no longer count.
    ctx.clear();
    node.handle_vote_response(
        &mut ctx,
        VoteRequest::new(3, 6, 1, 0, 0),
        VoteResponse { term: 6, vote_granted: true },
    );
    assert_eq!(node.state(), RaftState::Follower);
    assert!(ctx.is_empty());
}
