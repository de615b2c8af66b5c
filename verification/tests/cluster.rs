use raft_election::{
    Action, ElectionTimer, HardState, Membership, Raft, RaftState, VoteRequest, VoteResponse,
};

/// Numbers that look random and are the same on every run.
struct Dice(u64);

impl Dice {
    fn roll(&mut self) -> u64 {
        self.0 = self.0.wrapping_mul(6364136223846793005).wrapping_add(1442695040888963407);
        self.0 >> 33
    }
}

enum Letter {
    Request(VoteRequest),
    Response { request: VoteRequest, response: VoteResponse },
}

/// Five nodes, their timers and disks, and a network that delays and loses letters.
struct Cluster {
    ids: Vec<u64>,
    nodes: Vec<Raft>,
    timers: Vec<ElectionTimer>,
    disks: Vec<HardState>,
    mail: Vec<(u64, Letter)>,
    now_ms: u64,
    dice: Dice,
    /// Which node became leader in which term.
    leaders: Vec<(u64, u64)>,
    /// Which node granted whom its vote in which term: voter, term, candidate.
    votes: Vec<(u64, u64, u64)>,
    lost_one_in: u64,
}

impl Cluster {
    fn new(seed: u64, lost_one_in: u64) -> Cluster {
        let ids: Vec<u64> = vec![1, 2, 3, 4, 5];
        let mut cluster = Cluster {
            ids: ids.clone(),
            nodes: Vec::new(),
            timers: Vec::new(),
            disks: Vec::new(),
            mail: Vec::new(),
            now_ms: 0,
            dice: Dice(seed),
            leaders: Vec::new(),
            votes: Vec::new(),
            lost_one_in,
        };
        for (at, id) in ids.iter().enumerate() {
            cluster.nodes.push(Raft::new(*id, Membership::new(ids.clone()).unwrap()));
            cluster.timers.push(ElectionTimer::new(150, 300).unwrap());
            cluster.disks.push(HardState { current_term: 0, voted_for: None });
            cluster.boot(at);
        }
        cluster
    }

    fn at(&self, id: u64) -> usize {
        self.ids.iter().position(|known| *known == id).unwrap()
    }

    /// Starts the node from what its disk holds.
    fn boot(&mut self, at: usize) {
        let mut ctx = Vec::new();
        assert!(self.nodes[at].start(&mut ctx, self.disks[at], 0, 0));
        self.perform(at, ctx);
    }

    /// The node loses all it held in memory and starts again.
    fn restart(&mut self, at: usize) {
        self.nodes[at] = Raft::new(self.ids[at], Membership::new(self.ids.clone()).unwrap());
        self.timers[at].cancel();
        self.boot(at);
    }

    fn post(&mut self, letter: Letter) {
        if self.dice.roll() % self.lost_one_in == 0 {
            return;
        }
        let due = self.now_ms + 1 + self.dice.roll() % 40;
        self.mail.push((due, letter));
    }

    fn perform(&mut self, at: usize, actions: Vec<Action>) {
        for action in actions {
            match action {
                Action::Persist(hard_state) => self.disks[at] = hard_state,
                Action::ResetElectionTimer => {
                    let sample = self.dice.roll();
                    let deadline = self.timers[at].reset(self.now_ms, sample);
                    assert!(deadline >= self.now_ms + 150 && deadline < self.now_ms + 300);
                }
                Action::NotifyLeader(Some(leader)) => {
                    assert_eq!(leader, self.ids[at]);
                    assert_eq!(self.nodes[at].state(), RaftState::Leader);
                    self.leaders.push((self.nodes[at].current_term(), leader));
                }
                Action::NotifyLeader(None) => assert_eq!(self.nodes[at].current_leader(), None),
                Action::Send(request) => {
                    // What the request says is on disk before the request leaves.
                    assert_eq!(self.disks[at].current_term, request.term);
                    assert_eq!(self.disks[at].voted_for, Some(request.candidate_id));
                    self.post(Letter::Request(request));
                }
            }
        }
        assert_eq!(self.disks[at], self.nodes[at].hard_state());
    }

    fn deliver(&mut self, letter: Letter) {
        match letter {
            Letter::Request(request) => {
                let at = self.at(request.target);
                let mut ctx = Vec::new();
                let reply = self.nodes[at].handle(request, &mut ctx);
                self.perform(at, ctx);
                let response = reply.unwrap();
                if response.vote_granted {
                    // The vote is on disk before the answer leaves.
                    assert_eq!(
                        self.disks[at],
                        HardState { current_term: response.term, voted_for: Some(request.candidate_id) }
                    );
                    self.votes.push((request.target, response.term, request.candidate_id));
                }
                self.post(Letter::Response { request, response });
            }
            Letter::Response { request, response } => {
                let at = self.at(request.candidate_id);
                let mut ctx = Vec::new();
                self.nodes[at].handle_vote_response(&mut ctx, request, response);
                self.perform(at, ctx);
            }
        }
    }

    /// Lets the next thing happen: a letter arrives or a timer fires, whichever is due first.
    fn step(&mut self) {
        let next_letter = (0..self.mail.len()).min_by_key(|i| self.mail[*i].0);
        let next_timer = (0..self.timers.len())
            .filter(|at| self.timers[*at].deadline().is_some())
            .min_by_key(|at| self.timers[*at].deadline());
        let letter_due = next_letter.map(|i| self.mail[i].0);
        let timer_due = next_timer.and_then(|at| self.timers[at].deadline());
        match (letter_due, timer_due) {
            (Some(letter), Some(timer)) if letter <= timer => self.take_letter(next_letter.unwrap()),
            (Some(_), None) => self.take_letter(next_letter.unwrap()),
            (_, Some(_)) => self.fire_timer(next_timer.unwrap()),
            (None, None) => {}
        }
    }

    fn take_letter(&mut self, i: usize) {
        let (due, letter) = self.mail.remove(i);
        self.now_ms = self.now_ms.max(due);
        self.deliver(letter);
    }

    fn fire_timer(&mut self, at: usize) {
        let due = self.timers[at].deadline().unwrap();
        self.now_ms = self.now_ms.max(due);
        assert!(self.timers[at].fire(self.now_ms));
        let before = self.nodes[at].state();
        let mut ctx = Vec::new();
        let campaigns = self.nodes[at].election_timeout(&mut ctx);
        assert_eq!(campaigns, before != RaftState::Leader);
        self.perform(at, ctx);
    }

    fn check(&self) {
        for (term, leader) in &self.leaders {
            for (other_term, other_leader) in &self.leaders {
                if term == other_term {
                    assert_eq!(leader, other_leader, "two leaders in term {}", term);
                }
            }
            // The leader's own vote and the votes granted to it make a majority.
            let mut voters: Vec<u64> = vec![*leader];
            for (voter, vote_term, candidate) in &self.votes {
                if vote_term == term && candidate == leader && !voters.contains(voter) {
                    voters.push(*voter);
                }
            }
            assert!(voters.len() >= 3, "leader {} of term {} lacks a majority", leader, term);
        }
        for (voter, term, candidate) in &self.votes {
            for (other_voter, other_term, other_candidate) in &self.votes {
                if voter == other_voter && term == other_term {
                    assert_eq!(candidate, other_candidate, "node {} voted twice", voter);
                }
            }
        }
    }
}

#[test]
fn cluster_elects_one_leader_per_term() {
    for seed in 1..=20 {
        let mut cluster = Cluster::new(seed, 10);
        for _ in 0..1500 {
            cluster.step();
        }
        cluster.check();
        assert!(!cluster.leaders.is_empty(), "no leader with seed {}", seed);
    }
}

#[test]
fn cluster_stays_safe_when_nodes_restart() {
    for seed in 21..=40 {
        let mut cluster = Cluster::new(seed, 4);
        for round in 0..1500 {
            cluster.step();
            if round % 97 == 0 {
                let at = usize::try_from(cluster.dice.roll() % 5).unwrap();
                cluster.restart(at);
            }
        }
        cluster.check();
    }
}

#[test]
fn cluster_without_losses_elects_in_the_first_term() {
    let mut cluster = Cluster::new(7, u64::MAX);
    while cluster.leaders.is_empty() {
        cluster.step();
    }
    cluster.check();
    let (term, leader) = cluster.leaders[0];
    assert_eq!(term, 1);
    let at = cluster.at(leader);
    assert_eq!(cluster.nodes[at].state(), RaftState::Leader);
    assert_eq!(cluster.nodes[at].hard_state(), HardState { current_term: 1, voted_for: Some(leader) });
}
