use vstd::prelude::*;
use crate::address::NodeAddress;
use crate::election::VoteTally;
use crate::message::{RequestVoteRequest, RequestVoteResponse};
use crate::server::{RaftRpcImpl, last_index_of};
use crate::state::NodeState;

verus! {

/// `m` with value `v` for every member of `members` other than `me`.
pub open spec fn with_peers_set(m: Map<NodeAddress, i32>, members: Seq<NodeAddress>, me: NodeAddress, v: i32) -> Map<NodeAddress, i32> {
    m.union_prefer_right(Map::new(|k: NodeAddress| members.contains(k) && k != me, |k: NodeAddress| v))
}

proof fn lemma_push_contains(s: Seq<NodeAddress>, x: NodeAddress)
    ensures
        forall|k: NodeAddress| #[trigger] s.push(x).contains(k) <==> s.contains(k) || k == x,
{
    assert forall|k: NodeAddress| #[trigger] s.push(x).contains(k) <==> s.contains(k) || k == x by {
        if s.push(x).contains(k) && k != x {
            let j = choose|j: int| 0 <= j < s.push(x).len() && s.push(x)[j] == k;
            assert(s[j] == k);
        }
        if s.contains(k) {
            let j = choose|j: int| 0 <= j < s.len() && s[j] == k;
            assert(s.push(x)[j] == k);
        }
        if k == x {
            assert(s.push(x)[s.len() as int] == k);
        }
    }
}

/// Setting a value for the peers overrides whatever was recorded for them:
/// every member other than `me` maps to `v`, and every other address keeps
/// exactly what `m` recorded for it (or stays absent).
pub proof fn lemma_with_peers_set_overrides(m: Map<NodeAddress, i32>, members: Seq<NodeAddress>, me: NodeAddress, v: i32)
    ensures
        forall|k: NodeAddress| #[trigger] members.contains(k) && k != me ==>
            with_peers_set(m, members, me, v).contains_key(k) && with_peers_set(m, members, me, v)[k] == v,
        forall|k: NodeAddress| !(members.contains(k) && k != me) ==>
            (#[trigger] with_peers_set(m, members, me, v).contains_key(k) == m.contains_key(k))
            && (m.contains_key(k) ==> with_peers_set(m, members, me, v)[k] == m[k]),
{
}

/// How an election starts.
#[derive(Debug, Clone, Copy, PartialEq, Eq, Structural)]
pub enum ElectionStart {
    /// The cluster has at most one member: the node leads at once.
    WonUnopposed,
    /// Votes must be requested; the candidate's last log term goes into each request.
    Campaign { last_log_term: i32 },
}

/// What a node's main loop does next.
#[derive(Debug, Clone, Copy, PartialEq, Eq, Structural)]
pub enum DriverAction {
    /// The follower's heartbeat timer ran out: it stands for election.
    StandForElection,
    /// Nothing to do yet.
    Wait,
    /// The leader replicates its log (its heartbeat) and then sleeps a heartbeat interval.
    Replicate,
}

impl RaftRpcImpl {
    /// What the main loop does next: a follower whose heartbeat timer ran out
    /// stands for election, a leader replicates, and otherwise the node waits.
    pub fn next_action(&self, heartbeat_expired: bool) -> (a: DriverAction)
        ensures
            a == (match self.node.state {
                NodeState::Follower => if heartbeat_expired { DriverAction::StandForElection } else { DriverAction::Wait },
                NodeState::Candidate => DriverAction::Wait,
                NodeState::Leader => DriverAction::Replicate,
            }),
    {
        match self.node.state {
            NodeState::Follower => if heartbeat_expired { DriverAction::StandForElection } else { DriverAction::Wait },
            NodeState::Candidate => DriverAction::Wait,
            NodeState::Leader => DriverAction::Replicate,
        }
    }

    /// Prepares leadership: every other member's next index becomes the log's
    /// length and its match index -1.
    pub fn init_leader_indices(&mut self)
        requires
            old(self).wf(),
        ensures
            final(self).wf(),
            final(self).node.next_index@ == with_peers_set(old(self).node.next_index@, old(self).config@, old(self).node.address, old(self).node.log@.len() as i32),
            final(self).node.match_index@ == with_peers_set(old(self).node.match_index@, old(self).config@, old(self).node.address, -1i32),
            forall|k: NodeAddress| #[trigger] old(self).config@.contains(k) && k != old(self).node.address ==> {
                &&& final(self).node.next_index@.contains_key(k)
                &&& final(self).node.next_index@[k] == old(self).node.log@.len()
                &&& final(self).node.match_index@.contains_key(k)
                &&& final(self).node.match_index@[k] == -1
            },
            final(self).node.address == old(self).node.address,
            final(self).node.current_term == old(self).node.current_term,
            final(self).node.voted_for == old(self).node.voted_for,
            final(self).node.log@ == old(self).node.log@,
            final(self).node.commit_index == old(self).node.commit_index,
            final(self).node.last_applied == old(self).node.last_applied,
            final(self).node.state == old(self).node.state,
            final(self).node.leader_address == old(self).node.leader_address,
            final(self).state_machine == old(self).state_machine,
            final(self).config == old(self).config,
    {
        let loglen = self.log_len();
        let me = self.node.address;
        let ghost next0 = self.node.next_index@;
        let ghost match0 = self.node.match_index@;
        let mut i: usize = 0;
        while i < self.config.node_address_list.len()
            invariant
                self.wf(),
                i <= self.config@.len(),
                me == self.node.address,
                self.config == old(self).config,
                loglen == self.node.log@.len(),
                self.node.address == old(self).node.address,
                self.node.current_term == old(self).node.current_term,
                self.node.voted_for == old(self).node.voted_for,
                self.node.log@ == old(self).node.log@,
                self.node.commit_index == old(self).node.commit_index,
                self.node.last_applied == old(self).node.last_applied,
                self.node.state == old(self).node.state,
                self.node.leader_address == old(self).node.leader_address,
                self.state_machine == old(self).state_machine,
                next0 == old(self).node.next_index@,
                match0 == old(self).node.match_index@,
                self.node.next_index@ == with_peers_set(next0, self.config@.subrange(0, i as int), me, loglen),
                self.node.match_index@ == with_peers_set(match0, self.config@.subrange(0, i as int), me, -1i32),
            decreases self.config@.len() - i,
        {
            let socket = self.config.node_address_list[i];
            let ghost before = self.config@.subrange(0, i as int);
            let ghost after = self.config@.subrange(0, i + 1);
            assert(after =~= before.push(socket));
            proof {
                lemma_push_contains(before, socket);
            }
            if socket != me {
                self.node.next_index.insert(socket, loglen);
                self.node.match_index.insert(socket, -1i32);
                assert(with_peers_set(next0, before, me, loglen).insert(socket, loglen) =~= with_peers_set(next0, after, me, loglen));
                assert(with_peers_set(match0, before, me, -1i32).insert(socket, -1i32) =~= with_peers_set(match0, after, me, -1i32));
            } else {
                assert(with_peers_set(next0, before, me, loglen) =~= with_peers_set(next0, after, me, loglen));
                assert(with_peers_set(match0, before, me, -1i32) =~= with_peers_set(match0, after, me, -1i32));
            }
            i += 1;
        }
        assert(self.config@.subrange(0, self.config@.len() as int) =~= self.config@);
        proof {
            lemma_with_peers_set_overrides(next0, self.config@, me, loglen);
            lemma_with_peers_set_overrides(match0, self.config@, me, -1i32);
        }
    }

    /// A follower whose heartbeat timer ran out stands for election: it moves
    /// to the next term, becomes a candidate (forgetting the leader) and votes for itself.
    pub fn on_election_timeout(&mut self)
        requires
            old(self).wf(),
            old(self).node.current_term < i32::MAX,
        ensures
            final(self).wf(),
            final(self).node.current_term == old(self).node.current_term + 1,
            final(self).node.state == NodeState::Candidate,
            final(self).node.leader_address is None,
            final(self).node.voted_for == Some(old(self).node.address.port as i32),
            final(self).node.address == old(self).node.address,
            final(self).node.log@ == old(self).node.log@,
            final(self).node.commit_index == old(self).node.commit_index,
            final(self).node.last_applied == old(self).node.last_applied,
            final(self).node.next_index == old(self).node.next_index,
            final(self).node.match_index == old(self).node.match_index,
            final(self).state_machine == old(self).state_machine,
            final(self).config == old(self).config,
    {
        self.node.current_term = self.node.current_term + 1;
        self.change_state_to(NodeState::Candidate);
        self.node.voted_for = Some(self.node.address.node_id());
    }

    /// Starts an election: in a cluster of at most one member the node prepares
    /// leadership and becomes leader at once; otherwise it campaigns with the
    /// term of its last log entry.
    pub fn begin_request_voting(&mut self) -> (start: ElectionStart)
        requires
            old(self).wf(),
        ensures
            final(self).wf(),
            old(self).config@.len() <= 1 ==> {
                &&& start == ElectionStart::WonUnopposed
                &&& final(self).node.state == NodeState::Leader
                &&& final(self).node.leader_address == Some(old(self).node.address)
                &&& final(self).node.next_index@ == with_peers_set(old(self).node.next_index@, old(self).config@, old(self).node.address, old(self).node.log@.len() as i32)
                &&& final(self).node.match_index@ == with_peers_set(old(self).node.match_index@, old(self).config@, old(self).node.address, -1i32)
                &&& forall|k: NodeAddress| #[trigger] old(self).config@.contains(k) && k != old(self).node.address ==> {
                    &&& final(self).node.next_index@.contains_key(k)
                    &&& final(self).node.next_index@[k] == old(self).node.log@.len()
                    &&& final(self).node.match_index@.contains_key(k)
                    &&& final(self).node.match_index@[k] == -1
                }
            },
            old(self).config@.len() > 1 ==> {
                &&& start == ElectionStart::Campaign { last_log_term: crate::server::last_term_of(old(self).node.log@) as i32 }
                &&& final(self).node == old(self).node
            },
            final(self).node.address == old(self).node.address,
            final(self).node.current_term == old(self).node.current_term,
            final(self).node.voted_for == old(self).node.voted_for,
            final(self).node.log@ == old(self).node.log@,
            final(self).node.commit_index == old(self).node.commit_index,
            final(self).node.last_applied == old(self).node.last_applied,
            final(self).state_machine == old(self).state_machine,
            final(self).config == old(self).config,
    {
        if self.config.len() <= 1 {
            self.init_leader_indices();
            self.change_state_to(NodeState::Leader);
            return ElectionStart::WonUnopposed;
        }
        ElectionStart::Campaign { last_log_term: self.last_log_term() }
    }

    /// A fresh tally for one election round: the node's own vote, to be
    /// exceeded by more than half the members.
    pub fn start_vote_tally(&self) -> (t: VoteTally)
        ensures
            t.wf(),
            t@ == seq![self.node.address.port as i32],
            t.majority == self.config@.len() / 2,
    {
        VoteTally::new(self.node.address.node_id(), self.config.len() / 2)
    }

    /// The vote request of this round: the node's term, identifier, last log
    /// position and `last_log_term`, and its address.
    pub fn request_vote_request(&self, last_log_term: i32) -> (req: RequestVoteRequest)
        requires
            self.wf(),
        ensures
            req == (RequestVoteRequest {
                term: self.node.current_term,
                candidate_id: self.node.address.port as i32,
                last_log_index: last_index_of(self.node.log@) as i32,
                last_log_term,
                candidate_address: self.node.address,
            }),
    {
        RequestVoteRequest {
            term: self.node.current_term,
            candidate_id: self.node.address.node_id(),
            last_log_index: self.last_log_index(),
            last_log_term,
            candidate_address: self.node.address,
        }
    }

    /// Takes in `peer`'s answer to a vote request. While the node is still a
    /// candidate in the answer's term, a granted vote is counted, and once more
    /// than half the members' worth of distinct votes are in, the node prepares
    /// leadership and becomes leader. An answer from a newer term makes the node
    /// a follower of that term with no vote, taking `peer` as leader and
    /// restarting its heartbeat timer (the answer).
    pub fn on_request_vote_response(&mut self, tally: &mut VoteTally, peer: &NodeAddress, resp: RequestVoteResponse) -> (reset_heartbeat_timer: bool)
        requires
            old(self).wf(),
            old(tally).wf(),
        ensures
            final(self).wf(),
            final(tally).wf(),
            final(tally).majority == old(tally).majority,
            ({
                let t0 = old(self).node.current_term;
                let counted = old(self).node.state == NodeState::Candidate && resp.term == t0 && resp.vote_granted;
                let id = peer.port as i32;
                let votes = if old(tally)@.contains(id) { old(tally)@ } else { old(tally)@.push(id) };
                let won = counted && votes.len() > old(tally).majority;
                &&& counted ==> final(tally)@ == votes
                &&& !counted ==> final(tally)@ == old(tally)@
                &&& won ==> {
                    &&& final(self).node.state == NodeState::Leader
                    &&& final(self).node.leader_address == Some(old(self).node.address)
                    &&& final(self).node.next_index@ == with_peers_set(old(self).node.next_index@, old(self).config@, old(self).node.address, old(self).node.log@.len() as i32)
                    &&& final(self).node.match_index@ == with_peers_set(old(self).node.match_index@, old(self).config@, old(self).node.address, -1i32)
                    &&& forall|k: NodeAddress| #[trigger] old(self).config@.contains(k) && k != old(self).node.address ==> {
                        &&& final(self).node.next_index@.contains_key(k)
                        &&& final(self).node.next_index@[k] == old(self).node.log@.len()
                        &&& final(self).node.match_index@.contains_key(k)
                        &&& final(self).node.match_index@[k] == -1
                    }
                    &&& final(self).node.current_term == t0
                    &&& final(self).node.voted_for == old(self).node.voted_for
                    &&& !reset_heartbeat_timer
                }
                &&& (counted && !won) ==> final(self).node == old(self).node && !reset_heartbeat_timer
                &&& (!counted && resp.term > t0) ==> {
                    &&& final(self).node.state == NodeState::Follower
                    &&& final(self).node.leader_address == Some(*peer)
                    &&& final(self).node.current_term == resp.term
                    &&& final(self).node.voted_for is None
                    &&& final(self).node.next_index == old(self).node.next_index
                    &&& final(self).node.match_index == old(self).node.match_index
                    &&& reset_heartbeat_timer
                }
                &&& (!counted && resp.term <= t0) ==> final(self).node == old(self).node && !reset_heartbeat_timer
                &&& final(self).node.current_term >= t0
                &&& (final(self).node.state == NodeState::Leader && old(self).node.state != NodeState::Leader) ==> final(tally)@.len() > final(tally).majority
            }),
            final(self).node.address == old(self).node.address,
            final(self).node.log@ == old(self).node.log@,
            final(self).node.commit_index == old(self).node.commit_index,
            final(self).node.last_applied == old(self).node.last_applied,
            final(self).state_machine == old(self).state_machine,
            final(self).config == old(self).config,
    {
        if self.node.state == NodeState::Candidate && resp.term == self.node.current_term && resp.vote_granted {
            tally.insert(peer.node_id());
            if tally.count() > tally.majority {
                self.init_leader_indices();
                self.change_state_to(NodeState::Leader);
            }
            false
        } else if resp.term > self.node.current_term {
            self.change_state_to(NodeState::Follower);
            self.node.leader_address = Some(*peer);
            self.node.current_term = resp.term;
            self.node.voted_for = None;
            true
        } else {
            false
        }
    }

    /// Ends an election round: a node that is still a candidate moves to the
    /// next term, votes for itself again and goes on (the answer); otherwise the
    /// election is over and nothing changes.
    pub fn finish_election_round(&mut self) -> (again: bool)
        requires
            old(self).wf(),
            old(self).node.state == NodeState::Candidate ==> old(self).node.current_term < i32::MAX,
        ensures
            final(self).wf(),
            again == (old(self).node.state == NodeState::Candidate),
            again ==> {
                &&& final(self).node.current_term == old(self).node.current_term + 1
                &&& final(self).node.voted_for == Some(old(self).node.address.port as i32)
                &&& final(self).node.state == old(self).node.state
                &&& final(self).node.leader_address == old(self).node.leader_address
                &&& final(self).node.log@ == old(self).node.log@
                &&& final(self).node.commit_index == old(self).node.commit_index
                &&& final(self).node.last_applied == old(self).node.last_applied
                &&& final(self).node.next_index == old(self).node.next_index
                &&& final(self).node.match_index == old(self).node.match_index
                &&& final(self).node.address == old(self).node.address
            },
            !again ==> final(self).node == old(self).node,
            final(self).state_machine == old(self).state_machine,
            final(self).config == old(self).config,
    {
        if self.node.state != NodeState::Candidate {
            false
        } else {
            self.node.current_term = self.node.current_term + 1;
            self.node.voted_for = Some(self.node.address.node_id());
            true
        }
    }
}

} // verus!
