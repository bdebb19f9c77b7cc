use vstd::prelude::*;
use crate::address::NodeAddress;
use crate::message::{LogEntry, commands_of, duplicate_entries, AppendEntriesRequest, AppendEntriesResponse, Handled};
use crate::queue::{Queue, execute_spec, all_executable, can_execute, can_execute_command};
use crate::server::{RaftRpcImpl, last_index_of, run_log_range};
use crate::state::NodeState;

verus! {

/// What a leader does after a follower answers an append request.
#[derive(Debug, Clone, Copy, PartialEq, Eq, Structural)]
pub enum ReplicationStep {
    /// Stop sending to this follower for now.
    Done,
    /// Send again, starting one entry earlier.
    Retry,
}

/// How many nodes hold the first `length` entries by the leader's count: the
/// leader itself, and each other member whose match index reaches `length - 1`.
pub open spec fn acks_count(members: Seq<NodeAddress>, me: NodeAddress, matches: Map<NodeAddress, i32>, length: int) -> int
    decreases members.len(),
{
    if members.len() == 0 {
        1
    } else {
        let last = members.last();
        acks_count(members.drop_last(), me, matches, length) + (if last != me && matches[last] + 1 >= length { 1int } else { 0int })
    }
}

/// The largest length in `1..=upto` that more than `majority` nodes hold (0 if none).
pub open spec fn largest_ready(members: Seq<NodeAddress>, me: NodeAddress, matches: Map<NodeAddress, i32>, majority: int, upto: int) -> int
    decreases upto,
{
    if upto <= 0 {
        0
    } else if acks_count(members, me, matches, upto) > majority {
        upto
    } else {
        largest_ready(members, me, matches, majority, upto - 1)
    }
}

/// The answer of a commit step that commits nothing.
pub open spec fn no_commit_reply() -> Seq<char> {
    seq!['N', 'o', ' ', 'n', 'e', 'w', ' ', 'e', 'n', 't', 'r', 'i', 'e', 's', ' ', 't', 'o', ' ', 'c', 'o', 'm', 'm', 'i', 't']
}

/// The answer of an attempt to replicate from a node that is not the leader.
pub open spec fn not_leader_reply() -> Seq<char> {
    seq!['N', 'o', 't', ' ', 'l', 'e', 'a', 'd', 'e', 'r']
}

/// A length that the commit step finds ready is held by more than `majority` nodes.
pub proof fn lemma_largest_ready_has_majority(members: Seq<NodeAddress>, me: NodeAddress, matches: Map<NodeAddress, i32>, majority: int, upto: int)
    ensures
        0 <= largest_ready(members, me, matches, majority, upto),
        upto >= 0 ==> largest_ready(members, me, matches, majority, upto) <= upto,
        largest_ready(members, me, matches, majority, upto) > 0 ==> acks_count(members, me, matches, largest_ready(members, me, matches, majority, upto)) > majority,
    decreases upto,
{
    if upto > 0 {
        lemma_largest_ready_has_majority(members, me, matches, majority, upto - 1);
    }
}

/// A longer prefix is held by no more nodes than a shorter one.
pub proof fn lemma_acks_count_non_increasing(members: Seq<NodeAddress>, me: NodeAddress, matches: Map<NodeAddress, i32>, shorter: int, longer: int)
    requires
        shorter <= longer,
    ensures
        acks_count(members, me, matches, longer) <= acks_count(members, me, matches, shorter),
    decreases members.len(),
{
    if members.len() > 0 {
        lemma_acks_count_non_increasing(members.drop_last(), me, matches, shorter, longer);
    }
}

/// The commit target is at least every length up to `upto` that more than
/// `majority` nodes hold.
pub proof fn lemma_largest_ready_covers(members: Seq<NodeAddress>, me: NodeAddress, matches: Map<NodeAddress, i32>, majority: int, upto: int, len: int)
    requires
        1 <= len <= upto,
        acks_count(members, me, matches, len) > majority,
    ensures
        largest_ready(members, me, matches, majority, upto) >= len,
    decreases upto,
{
    if acks_count(members, me, matches, upto) <= majority {
        if len == upto {
        } else {
            lemma_largest_ready_covers(members, me, matches, majority, upto - 1, len);
        }
    }
}

proof fn lemma_acks_bounds(members: Seq<NodeAddress>, me: NodeAddress, matches: Map<NodeAddress, i32>, length: int)
    ensures
        1 <= acks_count(members, me, matches, length) <= members.len() + 1,
    decreases members.len(),
{
    if members.len() > 0 {
        lemma_acks_bounds(members.drop_last(), me, matches, length);
    }
}

/// Runs, in order, the commands of positions `from..to` of `log` (at least one)
/// on `queue`, and answers with what the last of them answered.
fn apply_and_report(queue: &mut Queue, log: &Vec<LogEntry>, from: i32, to: i32) -> (last: String)
    requires
        0 <= from < to <= log@.len(),
        all_executable(commands_of(log@.subrange(from as int, to as int))),
    ensures
        final(queue)@ == run_log_range(old(queue)@, log@, from as int, to as int),
        last@ == execute_spec(run_log_range(old(queue)@, log@, from as int, to - 1), log@[to - 1].command@).1,
{
    let ghost q0 = queue@;
    let mut last = String::new();
    let mut i: i32 = from;
    while i < to
        invariant
            0 <= from <= i <= to,
            to <= log@.len(),
            all_executable(commands_of(log@.subrange(from as int, to as int))),
            queue@ == run_log_range(q0, log@, from as int, i as int),
            i > from ==> last@ == execute_spec(run_log_range(q0, log@, from as int, i - 1), log@[i - 1].command@).1,
        decreases to - i,
    {
        let cmd = log[i as usize].command.clone();
        proof {
            let all = commands_of(log@.subrange(from as int, to as int));
            assert(all[i - from] == cmd@);
            let step = commands_of(log@.subrange(from as int, i + 1));
            assert(step.drop_last() =~= commands_of(log@.subrange(from as int, i as int)));
            assert(step.last() == cmd@);
        }
        last = queue.execute(cmd);
        i += 1;
    }
    last
}

impl RaftRpcImpl {
    /// Every other member has a match index.
    pub open spec fn peers_have_match_index(&self) -> bool {
        forall|k: NodeAddress| #[trigger] self.config@.contains(k) && k != self.node.address ==> self.node.match_index@.contains_key(k)
    }

    /// The length that the commit step takes as committed (0 if none).
    pub open spec fn commit_target(&self) -> int {
        largest_ready(self.config@, self.node.address, self.node.match_index@, (self.config@.len() / 2) as int, self.node.log@.len() as int)
    }

    /// The commit step commits: the target passes the entry after the commit
    /// index, and the last entry it covers is from no later term than the node's.
    /// Two departures from textbook Raft are kept here on purpose: the term test
    /// accepts any term up to the node's (not only its own), and since the
    /// commit index starts at 0 and commits move it only forward past itself,
    /// position 0 of the log is never applied.
    pub open spec fn commit_fires(&self) -> bool {
        let best = self.commit_target();
        best > self.node.commit_index + 1 && self.node.log@[best - 1].term <= self.node.current_term
    }

    /// The commit step runs without a failed lookup: every other member has a
    /// match index (when the log is not empty), and the commands it applies can be run.
    pub open spec fn commit_pre(&self) -> bool {
        &&& self.node.log@.len() < i32::MAX
        &&& self.node.commit_index < i32::MAX
        &&& self.node.log@.len() > 0 ==> self.peers_have_match_index()
        &&& self.commit_fires() ==> all_executable(commands_of(self.node.log@.subrange(self.node.commit_index + 1, self.commit_target())))
    }

    /// The commit step commits every length that more than half the members
    /// hold, when it passes the entry after the commit index and no entry from
    /// it to the end of the log is from a later term than the node's: the
    /// commit fires, and its target reaches that length.
    pub proof fn lemma_commit_covers_majority_length(&self, len: int)
        requires
            self.wf(),
            self.node.commit_index + 1 < len <= self.node.log@.len(),
            acks_count(self.config@, self.node.address, self.node.match_index@, len) > self.config@.len() / 2,
            forall|j: int| len - 1 <= j < self.node.log@.len() ==> #[trigger] self.node.log@[j].term <= self.node.current_term,
        ensures
            self.commit_fires(),
            self.commit_target() >= len,
            self.commit_target() <= self.node.log@.len(),
    {
        let members = self.config@;
        let maj = (self.config@.len() / 2) as int;
        lemma_largest_ready_covers(members, self.node.address, self.node.match_index@, maj, self.node.log@.len() as int, len);
        lemma_largest_ready_has_majority(members, self.node.address, self.node.match_index@, maj, self.node.log@.len() as int);
        let best = self.commit_target();
        assert(self.node.log@[best - 1].term <= self.node.current_term);
    }

    /// The members that a leader replicates to (all but itself); `None` when the node is not the leader.
    pub fn replication_peers(&self) -> (r: Option<Vec<NodeAddress>>)
        ensures
            self.node.state != NodeState::Leader ==> r is None,
            self.node.state == NodeState::Leader ==> (r matches Some(p) && p@ == self.config@.filter(|a: NodeAddress| a != self.node.address)),
    {
        if self.node.state != NodeState::Leader {
            None
        } else {
            Some(self.config.peers(&self.node.address))
        }
    }

    /// The answer of a replication attempt on a node that is not the leader.
    pub fn not_leader_reply() -> (r: String)
        ensures
            r@ == not_leader_reply(),
    {
        proof {
            reveal_strlit("Not leader");
            assert("Not leader"@ =~= not_leader_reply());
        }
        String::from_str("Not leader")
    }

    /// The append request for `dest`. A leader sends the entries from the
    /// follower's next index on, after the position before it and its term,
    /// with its commit index; a node that is not the leader sends a request of term -1.
    pub fn craft_append_entries_request(&self, dest: &NodeAddress) -> (req: AppendEntriesRequest)
        requires
            self.wf(),
            self.node.state == NodeState::Leader ==> self.node.next_index@.contains_key(*dest) && self.node.next_index@[*dest] <= self.node.log@.len(),
        ensures
            req.leader_id == self.node.address.port as int,
            req.leader_address == Some(self.node.address),
            self.node.state != NodeState::Leader ==> {
                &&& req.term == -1
                &&& req.prev_log_index == last_index_of(self.node.log@)
                &&& req.prev_log_term == self.node.current_term
                &&& req.entries@.len() == 0
                &&& req.leader_commit == 0
            },
            self.node.state == NodeState::Leader ==> {
                let ni = self.node.next_index@[*dest] as int;
                &&& req.term == self.node.current_term
                &&& req.prev_log_index == ni - 1
                &&& req.prev_log_term == (if ni > 0 { self.node.log@[ni - 1].term } else { 0 })
                &&& req.entries@ == self.node.log@.subrange(ni, self.node.log@.len() as int)
                &&& req.leader_commit == self.node.commit_index
            },
    {
        if self.node.state != NodeState::Leader {
            AppendEntriesRequest {
                term: -1,
                leader_id: self.node.address.node_id(),
                prev_log_index: self.last_log_index(),
                prev_log_term: self.node.current_term,
                entries: Vec::new(),
                leader_commit: 0,
                leader_address: Some(self.node.address),
            }
        } else {
            let next_index = match self.node.next_index.get(dest) {
                Some(v) => v,
                None => 0,
            };
            let loglen = self.log_len();
            let mut entries: Vec<LogEntry> = Vec::new();
            let mut i: i32 = next_index;
            while i < loglen
                invariant
                    0 <= next_index <= i <= loglen,
                    loglen == self.node.log@.len(),
                    entries@ == self.node.log@.subrange(next_index as int, i as int),
                decreases loglen - i,
            {
                entries.push(self.node.log[i as usize].duplicate());
                assert(self.node.log@.subrange(next_index as int, i + 1) =~= self.node.log@.subrange(next_index as int, i as int).push(self.node.log@[i as int]));
                i += 1;
            }
            let prev_log_index = next_index - 1;
            let prev_log_term = if next_index > 0 { self.node.log[prev_log_index as usize].term } else { 0 };
            AppendEntriesRequest {
                term: self.node.current_term,
                leader_id: self.node.address.node_id(),
                prev_log_index,
                prev_log_term,
                entries,
                leader_commit: self.node.commit_index,
                leader_address: Some(self.node.address),
            }
        }
    }

    /// Whether [`Self::craft_append_entries_request`] can build the request for `dest`:
    /// a leader must hold a next index for it, no larger than the log's length.
    pub fn craft_request_acceptable(&self, dest: &NodeAddress) -> (r: bool)
        requires
            self.wf(),
        ensures
            r == (self.node.state == NodeState::Leader ==> self.node.next_index@.contains_key(*dest) && self.node.next_index@[*dest] <= self.node.log@.len()),
    {
        if self.node.state != NodeState::Leader {
            return true;
        }
        match self.node.next_index.get(dest) {
            None => false,
            Some(ni) => ni as usize <= self.node.log.len(),
        }
    }

    /// Whether [`Self::on_append_entries_response`] can take in `resp` from `peer`.
    pub fn append_response_acceptable(&self, peer: &NodeAddress, resp: &AppendEntriesResponse) -> (r: bool)
        requires
            self.wf(),
        ensures
            r == self.append_response_pre(*peer, *resp),
    {
        if !(resp.term == self.node.current_term && self.node.state == NodeState::Leader) {
            return true;
        }
        let advance = if resp.success {
            match self.node.match_index.get(peer) {
                None => return false,
                Some(m) => resp.last_applied_index > m,
            }
        } else {
            false
        };
        if advance {
            resp.last_applied_index < i32::MAX
        } else {
            self.node.next_index.contains(peer)
        }
    }

    /// The answer from `peer` can be taken in without a failed lookup or an overflow.
    pub open spec fn append_response_pre(&self, peer: NodeAddress, resp: AppendEntriesResponse) -> bool {
        let current = resp.term == self.node.current_term && self.node.state == NodeState::Leader;
        let advance = resp.success && resp.last_applied_index > self.node.match_index@[peer];
        &&& (current && resp.success) ==> self.node.match_index@.contains_key(peer)
        &&& (current && advance) ==> resp.last_applied_index < i32::MAX
        &&& (current && !advance) ==> self.node.next_index@.contains_key(peer)
    }

    /// Takes in a follower's answer to an append request. While the node leads
    /// in the answer's term: a success beyond what was known moves the
    /// follower's match index to the index it reports and its next index just
    /// past it, and ends; otherwise the next index steps back by one and the
    /// leader sends again, unless it is already 0. An answer from a newer term
    /// makes the node a follower of that term with no vote and restarts its
    /// heartbeat timer. Anything else ends.
    pub fn on_append_entries_response(&mut self, peer: &NodeAddress, resp: AppendEntriesResponse) -> (h: Handled<ReplicationStep>)
        requires
            old(self).wf(),
            old(self).append_response_pre(*peer, resp),
        ensures
            final(self).wf(),
            ({
                let t0 = old(self).node.current_term;
                let current = resp.term == t0 && old(self).node.state == NodeState::Leader;
                let advance = resp.success && resp.last_applied_index > old(self).node.match_index@[*peer];
                let next0 = old(self).node.next_index@;
                let match0 = old(self).node.match_index@;
                &&& (current && advance) ==> {
                    &&& final(self).node.match_index@ == match0.insert(*peer, resp.last_applied_index)
                    &&& final(self).node.next_index@ == next0.insert(*peer, (resp.last_applied_index + 1) as i32)
                    &&& h.reply == ReplicationStep::Done
                }
                &&& (current && !advance && next0[*peer] > 0) ==> {
                    &&& final(self).node.match_index@ == match0
                    &&& final(self).node.next_index@ == next0.insert(*peer, (next0[*peer] - 1) as i32)
                    &&& h.reply == ReplicationStep::Retry
                }
                &&& (current && !advance && next0[*peer] <= 0) ==> {
                    &&& final(self).node.match_index@ == match0
                    &&& final(self).node.next_index@ == next0
                    &&& h.reply == ReplicationStep::Done
                }
                &&& current ==> final(self).node.current_term == t0 && final(self).node.state == old(self).node.state
                    && final(self).node.voted_for == old(self).node.voted_for && !h.reset_heartbeat_timer
                    && final(self).node.leader_address == old(self).node.leader_address
                &&& (!current && resp.term > t0) ==> {
                    &&& final(self).node.current_term == resp.term
                    &&& final(self).node.state == NodeState::Follower
                    &&& final(self).node.voted_for is None
                    &&& final(self).node.leader_address == old(self).node.leader_address
                    &&& h.reset_heartbeat_timer
                    &&& h.reply == ReplicationStep::Done
                }
                &&& (!current && resp.term <= t0) ==> {
                    &&& final(self).node.current_term == t0
                    &&& final(self).node.state == old(self).node.state
                    &&& final(self).node.voted_for == old(self).node.voted_for
                    &&& final(self).node.leader_address == old(self).node.leader_address
                    &&& !h.reset_heartbeat_timer
                    &&& h.reply == ReplicationStep::Done
                }
                &&& !current ==> final(self).node.match_index@ == match0 && final(self).node.next_index@ == next0
                &&& final(self).node.current_term >= t0
                &&& final(self).node.match_index@.contains_key(*peer) ==> match0.contains_key(*peer) && final(self).node.match_index@[*peer] >= match0[*peer]
            }),
            final(self).node.address == old(self).node.address,
            final(self).node.log@ == old(self).node.log@,
            final(self).node.commit_index == old(self).node.commit_index,
            final(self).node.last_applied == old(self).node.last_applied,
            final(self).state_machine == old(self).state_machine,
            final(self).config == old(self).config,
    {
        let term = resp.term;
        let success = resp.success;
        let last_applied_index = resp.last_applied_index;
        if term == self.node.current_term && self.node.state == NodeState::Leader {
            let advance = success && match self.node.match_index.get(peer) {
                Some(m) => last_applied_index > m,
                None => false,
            };
            if advance {
                self.node.match_index.insert(*peer, last_applied_index);
                self.node.next_index.insert(*peer, last_applied_index + 1);
                Handled { reply: ReplicationStep::Done, reset_heartbeat_timer: false }
            } else {
                let next = match self.node.next_index.get(peer) {
                    Some(v) => v,
                    None => 0,
                };
                if next > 0 {
                    self.node.next_index.insert(*peer, next - 1);
                    Handled { reply: ReplicationStep::Retry, reset_heartbeat_timer: false }
                } else {
                    Handled { reply: ReplicationStep::Done, reset_heartbeat_timer: false }
                }
            }
        } else if term > self.node.current_term {
            self.node.current_term = term;
            self.change_state_to(NodeState::Follower);
            self.node.voted_for = None;
            Handled { reply: ReplicationStep::Done, reset_heartbeat_timer: true }
        } else {
            Handled { reply: ReplicationStep::Done, reset_heartbeat_timer: false }
        }
    }

    /// How many nodes hold the first `length` entries: the leader and each other
    /// member whose match index reaches `length - 1`.
    pub fn acks(&self, length: i32) -> (r: i32)
        requires
            self.wf(),
            self.peers_have_match_index(),
        ensures
            r == acks_count(self.config@, self.node.address, self.node.match_index@, length as int),
    {
        let mut counter: i32 = 1;
        let mut i: usize = 0;
        let me = self.node.address;
        while i < self.config.node_address_list.len()
            invariant
                self.wf(),
                self.peers_have_match_index(),
                me == self.node.address,
                i <= self.config@.len(),
                counter == acks_count(self.config@.subrange(0, i as int), me, self.node.match_index@, length as int),
            decreases self.config@.len() - i,
        {
            let socket = self.config.node_address_list[i];
            proof {
                lemma_acks_bounds(self.config@.subrange(0, i as int), me, self.node.match_index@, length as int);
                assert(self.config@.subrange(0, i + 1).drop_last() =~= self.config@.subrange(0, i as int));
                assert(self.config@.contains(socket));
            }
            if socket != me {
                let m = match self.node.match_index.get(&socket) {
                    Some(m) => m,
                    None => 0,
                };
                if m + 1 >= length {
                    counter += 1;
                }
            }
            i += 1;
        }
        assert(self.config@.subrange(0, self.config@.len() as int) =~= self.config@);
        counter
    }

    /// Whether [`Self::commit_replicated_entries`] can run.
    pub fn commit_acceptable(&self) -> (r: bool)
        requires
            self.wf(),
        ensures
            r == self.commit_pre(),
    {
        let loglen = self.log_len();
        if loglen >= i32::MAX || self.node.commit_index >= i32::MAX {
            return false;
        }
        if loglen > 0 {
            let mut i: usize = 0;
            while i < self.config.node_address_list.len()
                invariant
                    i <= self.config@.len(),
                    self.wf(),
                    self.node.log@.len() > 0,
                    forall|j: int| 0 <= j < i && #[trigger] self.config@[j] != self.node.address ==> self.node.match_index@.contains_key(self.config@[j]),
                decreases self.config@.len() - i,
            {
                let a = self.config.node_address_list[i];
                if a != self.node.address && !self.node.match_index.contains(&a) {
                    assert(self.config@.contains(a));
                    return false;
                }
                i += 1;
            }
            assert forall|k: NodeAddress| #[trigger] self.config@.contains(k) && k != self.node.address implies self.node.match_index@.contains_key(k) by {
                let j = choose|j: int| 0 <= j < self.config@.len() && self.config@[j] == k;
            }
        }
        let best = self.ready_length();
        let c = self.node.commit_index;
        if best > c + 1 && self.node.log[(best - 1) as usize].term <= self.node.current_term {
            let mut i: i32 = c + 1;
            while i < best
                invariant
                    0 <= c,
                    c + 1 <= i <= best,
                    best == self.commit_target(),
                    best <= self.node.log@.len(),
                    c == self.node.commit_index,
                    self.commit_fires(),
                    forall|j: int| c + 1 <= j < i ==> #[trigger] can_execute(self.node.log@[j].command@),
                decreases best - i,
            {
                if !can_execute_command(self.node.log[i as usize].command.as_str()) {
                    assert(commands_of(self.node.log@.subrange(c + 1, best as int))[i - c - 1] == self.node.log@[i as int].command@);
                    return false;
                }
                i += 1;
            }
            assert forall|k: int| 0 <= k < commands_of(self.node.log@.subrange(c + 1, best as int)).len()
                implies #[trigger] can_execute(commands_of(self.node.log@.subrange(c + 1, best as int))[k]) by {
                assert(commands_of(self.node.log@.subrange(c + 1, best as int))[k] == self.node.log@[c + 1 + k].command@);
            }
        }
        true
    }

    /// The largest length that more than half the members hold (0 if none).
    fn ready_length(&self) -> (r: i32)
        requires
            self.wf(),
            self.node.log@.len() < i32::MAX,
            self.node.log@.len() > 0 ==> self.peers_have_match_index(),
        ensures
            r == self.commit_target(),
            0 <= r <= self.node.log@.len(),
    {
        let majoritytally: usize = self.config.len() / 2;
        let loglen = self.log_len();
        let mut best: i32 = 0;
        let mut len: i32 = 1;
        while len < loglen + 1
            invariant
                1 <= len <= loglen + 1,
                loglen == self.node.log@.len(),
                loglen < i32::MAX,
                self.wf(),
                loglen > 0 ==> self.peers_have_match_index(),
                majoritytally == self.config@.len() / 2,
                best == largest_ready(self.config@, self.node.address, self.node.match_index@, majoritytally as int, len - 1),
                0 <= best < len,
            decreases loglen + 1 - len,
        {
            if self.acks(len) > majoritytally as i32 {
                best = len;
            }
            len += 1;
        }
        best
    }

    /// The commit step after a round of replication: the largest length that
    /// more than half the members hold becomes committed when it passes the
    /// entry after the commit index and its last entry is from no later term
    /// than the node's; the newly committed entries are applied in order and the
    /// answer is what the last of them answered. Otherwise nothing changes and
    /// the answer is `No new entries to commit`. As [`Self::commit_fires`] says,
    /// the term test takes any term up to the node's, and log position 0 is never applied.
    pub fn commit_replicated_entries(&mut self) -> (result: String)
        requires
            old(self).wf(),
            old(self).commit_pre(),
        ensures
            final(self).wf(),
            old(self).commit_fires() ==> {
                let best = old(self).commit_target();
                let c0 = old(self).node.commit_index as int;
                let log = old(self).node.log@;
                &&& final(self).node.commit_index == best - 1
                &&& final(self).state_machine@ == run_log_range(old(self).state_machine@, log, c0 + 1, best)
                &&& result@ == execute_spec(run_log_range(old(self).state_machine@, log, c0 + 1, best - 1), log[best - 1].command@).1
            },
            final(self).node.commit_index >= old(self).node.commit_index,
            forall|len: int| #![trigger acks_count(old(self).config@, old(self).node.address, old(self).node.match_index@, len)]
                (old(self).node.commit_index + 1 < len <= old(self).node.log@.len()
                && acks_count(old(self).config@, old(self).node.address, old(self).node.match_index@, len) > old(self).config@.len() / 2
                && (forall|j: int| len - 1 <= j < old(self).node.log@.len() ==> #[trigger] old(self).node.log@[j].term <= old(self).node.current_term))
                ==> final(self).node.commit_index >= len - 1,
            final(self).node.commit_index > old(self).node.commit_index ==>
                final(self).state_machine@ == run_log_range(old(self).state_machine@, old(self).node.log@, old(self).node.commit_index + 1, final(self).node.commit_index + 1),
            final(self).node.commit_index > old(self).node.commit_index ==> {
                &&& acks_count(old(self).config@, old(self).node.address, old(self).node.match_index@, final(self).node.commit_index + 1) > old(self).config@.len() / 2
                &&& old(self).node.log@[final(self).node.commit_index as int].term <= old(self).node.current_term
            },
            !old(self).commit_fires() ==> {
                &&& final(self).node.commit_index == old(self).node.commit_index
                &&& final(self).state_machine@ == old(self).state_machine@
                &&& result@ == no_commit_reply()
            },
            final(self).node.address == old(self).node.address,
            final(self).node.current_term == old(self).node.current_term,
            final(self).node.voted_for == old(self).node.voted_for,
            final(self).node.log@ == old(self).node.log@,
            final(self).node.last_applied == old(self).node.last_applied,
            final(self).node.next_index == old(self).node.next_index,
            final(self).node.match_index == old(self).node.match_index,
            final(self).node.state == old(self).node.state,
            final(self).node.leader_address == old(self).node.leader_address,
            final(self).config == old(self).config,
    {
        proof {
            reveal_strlit("No new entries to commit");
            assert("No new entries to commit"@ =~= no_commit_reply());
        }
        proof {
            lemma_largest_ready_has_majority(self.config@, self.node.address, self.node.match_index@, (self.config@.len() / 2) as int, self.node.log@.len() as int);
            assert forall|len: int| #![trigger acks_count(self.config@, self.node.address, self.node.match_index@, len)]
                (self.node.commit_index + 1 < len <= self.node.log@.len()
                && acks_count(self.config@, self.node.address, self.node.match_index@, len) > self.config@.len() / 2
                && (forall|j: int| len - 1 <= j < self.node.log@.len() ==> #[trigger] self.node.log@[j].term <= self.node.current_term))
                implies self.commit_fires() && self.commit_target() >= len by {
                self.lemma_commit_covers_majority_length(len);
            }
        }
        let mut last_result = String::from_str("No new entries to commit");
        let maxrvec = self.ready_length();
        if maxrvec > 0 {
            let c = self.node.commit_index;
            if maxrvec > c + 1 && self.node.log[(maxrvec - 1) as usize].term <= self.node.current_term {
                last_result = apply_and_report(&mut self.state_machine, &self.node.log, c + 1, maxrvec);
                self.node.commit_index = maxrvec - 1;
            }
        }
        last_result
    }
}

} // verus!
