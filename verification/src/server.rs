use vstd::prelude::*;
use crate::address::NodeAddress;
use crate::config::Config;
use crate::message::{LogEntry, commands_of, AppendEntriesRequest, AppendEntriesResponse, RequestVoteRequest, RequestVoteResponse, Handled};
use crate::node::Node;
use crate::election::{log_at_least_as_recent, is_log_left_as_update_as_right};
use crate::queue::{Queue, run_commands, all_executable, can_execute, can_execute_command};
use crate::state::NodeState;

verus! {

/// The position up to which an append request's entries are compared with the log
/// (the last position that both cover).
pub open spec fn merge_check_index(log_len: int, prev: int, n: int) -> int {
    (if log_len < prev + 1 + n { log_len } else { prev + 1 + n }) - 1
}

/// The log and the appended entries disagree on the term at the compared position.
pub open spec fn merge_conflict(log: Seq<LogEntry>, prev: int, entries: Seq<LogEntry>) -> bool {
    let n = entries.len() as int;
    let k = merge_check_index(log.len() as int, prev, n);
    n > 0 && log.len() > prev + 1 && log[k].term != entries[k - prev - 1].term
}

/// A follower's log after it takes `entries` in after position `prev`: on a
/// conflict it drops everything after `prev`; then it appends the entries that
/// reach past its end.
pub open spec fn merge_log(log: Seq<LogEntry>, prev: int, entries: Seq<LogEntry>) -> Seq<LogEntry> {
    let kept = if merge_conflict(log, prev, entries) { log.subrange(0, prev + 1) } else { log };
    if prev + 1 + entries.len() > kept.len() {
        kept + entries.subrange(kept.len() - prev - 1, entries.len() as int)
    } else {
        kept
    }
}

/// A follower's log after it takes `entries` in after position `prev` keeps
/// everything up to `prev`, reaches at least the last of the entries, and holds
/// there an entry of the same term as that last entry.
pub proof fn lemma_merge_log_matches_leader(log: Seq<LogEntry>, prev: int, entries: Seq<LogEntry>)
    requires
        -1 <= prev,
        log.len() >= prev + 1,
    ensures
        ({
            let merged = merge_log(log, prev, entries);
            &&& merged.subrange(0, prev + 1) == log.subrange(0, prev + 1)
            &&& merged.len() >= prev + 1 + entries.len()
            &&& entries.len() > 0 ==> merged[prev + entries.len()].term == entries[entries.len() - 1].term
        }),
{
    let merged = merge_log(log, prev, entries);
    assert(merged.subrange(0, prev + 1) =~= log.subrange(0, prev + 1));
}

/// The log holds position `prev`, with term `prev_term` (position -1: the start of every log).
pub open spec fn log_matches(log: Seq<LogEntry>, prev: int, prev_term: int) -> bool {
    log.len() >= prev + 1 && (prev == -1 || log[prev].term == prev_term)
}

/// A log holds the leader's previous position exactly when that position is
/// the start (-1), or lies inside the log and carries the leader's previous term.
pub proof fn lemma_log_matches_exactly_when_prev_agrees(log: Seq<LogEntry>, prev: int, prev_term: int)
    requires
        -1 <= prev,
    ensures
        log_matches(log, prev, prev_term) <==> (prev == -1 || (prev < log.len() && log[prev].term == prev_term)),
{
}

/// A vote goes only to a candidate whose log is at least as up to date as the
/// voter's: a later last term, or the same last term and a last index at least
/// the voter's; and only in the voter's term, to no other candidate than the one it voted for.
pub proof fn lemma_vote_needs_up_to_date_log(term: i32, voted_for: Option<i32>, log: Seq<LogEntry>, req: RequestVoteRequest)
    ensures
        vote_granted(term, voted_for, log, req) ==> {
            let last_term: int = if log.len() == 0 { 0 } else { log[log.len() - 1].term as int };
            let last_index: int = if log.len() == 0 { 0 } else { log.len() - 1 };
            &&& req.term == term
            &&& (voted_for is None || voted_for == Some(req.candidate_id))
            &&& (req.last_log_term > last_term || (req.last_log_term == last_term && req.last_log_index >= last_index))
        },
        ({
            let last_term: int = if log.len() == 0 { 0 } else { log[log.len() - 1].term as int };
            let last_index: int = if log.len() == 0 { 0 } else { log.len() - 1 };
            (req.term == term && (voted_for is None || voted_for == Some(req.candidate_id))
                && (req.last_log_term > last_term || (req.last_log_term == last_term && req.last_log_index >= last_index)))
                ==> vote_granted(term, voted_for, log, req)
        }),
{
}

/// The index of the last log entry (0 for an empty log).
pub open spec fn last_index_of(log: Seq<LogEntry>) -> int {
    if log.len() == 0 { 0 } else { log.len() - 1 }
}

/// The term of the last log entry (0 for an empty log).
pub open spec fn last_term_of(log: Seq<LogEntry>) -> int {
    if log.len() == 0 { 0 } else { log[log.len() - 1].term as int }
}

/// Whether a node at term `term` that has cast vote `voted_for` grants `req`:
/// the terms agree, it has not voted for another candidate, and the candidate's
/// log is at least as up to date as `log`.
pub open spec fn vote_granted(term: i32, voted_for: Option<i32>, log: Seq<LogEntry>, req: RequestVoteRequest) -> bool {
    &&& req.term == term
    &&& (voted_for is None || voted_for == Some(req.candidate_id))
    &&& log_at_least_as_recent(req.last_log_term as int, req.last_log_index as int, last_term_of(log), last_index_of(log))
}

/// The queue after running the commands of positions `from..to` of `log`.
pub open spec fn run_log_range(items: Seq<Seq<char>>, log: Seq<LogEntry>, from: int, to: int) -> Seq<Seq<char>> {
    run_commands(items, commands_of(log.subrange(from, to)))
}

/// The state one Raft node serves: its protocol state, the queue that its
/// committed log drives, and the cluster membership.
pub struct RaftRpcImpl {
    pub node: Node,
    pub state_machine: Queue,
    pub config: Config,
}

impl RaftRpcImpl {
    /// The bounds that every operation keeps: tables and membership hold each
    /// address once, positions fit in `i32`, the commit index is not negative,
    /// next indexes are not negative and match indexes are at least -1 and below `i32::MAX`.
    pub open spec fn wf(&self) -> bool {
        &&& self.node.next_index.wf()
        &&& self.node.match_index.wf()
        &&& self.config.wf()
        &&& self.config@.len() < i32::MAX
        &&& self.node.log@.len() <= i32::MAX
        &&& self.node.commit_index >= 0
        &&& forall|k: NodeAddress| #[trigger] self.node.next_index@.contains_key(k) ==> self.node.next_index@[k] >= 0
        &&& forall|k: NodeAddress| #[trigger] self.node.match_index@.contains_key(k) ==> -1 <= self.node.match_index@[k] < i32::MAX
    }

    /// A fresh follower at `address` with an empty queue and an empty membership.
    pub fn new(address: NodeAddress) -> (s: Self)
        ensures
            s.wf(),
            s.node.address == address,
            s.node.current_term == 0,
            s.node.voted_for is None,
            s.node.log@.len() == 0,
            s.node.commit_index == 0,
            s.node.last_applied == 0,
            s.node.next_index@ == Map::<NodeAddress, i32>::empty(),
            s.node.match_index@ == Map::<NodeAddress, i32>::empty(),
            s.node.state == NodeState::Follower,
            s.node.leader_address is None,
            s.state_machine@ == Seq::<Seq<char>>::empty(),
            s.config@ == Seq::<NodeAddress>::empty(),
    {
        RaftRpcImpl { node: Node::new(address), state_machine: Queue::new(), config: Config::new() }
    }

    /// The length of the log.
    pub fn log_len(&self) -> (r: i32)
        requires
            self.node.log@.len() <= i32::MAX,
        ensures
            r == self.node.log@.len(),
    {
        self.node.log.len() as i32
    }

    /// The index of the last log entry (0 for an empty log).
    pub fn last_log_index(&self) -> (r: i32)
        requires
            self.node.log@.len() <= i32::MAX,
        ensures
            r == last_index_of(self.node.log@),
    {
        let loglen = self.log_len();
        if loglen <= 0 {
            0
        } else {
            loglen - 1
        }
    }

    /// The term of the last log entry (0 for an empty log).
    pub fn last_log_term(&self) -> (r: i32)
        requires
            self.node.log@.len() <= i32::MAX,
        ensures
            r == last_term_of(self.node.log@),
    {
        let loglen = self.node.log.len();
        if loglen > 0 {
            self.node.log[loglen - 1].term
        } else {
            0
        }
    }

    /// Switches the role: a new leader records itself as leader, a new
    /// candidate forgets the leader, a follower keeps what it knew.
    pub fn change_state_to(&mut self, state: NodeState)
        ensures
            final(self).node.state == state,
            state == NodeState::Leader ==> final(self).node.leader_address == Some(old(self).node.address),
            state == NodeState::Candidate ==> final(self).node.leader_address is None,
            state == NodeState::Follower ==> final(self).node.leader_address == old(self).node.leader_address,
            final(self).node.address == old(self).node.address,
            final(self).node.current_term == old(self).node.current_term,
            final(self).node.voted_for == old(self).node.voted_for,
            final(self).node.log@ == old(self).node.log@,
            final(self).node.commit_index == old(self).node.commit_index,
            final(self).node.last_applied == old(self).node.last_applied,
            final(self).node.next_index == old(self).node.next_index,
            final(self).node.match_index == old(self).node.match_index,
            final(self).state_machine == old(self).state_machine,
            final(self).config == old(self).config,
    {
        if state == NodeState::Leader {
            self.node.leader_address = Some(self.node.address);
        } else if state == NodeState::Candidate {
            self.node.leader_address = None;
        }
        self.node.state = state;
    }

    /// The node can take `req` in without a failed lookup or an overflow: the
    /// previous position is at least -1, a request that is not from an older
    /// term carries the sender's address, and when the request is accepted the
    /// entries fit and every entry up to the leader's commit index exists and can be run.
    pub open spec fn append_entries_pre(&self, req: AppendEntriesRequest) -> bool {
        let prev = req.prev_log_index as int;
        let merged = merge_log(self.node.log@, prev, req.entries@);
        let accepted = req.term >= self.node.current_term && log_matches(self.node.log@, prev, req.prev_log_term as int);
        &&& -1 <= prev < i32::MAX
        &&& req.term >= self.node.current_term ==> req.leader_address is Some
        &&& accepted ==> prev + 1 + req.entries@.len() <= i32::MAX
        &&& (accepted && req.leader_commit > self.node.commit_index) ==> req.leader_commit < merged.len()
        &&& (accepted && req.leader_commit > self.node.commit_index) ==> all_executable(
            commands_of(merged.subrange(self.node.commit_index + 1, req.leader_commit + 1)),
        )
    }

    /// Whether [`Self::append_entries`] can take `req` in.
    pub fn append_entries_acceptable(&self, req: &AppendEntriesRequest) -> (r: bool)
        requires
            self.wf(),
        ensures
            r == self.append_entries_pre(*req),
    {
        let prev = req.prev_log_index;
        if prev < -1 || prev == i32::MAX {
            return false;
        }
        if req.term >= self.node.current_term && req.leader_address.is_none() {
            return false;
        }
        let loglen = self.log_len();
        let logvalid = loglen >= prev + 1 && (prev == -1 || self.node.log[prev as usize].term == req.prev_log_term);
        if !(req.term >= self.node.current_term && logvalid) {
            return true;
        }
        let ghost log = self.node.log@;
        let ghost entries = req.entries@;
        let room: i32 = i32::MAX - (prev + 1);
        if req.entries.len() > room as usize {
            return false;
        }
        let n: i32 = req.entries.len() as i32;
        if req.leader_commit <= self.node.commit_index {
            return true;
        }
        let reach: i32 = prev + 1 + n;
        let mut conflict = false;
        if n > 0 && loglen > prev + 1 {
            let index: i32 = (if loglen < reach { loglen } else { reach }) - 1;
            conflict = self.node.log[index as usize].term != req.entries[(index - prev - 1) as usize].term;
        }
        assert(conflict == merge_conflict(log, prev as int, entries));
        let kept_len: i32 = if conflict { prev + 1 } else { loglen };
        let merged_len: i32 = if reach > kept_len { reach } else { kept_len };
        let ghost merged = merge_log(log, prev as int, entries);
        assert(merged.len() == merged_len);
        if req.leader_commit >= merged_len {
            return false;
        }
        let c = self.node.commit_index;
        let lc = req.leader_commit;
        let mut i: i32 = c + 1;
        while i <= lc
            invariant
                0 <= c,
                c == self.node.commit_index,
                lc == req.leader_commit,
                c < lc,
                req.term >= self.node.current_term,
                log_matches(log, prev as int, req.prev_log_term as int),
                c + 1 <= i <= lc + 1,
                lc < merged_len,
                -1 <= prev < i32::MAX,
                prev == req.prev_log_index,
                loglen == self.node.log@.len(),
                n == req.entries@.len(),
                entries == req.entries@,
                log == self.node.log@,
                reach == prev + 1 + n,
                merged_len == (if reach > kept_len { reach } else { kept_len }),
                merged_len == merged.len(),
                kept_len >= prev + 1,
                kept_len <= loglen,
                loglen == log.len(),
                merged == merge_log(log, prev as int, entries),
                kept_len == (if merge_conflict(log, prev as int, entries) { prev + 1 } else { loglen as int }),
                forall|j: int| c + 1 <= j < i ==> #[trigger] can_execute(merged[j].command@),
            decreases lc + 1 - i,
        {
            let entry: &LogEntry = if i < kept_len {
                &self.node.log[i as usize]
            } else {
                &req.entries[(i - prev - 1) as usize]
            };
            assert(*entry == merged[i as int]);
            if !can_execute_command(entry.command.as_str()) {
                assert(commands_of(merged.subrange(c + 1, lc + 1))[i - c - 1] == merged[i as int].command@);
                assert(!can_execute(commands_of(merged.subrange(c + 1, lc + 1))[i - c - 1]));
                return false;
            }
            i += 1;
        }
        assert forall|k: int| 0 <= k < commands_of(merged.subrange(c + 1, lc + 1)).len()
            implies #[trigger] can_execute(commands_of(merged.subrange(c + 1, lc + 1))[k]) by {
            assert(commands_of(merged.subrange(c + 1, lc + 1))[k] == merged[c + 1 + k].command@);
        }
        true
    }

    /// Handles a leader's append request. A request from an older term is
    /// refused. Otherwise the node takes up the request's term (forgetting its
    /// vote when the term is newer), becomes a follower of the sender and
    /// restarts its heartbeat timer; when its log also holds the request's
    /// previous position with the previous term, it merges the entries in, applies
    /// what the leader has committed and answers with success and the index of the
    /// last entry it took. Applying starts after the commit index, which starts
    /// at 0, so log position 0 is never applied.
    pub fn append_entries(&mut self, req: AppendEntriesRequest) -> (h: Handled<AppendEntriesResponse>)
        requires
            old(self).wf(),
            old(self).append_entries_pre(req),
        ensures
            final(self).wf(),
            ({
                let t0 = old(self).node.current_term;
                let current = req.term >= t0;
                let t1 = if req.term > t0 { req.term } else { t0 };
                let prev = req.prev_log_index as int;
                let ok = current && log_matches(old(self).node.log@, prev, req.prev_log_term as int);
                let c0 = old(self).node.commit_index;
                &&& final(self).node.current_term == t1
                &&& final(self).node.voted_for == (if req.term > t0 { None } else { old(self).node.voted_for })
                &&& final(self).node.state == (if current { NodeState::Follower } else { old(self).node.state })
                &&& final(self).node.leader_address == (if current { req.leader_address } else { old(self).node.leader_address })
                &&& h.reset_heartbeat_timer == current
                &&& final(self).node.current_term >= t0
                &&& final(self).node.commit_index >= c0
                &&& h.reply.success ==> (prev == -1 || (0 <= prev < old(self).node.log@.len() && old(self).node.log@[prev].term == req.prev_log_term))
                &&& (prev >= old(self).node.log@.len() || (0 <= prev < old(self).node.log@.len() && old(self).node.log@[prev].term != req.prev_log_term)) ==> {
                    &&& !h.reply.success
                    &&& final(self).node.log@ == old(self).node.log@
                    &&& final(self).node.commit_index == c0
                    &&& final(self).state_machine@ == old(self).state_machine@
                }
                &&& ok ==> {
                    &&& final(self).node.log@.subrange(0, prev + 1) == old(self).node.log@.subrange(0, prev + 1)
                    &&& final(self).node.log@.len() >= prev + 1 + req.entries@.len()
                    &&& req.entries@.len() > 0 ==> final(self).node.log@[prev + req.entries@.len()].term == req.entries@[req.entries@.len() - 1].term
                    &&& final(self).node.log@ == merge_log(old(self).node.log@, prev, req.entries@)
                    &&& final(self).node.last_applied == prev + req.entries@.len()
                    &&& h.reply == AppendEntriesResponse { term: t1, success: true, last_applied_index: final(self).node.last_applied }
                    &&& req.leader_commit > c0 ==> final(self).node.commit_index == req.leader_commit
                        && final(self).state_machine@ == run_log_range(old(self).state_machine@, final(self).node.log@, c0 + 1, req.leader_commit + 1)
                    &&& req.leader_commit <= c0 ==> final(self).node.commit_index == c0
                        && final(self).state_machine@ == old(self).state_machine@
                }
                &&& !ok ==> {
                    &&& final(self).node.log@ == old(self).node.log@
                    &&& final(self).node.last_applied == old(self).node.last_applied
                    &&& final(self).node.commit_index == c0
                    &&& final(self).state_machine@ == old(self).state_machine@
                    &&& h.reply == AppendEntriesResponse { term: t1, success: false, last_applied_index: 0 }
                }
            }),
            final(self).node.address == old(self).node.address,
            final(self).node.next_index == old(self).node.next_index,
            final(self).node.match_index == old(self).node.match_index,
            final(self).config == old(self).config,
    {
        let req_term = req.term;
        let prev = req.prev_log_index;
        if req_term > self.node.current_term {
            self.node.current_term = req_term;
            self.node.voted_for = None;
        }
        let mut reset = false;
        if req_term == self.node.current_term {
            if self.node.state != NodeState::Follower {
                self.change_state_to(NodeState::Follower);
            }
            self.node.leader_address = req.leader_address;
            reset = true;
        }
        let logvalid = self.log_len() >= prev + 1 && (prev == -1 || self.node.log[prev as usize].term == req.prev_log_term);
        proof {
            lemma_log_matches_exactly_when_prev_agrees(self.node.log@, prev as int, req.prev_log_term as int);
        }
        if req_term == self.node.current_term && logvalid {
            proof {
                lemma_merge_log_matches_leader(self.node.log@, prev as int, req.entries@);
            }
            let n: i32 = req.entries.len() as i32;
            self.do_append_entries(prev, req.leader_commit, &req.entries);
            self.node.last_applied = prev + n;
            Handled {
                reply: AppendEntriesResponse { term: self.node.current_term, success: true, last_applied_index: self.node.last_applied },
                reset_heartbeat_timer: reset,
            }
        } else {
            Handled {
                reply: AppendEntriesResponse { term: self.node.current_term, success: false, last_applied_index: 0 },
                reset_heartbeat_timer: reset,
            }
        }
    }

    /// Handles a candidate's vote request. A newer term makes the node a
    /// follower of that term with no vote, taking the candidate as leader and
    /// restarting its heartbeat timer. The vote is granted when the request's
    /// term is the node's term, the node has not voted for another candidate in
    /// it, and the candidate's log is at least as up to date as the node's.
    pub fn request_vote(&mut self, req: RequestVoteRequest) -> (h: Handled<RequestVoteResponse>)
        requires
            old(self).wf(),
        ensures
            final(self).wf(),
            ({
                let t0 = old(self).node.current_term;
                let newer = req.term > t0;
                let t1 = if newer { req.term } else { t0 };
                let v1 = if newer { None } else { old(self).node.voted_for };
                let grant = vote_granted(t1, v1, old(self).node.log@, req);
                &&& final(self).node.current_term == t1
                &&& final(self).node.state == (if newer { NodeState::Follower } else { old(self).node.state })
                &&& final(self).node.leader_address == (if newer { Some(req.candidate_address) } else { old(self).node.leader_address })
                &&& final(self).node.voted_for == (if grant { Some(req.candidate_id) } else { v1 })
                &&& h.reply == RequestVoteResponse { term: t1, vote_granted: grant }
                &&& h.reset_heartbeat_timer == newer
                &&& final(self).node.current_term >= t0
                &&& (h.reply.vote_granted && !newer && old(self).node.voted_for is Some) ==> old(self).node.voted_for == Some(req.candidate_id)
                &&& h.reply.vote_granted ==> {
                    let log = old(self).node.log@;
                    let last_term: int = if log.len() == 0 { 0 } else { log[log.len() - 1].term as int };
                    let last_index: int = if log.len() == 0 { 0 } else { log.len() - 1 };
                    req.last_log_term > last_term || (req.last_log_term == last_term && req.last_log_index >= last_index)
                }
            }),
            final(self).node.address == old(self).node.address,
            final(self).node.log@ == old(self).node.log@,
            final(self).node.commit_index == old(self).node.commit_index,
            final(self).node.last_applied == old(self).node.last_applied,
            final(self).node.next_index == old(self).node.next_index,
            final(self).node.match_index == old(self).node.match_index,
            final(self).state_machine == old(self).state_machine,
            final(self).config == old(self).config,
    {
        let candidate_id = req.candidate_id;
        let candidate_term = req.term;
        let mut reset = false;
        if candidate_term > self.node.current_term {
            self.node.current_term = candidate_term;
            self.change_state_to(NodeState::Follower);
            self.node.leader_address = Some(req.candidate_address);
            reset = true;
            self.node.voted_for = None;
        }
        let last_log_term = self.last_log_term();
        let last_log_index = self.last_log_index();
        let is_log_up_to_date = is_log_left_as_update_as_right(req.last_log_term, req.last_log_index, last_log_term, last_log_index);
        let free = match self.node.voted_for {
            None => true,
            Some(v) => v == candidate_id,
        };
        proof {
            lemma_vote_needs_up_to_date_log(self.node.current_term, self.node.voted_for, self.node.log@, req);
        }
        if candidate_term == self.node.current_term && free && is_log_up_to_date {
            self.node.voted_for = Some(candidate_id);
            Handled { reply: RequestVoteResponse { term: self.node.current_term, vote_granted: true }, reset_heartbeat_timer: reset }
        } else {
            Handled { reply: RequestVoteResponse { term: self.node.current_term, vote_granted: false }, reset_heartbeat_timer: reset }
        }
    }

    /// Whether [`Self::heartbeat`] can take `req` in: one that is not from an
    /// older term must carry the sender's address.
    pub fn heartbeat_acceptable(&self, req: &AppendEntriesRequest) -> (r: bool)
        ensures
            r == (req.term >= self.node.current_term ==> req.leader_address is Some),
    {
        !(req.term >= self.node.current_term && req.leader_address.is_none())
    }

    /// Handles a leader's heartbeat. One from an older term changes nothing.
    /// Otherwise the node takes the sender as leader, becomes a follower, takes
    /// up the heartbeat's term and restarts its heartbeat timer (the answer).
    pub fn heartbeat(&mut self, req: &AppendEntriesRequest) -> (reset_heartbeat_timer: bool)
        requires
            old(self).wf(),
            req.term >= old(self).node.current_term ==> req.leader_address is Some,
        ensures
            final(self).wf(),
            reset_heartbeat_timer == (req.term >= old(self).node.current_term),
            final(self).node.current_term >= old(self).node.current_term,
            req.term < old(self).node.current_term ==> final(self).node == old(self).node,
            req.term >= old(self).node.current_term ==> {
                &&& final(self).node.leader_address == req.leader_address
                &&& final(self).node.state == NodeState::Follower
                &&& final(self).node.current_term == req.term
                &&& final(self).node.voted_for == old(self).node.voted_for
                &&& final(self).node.log@ == old(self).node.log@
                &&& final(self).node.commit_index == old(self).node.commit_index
                &&& final(self).node.last_applied == old(self).node.last_applied
                &&& final(self).node.next_index == old(self).node.next_index
                &&& final(self).node.match_index == old(self).node.match_index
                &&& final(self).node.address == old(self).node.address
            },
            final(self).state_machine == old(self).state_machine,
            final(self).config == old(self).config,
    {
        if req.term < self.node.current_term {
            false
        } else {
            self.node.leader_address = req.leader_address;
            if self.node.state != NodeState::Follower {
                self.change_state_to(NodeState::Follower);
            }
            self.node.current_term = req.term;
            true
        }
    }

    /// Takes entries in after position `prev` and then applies, in order, the
    /// entries up to the leader's commit index that were not yet applied.
    fn do_append_entries(&mut self, prev_log_index: i32, leader_commit_index: i32, to_append: &Vec<LogEntry>)
        requires
            old(self).wf(),
            -1 <= prev_log_index,
            old(self).node.log@.len() >= prev_log_index + 1,
            prev_log_index + 1 + to_append@.len() <= i32::MAX,
            leader_commit_index > old(self).node.commit_index ==> {
                &&& leader_commit_index < merge_log(old(self).node.log@, prev_log_index as int, to_append@).len()
                &&& all_executable(commands_of(merge_log(old(self).node.log@, prev_log_index as int, to_append@).subrange(old(self).node.commit_index + 1, leader_commit_index + 1)))
            },
        ensures
            final(self).wf(),
            final(self).node.log@ == merge_log(old(self).node.log@, prev_log_index as int, to_append@),
            leader_commit_index > old(self).node.commit_index ==> {
                &&& final(self).node.commit_index == leader_commit_index
                &&& final(self).state_machine@ == run_log_range(old(self).state_machine@, final(self).node.log@, old(self).node.commit_index + 1, leader_commit_index + 1)
            },
            leader_commit_index <= old(self).node.commit_index ==> {
                &&& final(self).node.commit_index == old(self).node.commit_index
                &&& final(self).state_machine@ == old(self).state_machine@
            },
            final(self).node.address == old(self).node.address,
            final(self).node.current_term == old(self).node.current_term,
            final(self).node.voted_for == old(self).node.voted_for,
            final(self).node.last_applied == old(self).node.last_applied,
            final(self).node.next_index == old(self).node.next_index,
            final(self).node.match_index == old(self).node.match_index,
            final(self).node.state == old(self).node.state,
            final(self).node.leader_address == old(self).node.leader_address,
            final(self).config == old(self).config,
    {
        merge_entries(&mut self.node.log, prev_log_index, to_append);
        if leader_commit_index > self.node.commit_index {
            apply_log_range(&mut self.state_machine, &self.node.log, self.node.commit_index + 1, leader_commit_index + 1);
            self.node.commit_index = leader_commit_index;
        }
    }
}

/// Takes `to_append` into `log` after position `prev_log_index`, as [`merge_log`] says.
fn merge_entries(log: &mut Vec<LogEntry>, prev_log_index: i32, to_append: &Vec<LogEntry>)
    requires
        -1 <= prev_log_index,
        old(log)@.len() >= prev_log_index + 1,
        old(log)@.len() <= i32::MAX,
        prev_log_index + 1 + to_append@.len() <= i32::MAX,
    ensures
        final(log)@ == merge_log(old(log)@, prev_log_index as int, to_append@),
        final(log)@.len() <= i32::MAX,
{
    let ghost log0 = log@;
    let ghost prev = prev_log_index as int;
    let to_append_len: i32 = to_append.len() as i32;
    let loglen: i32 = log.len() as i32;
    if to_append_len > 0 && loglen > prev_log_index + 1 {
        let reach: i32 = prev_log_index + 1 + to_append_len;
        let index: i32 = (if loglen < reach { loglen } else { reach }) - 1;
        if log[index as usize].term != to_append[(index - prev_log_index - 1) as usize].term {
            log.truncate((prev_log_index + 1) as usize);
        }
    }
    let ghost kept = log@;
    assert(kept == (if merge_conflict(log0, prev, to_append@) { log0.subrange(0, prev + 1) } else { log0 }));
    let kept_len: i32 = log.len() as i32;
    if prev_log_index + 1 + to_append_len > kept_len {
        let mut i: i32 = kept_len - prev_log_index - 1;
        while i < to_append_len
            invariant
                kept_len == kept.len(),
                kept.len() >= prev + 1,
                to_append_len == to_append@.len(),
                prev + 1 + to_append@.len() <= i32::MAX,
                kept_len - prev - 1 <= i <= to_append_len,
                log@ == kept + to_append@.subrange(kept_len - prev - 1, i as int),
            decreases to_append_len - i,
        {
            log.push(to_append[i as usize].duplicate());
            assert(to_append@.subrange(kept_len - prev - 1, i + 1) =~= to_append@.subrange(kept_len - prev - 1, i as int).push(to_append@[i as int]));
            i += 1;
        }
    }
    assert(log@ =~= merge_log(log0, prev, to_append@));
}

/// Runs, in order, the commands of positions `from..to` of `log` on `queue`.
fn apply_log_range(queue: &mut Queue, log: &Vec<LogEntry>, from: i32, to: i32)
    requires
        0 <= from <= to <= log@.len(),
        all_executable(commands_of(log@.subrange(from as int, to as int))),
    ensures
        final(queue)@ == run_log_range(old(queue)@, log@, from as int, to as int),
{
    let mut i: i32 = from;
    while i < to
        invariant
            0 <= from <= i <= to,
            to <= log@.len(),
            all_executable(commands_of(log@.subrange(from as int, to as int))),
            queue@ == run_log_range(old(queue)@, log@, from as int, i as int),
        decreases to - i,
    {
        let cmd = log[i as usize].command.clone();
        proof {
            let all = commands_of(log@.subrange(from as int, to as int));
            assert(all[i - from] == cmd@);
            let step = commands_of(log@.subrange(from as int, i + 1));
            assert(step.drop_last() =~= commands_of(log@.subrange(from as int, i as int)));
            assert(step.last() == cmd@);
        }
        queue.execute(cmd);
        i += 1;
    }
}

} // verus!
