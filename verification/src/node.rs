use vstd::prelude::*;
use crate::address::NodeAddress;
use crate::message::LogEntry;
use crate::peer_table::PeerTable;
use crate::state::NodeState;

verus! {

/// The stored form of a log entry.
#[derive(Debug, Clone)]
pub struct LogEntryWritable {
    pub term: i32,
    pub index: i32,
    pub command: String,
}

/// What a node keeps across restarts: its term, its vote and its log.
#[derive(Debug)]
pub struct Persistent {
    pub current_term: i32,
    pub voted_for: Option<i32>,
    pub log: Vec<LogEntryWritable>,
}

/// The stored form of `e`.
pub open spec fn writable_of(e: LogEntry) -> LogEntryWritable {
    LogEntryWritable { term: e.term, index: e.index, command: e.command }
}

/// The log entry that the stored form `w` holds.
pub open spec fn entry_of(w: LogEntryWritable) -> LogEntry {
    LogEntry { term: w.term, index: w.index, command: w.command }
}

impl Persistent {
    /// The stored form of each entry, in order.
    pub fn log_entry_to_writable(log_entry: &Vec<LogEntry>) -> (r: Vec<LogEntryWritable>)
        ensures
            r@ == log_entry@.map_values(|e: LogEntry| writable_of(e)),
    {
        let mut log_entry_writable: Vec<LogEntryWritable> = Vec::new();
        let mut i: usize = 0;
        while i < log_entry.len()
            invariant
                i <= log_entry@.len(),
                log_entry_writable@ == log_entry@.subrange(0, i as int).map_values(|e: LogEntry| writable_of(e)),
            decreases log_entry@.len() - i,
        {
            let entry = &log_entry[i];
            let item = LogEntryWritable { term: entry.term, index: entry.index, command: entry.command.clone() };
            log_entry_writable.push(item);
            assert(log_entry@.subrange(0, i + 1).map_values(|e: LogEntry| writable_of(e)) =~= log_entry@.subrange(0, i as int).map_values(|e: LogEntry| writable_of(e)).push(item));
            i += 1;
        }
        assert(log_entry@.subrange(0, i as int) =~= log_entry@);
        log_entry_writable
    }

    /// The log entry that each stored form holds, in order.
    pub fn writable_to_log_entry(writable: &Vec<LogEntryWritable>) -> (r: Vec<LogEntry>)
        ensures
            r@ == writable@.map_values(|w: LogEntryWritable| entry_of(w)),
    {
        let mut log_entry: Vec<LogEntry> = Vec::new();
        let mut i: usize = 0;
        while i < writable.len()
            invariant
                i <= writable@.len(),
                log_entry@ == writable@.subrange(0, i as int).map_values(|w: LogEntryWritable| entry_of(w)),
            decreases writable@.len() - i,
        {
            let entry = &writable[i];
            let item = LogEntry { term: entry.term, index: entry.index, command: entry.command.clone() };
            log_entry.push(item);
            assert(writable@.subrange(0, i + 1).map_values(|w: LogEntryWritable| entry_of(w)) =~= writable@.subrange(0, i as int).map_values(|w: LogEntryWritable| entry_of(w)).push(item));
            i += 1;
        }
        assert(writable@.subrange(0, i as int) =~= writable@);
        log_entry
    }
}

/// Storing a log and reading it back gives the same log.
pub proof fn lemma_persistent_log_round_trip(log: Seq<LogEntry>)
    ensures
        log.map_values(|e: LogEntry| writable_of(e)).map_values(|w: LogEntryWritable| entry_of(w)) == log,
{
    assert(log.map_values(|e: LogEntry| writable_of(e)).map_values(|w: LogEntryWritable| entry_of(w)) =~= log);
}

/// One node's Raft state.
pub struct Node {
    pub address: NodeAddress,
    pub current_term: i32,
    pub voted_for: Option<i32>,
    pub log: Vec<LogEntry>,
    pub commit_index: i32,
    pub last_applied: i32,
    pub next_index: PeerTable,
    pub match_index: PeerTable,
    pub state: NodeState,
    pub leader_address: Option<NodeAddress>,
}

impl Node {
    /// A fresh follower at `address`: term 0, no vote, an empty log, no known
    /// leader. Its commit index starts at 0, which counts position 0 of the log
    /// as committed without applying it.
    pub fn new(address: NodeAddress) -> (n: Self)
        ensures
            n.address == address,
            n.current_term == 0,
            n.voted_for is None,
            n.log@.len() == 0,
            n.commit_index == 0,
            n.last_applied == 0,
            n.next_index.wf() && n.next_index@ == Map::<NodeAddress, i32>::empty(),
            n.match_index.wf() && n.match_index@ == Map::<NodeAddress, i32>::empty(),
            n.state == NodeState::Follower,
            n.leader_address is None,
    {
        Node {
            address,
            current_term: 0,
            voted_for: None,
            log: Vec::new(),
            commit_index: 0,
            last_applied: 0,
            next_index: PeerTable::new(),
            match_index: PeerTable::new(),
            state: NodeState::Follower,
            leader_address: None,
        }
    }

    /// What the node keeps across restarts.
    pub fn persistent(&self) -> (p: Persistent)
        ensures
            p.current_term == self.current_term,
            p.voted_for == self.voted_for,
            p.log@ == self.log@.map_values(|e: LogEntry| writable_of(e)),
    {
        Persistent {
            current_term: self.current_term,
            voted_for: self.voted_for,
            log: Persistent::log_entry_to_writable(&self.log),
        }
    }

    /// Takes up what was kept across a restart; with nothing kept, starts over
    /// at term 0 with no vote and an empty log. Nothing else changes.
    pub fn restore_persistent(&mut self, saved: Option<Persistent>)
        ensures
            saved is None ==> final(self).current_term == 0 && final(self).voted_for is None && final(self).log@.len() == 0,
            saved matches Some(p) ==> final(self).current_term == p.current_term && final(self).voted_for == p.voted_for
                && final(self).log@ == p.log@.map_values(|w: LogEntryWritable| entry_of(w)),
            final(self).address == old(self).address,
            final(self).commit_index == old(self).commit_index,
            final(self).last_applied == old(self).last_applied,
            final(self).next_index == old(self).next_index,
            final(self).match_index == old(self).match_index,
            final(self).state == old(self).state,
            final(self).leader_address == old(self).leader_address,
    {
        match saved {
            None => {
                self.current_term = 0;
                self.voted_for = None;
                self.log = Vec::new();
            },
            Some(p) => {
                self.current_term = p.current_term;
                self.voted_for = p.voted_for;
                self.log = Persistent::writable_to_log_entry(&p.log);
            },
        }
    }
}

} // verus!
