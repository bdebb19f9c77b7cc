use vstd::prelude::*;
use crate::address::NodeAddress;

verus! {

/// One entry of the replicated log: the term in which a leader created it,
/// its position, and the queue command it carries.
#[derive(Debug, Clone)]
pub struct LogEntry {
    pub term: i32,
    pub index: i32,
    pub command: String,
}

impl LogEntry {
    /// A copy of the entry, field for field.
    pub fn duplicate(&self) -> (r: LogEntry)
        ensures
            r == *self,
    {
        LogEntry { term: self.term, index: self.index, command: self.command.clone() }
    }
}

/// The commands carried by a sequence of log entries, as character sequences.
pub open spec fn commands_of(log: Seq<LogEntry>) -> Seq<Seq<char>> {
    Seq::new(log.len(), |i: int| log[i].command@)
}

/// A copy of a slice of log entries, entry for entry.
pub fn duplicate_entries(entries: &Vec<LogEntry>) -> (r: Vec<LogEntry>)
    ensures
        r@ == entries@,
{
    let mut r: Vec<LogEntry> = Vec::new();
    let mut i: usize = 0;
    while i < entries.len()
        invariant
            i <= entries.len(),
            r@ == entries@.subrange(0, i as int),
        decreases entries.len() - i,
    {
        r.push(entries[i].duplicate());
        i += 1;
    }
    r
}

/// A leader's request to append entries to a follower's log (empty: a heartbeat).
#[derive(Debug, Clone)]
pub struct AppendEntriesRequest {
    pub term: i32,
    pub leader_id: i32,
    pub prev_log_index: i32,
    pub prev_log_term: i32,
    pub entries: Vec<LogEntry>,
    pub leader_commit: i32,
    /// The sender's address; `None` when it could not be read.
    pub leader_address: Option<NodeAddress>,
}

/// A follower's answer to [`AppendEntriesRequest`].
#[derive(Debug, Clone, Copy, PartialEq, Eq, Structural)]
pub struct AppendEntriesResponse {
    pub term: i32,
    pub success: bool,
    pub last_applied_index: i32,
}

/// A candidate's request for a vote.
#[derive(Debug, Clone, Copy, PartialEq, Eq, Structural)]
pub struct RequestVoteRequest {
    pub term: i32,
    pub candidate_id: i32,
    pub last_log_index: i32,
    pub last_log_term: i32,
    pub candidate_address: NodeAddress,
}

/// The answer to [`RequestVoteRequest`].
#[derive(Debug, Clone, Copy, PartialEq, Eq, Structural)]
pub struct RequestVoteResponse {
    pub term: i32,
    pub vote_granted: bool,
}

/// The answer to a request to join the cluster.
#[derive(Debug, Clone, Copy, PartialEq, Eq, Structural)]
pub struct JoinResponse {
    pub success: bool,
}

/// The answer to a membership update.
#[derive(Debug, Clone, Copy, PartialEq, Eq, Structural)]
pub struct UpdateConfigResponse {
    pub success: bool,
}

/// The answer to a client's enqueue.
#[derive(Debug, Clone, Copy, PartialEq, Eq, Structural)]
pub struct EnqueueResponse {
    pub success: bool,
}

/// The answer to a client's dequeue.
#[derive(Debug, Clone)]
pub struct DequeueResponse {
    pub success: bool,
    pub content: String,
}

/// The answer to a client's read of the whole queue.
#[derive(Debug, Clone)]
pub struct ReadQueueResponse {
    pub success: bool,
    pub contents: Vec<String>,
}

/// A node's answer to a status query.
#[derive(Debug, Clone)]
pub struct StatusResponse {
    pub state: String,
    pub term: i32,
    pub leader_address: String,
    pub log: Vec<LogEntry>,
    pub commit_index: i32,
    pub last_applied_index: i32,
    pub queue: Vec<String>,
}

/// A reply together with whether the node heard from a legitimate leader or
/// candidate and must restart its heartbeat timer.
#[derive(Debug, Clone)]
pub struct Handled<R> {
    pub reply: R,
    pub reset_heartbeat_timer: bool,
}

} // verus!
