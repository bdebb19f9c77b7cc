use vstd::prelude::*;
use crate::message::{LogEntry, StatusResponse};
use crate::node::{LogEntryWritable, Persistent, writable_of};

verus! {

/// What the dashboard shows of one node.
#[derive(Debug)]
pub struct NodeInfo {
    pub is_online: bool,
    pub address: String,
    pub state: String,
    pub term: i32,
    pub leader_address: String,
    pub log: Vec<LogEntryWritable>,
    pub commit_index: i32,
    pub last_applied_index: i32,
    pub queue: Vec<String>,
}

impl NodeInfo {
    /// A blank entry: offline, with empty texts, zero numbers and no log or queue.
    pub fn new() -> (n: Self)
        ensures
            !n.is_online,
            n.address@.len() == 0,
            n.state@.len() == 0,
            n.term == 0,
            n.leader_address@.len() == 0,
            n.log@.len() == 0,
            n.commit_index == 0,
            n.last_applied_index == 0,
            n.queue@.len() == 0,
    {
        NodeInfo {
            is_online: false,
            address: String::new(),
            state: String::new(),
            term: 0,
            leader_address: String::new(),
            log: Vec::new(),
            commit_index: 0,
            last_applied_index: 0,
            queue: Vec::new(),
        }
    }

    /// The entry of a node at `address` that could not be reached.
    pub fn offline(address: String) -> (n: Self)
        ensures
            !n.is_online,
            n.address == address,
            n.state@.len() == 0,
            n.term == 0,
            n.leader_address@.len() == 0,
            n.log@.len() == 0,
            n.commit_index == 0,
            n.last_applied_index == 0,
            n.queue@.len() == 0,
    {
        let mut n = NodeInfo::new();
        n.is_online = false;
        n.address = address;
        n
    }

    /// The entry of the node at `address` that answered with `status`.
    pub fn online(address: String, status: StatusResponse) -> (n: Self)
        ensures
            n.is_online,
            n.address == address,
            n.state == status.state,
            n.term == status.term,
            n.leader_address == status.leader_address,
            n.log@ == status.log@.map_values(|e: LogEntry| writable_of(e)),
            n.commit_index == status.commit_index,
            n.last_applied_index == status.last_applied_index,
            n.queue == status.queue,
    {
        let mut n = NodeInfo::new();
        n.is_online = true;
        n.address = address;
        n.log = Persistent::log_entry_to_writable(&status.log);
        n.state = status.state;
        n.term = status.term;
        n.leader_address = status.leader_address;
        n.commit_index = status.commit_index;
        n.last_applied_index = status.last_applied_index;
        n.queue = status.queue;
        n
    }
}

} // verus!
