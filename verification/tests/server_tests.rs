use raft_queue::address::NodeAddress;
use raft_queue::message::{AppendEntriesRequest, AppendEntriesResponse, LogEntry, RequestVoteRequest};
use raft_queue::server::RaftRpcImpl;
use raft_queue::state::NodeState;

fn addr(port: u16) -> NodeAddress {
    NodeAddress::localhost(port)
}

fn entry(term: i32, index: i32, command: &str) -> LogEntry {
    LogEntry { term, index, command: command.to_string() }
}

fn append(term: i32, prev: i32, prev_term: i32, entries: Vec<LogEntry>, commit: i32, leader: u16) -> AppendEntriesRequest {
    AppendEntriesRequest {
        term,
        leader_id: leader as i32,
        prev_log_index: prev,
        prev_log_term: prev_term,
        entries,
        leader_commit: commit,
        leader_address: Some(addr(leader)),
    }
}

fn vote(term: i32, candidate: u16, last_index: i32, last_term: i32) -> RequestVoteRequest {
    RequestVoteRequest {
        term,
        candidate_id: candidate as i32,
        last_log_index: last_index,
        last_log_term: last_term,
        candidate_address: addr(candidate),
    }
}

fn terms(s: &RaftRpcImpl) -> Vec<i32> {
    s.node.log.iter().map(|e| e.term).collect()
}

#[test]
fn new_server_is_fresh_follower() {
    let s = RaftRpcImpl::new(addr(1));
    assert_eq!(s.node.state, NodeState::Follower);
    assert_eq!(s.node.current_term, 0);
    assert_eq!(s.state_machine.len(), 0);
    assert_eq!(s.config.len(), 0);
    assert_eq!(s.log_len(), 0);
    assert_eq!(s.last_log_index(), 0);
    assert_eq!(s.last_log_term(), 0);
}

#[test]
fn change_state_to_sets_leader_address() {
    let mut s = RaftRpcImpl::new(addr(1));
    s.node.leader_address = Some(addr(2));
    s.change_state_to(NodeState::Follower);
    assert_eq!(s.node.leader_address, Some(addr(2)));
    s.change_state_to(NodeState::Candidate);
    assert_eq!(s.node.leader_address, None);
    s.change_state_to(NodeState::Leader);
    assert_eq!(s.node.leader_address, Some(addr(1)));
    assert_eq!(s.node.state, NodeState::Leader);
}

#[test]
fn append_entries_into_empty_log() {
    let mut s = RaftRpcImpl::new(addr(1));
    let req = append(1, -1, 0, vec![entry(1, 0, "ENQUEUE a"), entry(1, 1, "ENQUEUE b")], 0, 2);
    assert!(s.append_entries_acceptable(&req));
    let h = s.append_entries(req);
    assert_eq!(h.reply, AppendEntriesResponse { term: 1, success: true, last_applied_index: 1 });
    assert!(h.reset_heartbeat_timer);
    assert_eq!(s.node.current_term, 1);
    assert_eq!(s.node.leader_address, Some(addr(2)));
    assert_eq!(s.node.last_applied, 1);
    assert_eq!(terms(&s), vec![1, 1]);
    assert_eq!(s.state_machine.len(), 0);
}

#[test]
fn append_entries_applies_up_to_leader_commit() {
    let mut s = RaftRpcImpl::new(addr(1));
    let req = append(1, -1, 0, vec![entry(1, 0, "ENQUEUE a"), entry(1, 1, "ENQUEUE b"), entry(1, 2, "ENQUEUE c")], 2, 2);
    let h = s.append_entries(req);
    assert!(h.reply.success);
    assert_eq!(s.node.commit_index, 2);
    // positions 1 and 2 are applied: the commit index starts at 0
    assert_eq!(s.state_machine.peekall_log(), vec!["b".to_string(), "c".to_string()]);
}

#[test]
fn append_entries_refuses_older_term() {
    let mut s = RaftRpcImpl::new(addr(1));
    s.node.current_term = 5;
    s.node.voted_for = Some(3);
    let h = s.append_entries(append(4, -1, 0, vec![entry(4, 0, "DEQUEUE")], 0, 2));
    assert_eq!(h.reply, AppendEntriesResponse { term: 5, success: false, last_applied_index: 0 });
    assert!(!h.reset_heartbeat_timer);
    assert_eq!(s.node.voted_for, Some(3));
    assert!(s.node.log.is_empty());
}

#[test]
fn append_entries_refuses_missing_previous_entry() {
    let mut s = RaftRpcImpl::new(addr(1));
    let h = s.append_entries(append(1, 0, 1, vec![entry(1, 1, "DEQUEUE")], 0, 2));
    assert!(!h.reply.success);
    assert!(h.reset_heartbeat_timer);
    assert_eq!(s.node.current_term, 1);
    assert!(s.node.log.is_empty());
}

#[test]
fn append_entries_newer_term_forgets_vote_and_steps_down() {
    let mut s = RaftRpcImpl::new(addr(1));
    s.node.current_term = 2;
    s.node.voted_for = Some(1);
    s.change_state_to(NodeState::Candidate);
    let h = s.append_entries(append(3, -1, 0, vec![], 0, 2));
    assert!(h.reply.success);
    assert_eq!(s.node.state, NodeState::Follower);
    assert_eq!(s.node.voted_for, None);
    assert_eq!(s.node.current_term, 3);
}

#[test]
fn append_entries_conflict_truncates_then_appends() {
    let mut s = RaftRpcImpl::new(addr(1));
    s.append_entries(append(1, -1, 0, vec![entry(1, 0, "ENQUEUE a"), entry(1, 1, "ENQUEUE b"), entry(1, 2, "ENQUEUE c")], 0, 2));
    // a leader of term 2 replaces everything after position 0
    let h = s.append_entries(append(2, 0, 1, vec![entry(2, 1, "ENQUEUE x")], 0, 3));
    assert!(h.reply.success);
    assert_eq!(h.reply.last_applied_index, 1);
    assert_eq!(terms(&s), vec![1, 2]);
    assert_eq!(s.node.log[1].command, "ENQUEUE x");
}

#[test]
fn append_entries_matching_last_term_keeps_longer_log() {
    let mut s = RaftRpcImpl::new(addr(1));
    s.append_entries(append(1, -1, 0, vec![entry(1, 0, "ENQUEUE a"), entry(1, 1, "ENQUEUE b"), entry(1, 2, "ENQUEUE c")], 0, 2));
    let h = s.append_entries(append(1, -1, 0, vec![entry(1, 0, "ENQUEUE a")], 0, 2));
    assert!(h.reply.success);
    assert_eq!(h.reply.last_applied_index, 0);
    assert_eq!(s.node.log.len(), 3);
}

#[test]
fn append_entries_acceptable_rejects_panicking_inputs() {
    let s = RaftRpcImpl::new(addr(1));
    assert!(!s.append_entries_acceptable(&append(1, -2, 0, vec![], 0, 2)));
    assert!(!s.append_entries_acceptable(&append(1, -1, 0, vec![entry(1, 0, "DEQUEUE")], 5, 2)));
    assert!(!s.append_entries_acceptable(&append(1, -1, 0, vec![entry(1, 0, "ENQUEUE"), entry(1, 1, "ENQUEUE")], 1, 2)));
    assert!(s.append_entries_acceptable(&append(1, -1, 0, vec![entry(1, 0, "ENQUEUE"), entry(1, 1, "DEQUEUE")], 1, 2)));
    assert!(s.append_entries_acceptable(&append(0, 3, 0, vec![], 9, 2)));
}

#[test]
fn request_vote_grants_once_per_term() {
    let mut s = RaftRpcImpl::new(addr(1));
    let h = s.request_vote(vote(1, 2, 0, 0));
    assert!(h.reply.vote_granted);
    assert_eq!(h.reply.term, 1);
    assert!(h.reset_heartbeat_timer);
    assert_eq!(s.node.voted_for, Some(2));
    assert_eq!(s.node.leader_address, Some(addr(2)));
    let h2 = s.request_vote(vote(1, 3, 0, 0));
    assert!(!h2.reply.vote_granted);
    assert!(!h2.reset_heartbeat_timer);
    let h3 = s.request_vote(vote(1, 2, 0, 0));
    assert!(h3.reply.vote_granted);
}

#[test]
fn request_vote_refuses_stale_log() {
    let mut s = RaftRpcImpl::new(addr(1));
    s.append_entries(append(3, -1, 0, vec![entry(3, 0, "DEQUEUE"), entry(3, 1, "DEQUEUE")], 0, 2));
    let h = s.request_vote(vote(4, 5, 5, 2));
    assert!(!h.reply.vote_granted);
    assert_eq!(s.node.current_term, 4);
    assert_eq!(s.node.voted_for, None);
    let h2 = s.request_vote(vote(4, 6, 1, 3));
    assert!(h2.reply.vote_granted);
}

#[test]
fn request_vote_refuses_older_term() {
    let mut s = RaftRpcImpl::new(addr(1));
    s.node.current_term = 3;
    let h = s.request_vote(vote(2, 2, 0, 0));
    assert!(!h.reply.vote_granted);
    assert_eq!(h.reply.term, 3);
    assert_eq!(s.node.voted_for, None);
}

#[test]
fn heartbeat_from_current_leader() {
    let mut s = RaftRpcImpl::new(addr(1));
    s.change_state_to(NodeState::Candidate);
    s.node.current_term = 2;
    assert!(s.heartbeat(&append(3, 0, 0, vec![], 0, 7)));
    assert_eq!(s.node.state, NodeState::Follower);
    assert_eq!(s.node.current_term, 3);
    assert_eq!(s.node.leader_address, Some(addr(7)));
    assert!(!s.heartbeat(&append(1, 0, 0, vec![], 0, 8)));
    assert_eq!(s.node.leader_address, Some(addr(7)));
}

#[test]
fn requests_without_leader_address() {
    let mut s = RaftRpcImpl::new(addr(1));
    s.node.current_term = 2;
    let mut current = append(2, -1, 0, vec![], 0, 2);
    current.leader_address = None;
    assert!(!s.append_entries_acceptable(&current));
    assert!(!s.heartbeat_acceptable(&current));
    let mut stale = append(1, -1, 0, vec![], 0, 2);
    stale.leader_address = None;
    assert!(s.append_entries_acceptable(&stale));
    assert!(s.heartbeat_acceptable(&stale));
    let h = s.append_entries(stale);
    assert!(!h.reply.success);
    assert_eq!(s.node.leader_address, None);
}
