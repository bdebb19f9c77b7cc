use raft_queue::message::{LogEntry, StatusResponse};
use raft_queue::status::NodeInfo;

#[test]
fn blank_node_info() {
    let n = NodeInfo::new();
    assert!(!n.is_online);
    assert_eq!(n.address, "");
    assert_eq!(n.term, 0);
    assert!(n.log.is_empty());
    assert!(n.queue.is_empty());
}

#[test]
fn offline_node_info_keeps_address() {
    let n = NodeInfo::offline("127.0.0.1:5000".to_string());
    assert!(!n.is_online);
    assert_eq!(n.address, "127.0.0.1:5000");
    assert_eq!(n.state, "");
}

#[test]
fn online_node_info_copies_status() {
    let status = StatusResponse {
        state: "Leader".to_string(),
        term: 3,
        leader_address: "127.0.0.1:5000".to_string(),
        log: vec![LogEntry { term: 3, index: 0, command: "ENQUEUE a".to_string() }],
        commit_index: 0,
        last_applied_index: 0,
        queue: vec!["a".to_string()],
    };
    let n = NodeInfo::online("127.0.0.1:5000".to_string(), status);
    assert!(n.is_online);
    assert_eq!(n.state, "Leader");
    assert_eq!(n.term, 3);
    assert_eq!(n.log.len(), 1);
    assert_eq!(n.log[0].command, "ENQUEUE a");
    assert_eq!(n.queue, vec!["a".to_string()]);
}
