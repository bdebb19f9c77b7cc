use raft_queue::address::{IpAddress, NodeAddress};
use raft_queue::config::Config;
use raft_queue::message::LogEntry;
use raft_queue::node::{LogEntryWritable, Node, Persistent};
use raft_queue::peer_table::PeerTable;
use raft_queue::state::NodeState;

fn addr(port: u16) -> NodeAddress {
    NodeAddress::localhost(port)
}

#[test]
fn localhost_address() {
    let a = NodeAddress::localhost(24341);
    assert_eq!(a.ip, IpAddress::V4(0x7f00_0001));
    assert_eq!(a.port, 24341);
    assert_eq!(a.node_id(), 24341);
}

#[test]
fn new_node_is_fresh_follower() {
    let n = Node::new(addr(1));
    assert_eq!(n.address, addr(1));
    assert_eq!(n.current_term, 0);
    assert_eq!(n.voted_for, None);
    assert!(n.log.is_empty());
    assert_eq!(n.commit_index, 0);
    assert_eq!(n.last_applied, 0);
    assert_eq!(n.state, NodeState::Follower);
    assert_eq!(n.leader_address, None);
    assert!(!n.next_index.contains(&addr(2)));
}

#[test]
fn log_entries_round_trip_through_stored_form() {
    let log = vec![
        LogEntry { term: 1, index: 0, command: "ENQUEUE a".to_string() },
        LogEntry { term: 3, index: 1, command: "DEQUEUE".to_string() },
    ];
    let stored = Persistent::log_entry_to_writable(&log);
    assert_eq!(stored.len(), 2);
    assert_eq!(stored[1].term, 3);
    assert_eq!(stored[1].index, 1);
    assert_eq!(stored[1].command, "DEQUEUE");
    let back = Persistent::writable_to_log_entry(&stored);
    assert_eq!(back.len(), 2);
    for i in 0..2 {
        assert_eq!(back[i].term, log[i].term);
        assert_eq!(back[i].index, log[i].index);
        assert_eq!(back[i].command, log[i].command);
    }
}

#[test]
fn restore_without_saved_state_starts_over() {
    let mut n = Node::new(addr(1));
    n.current_term = 7;
    n.voted_for = Some(3);
    n.log.push(LogEntry { term: 7, index: 0, command: "DEQUEUE".to_string() });
    n.restore_persistent(None);
    assert_eq!(n.current_term, 0);
    assert_eq!(n.voted_for, None);
    assert!(n.log.is_empty());
}

#[test]
fn restore_takes_up_saved_state() {
    let mut n = Node::new(addr(1));
    let saved = Persistent {
        current_term: 4,
        voted_for: Some(9),
        log: vec![LogEntryWritable { term: 4, index: 0, command: "ENQUEUE z".to_string() }],
    };
    n.restore_persistent(Some(saved));
    assert_eq!(n.current_term, 4);
    assert_eq!(n.voted_for, Some(9));
    assert_eq!(n.log.len(), 1);
    assert_eq!(n.log[0].command, "ENQUEUE z");
    let p = n.persistent();
    assert_eq!(p.current_term, 4);
    assert_eq!(p.voted_for, Some(9));
    assert_eq!(p.log[0].command, "ENQUEUE z");
}

#[test]
fn config_insert_keeps_each_member_once() {
    let mut c = Config::new();
    c.insert(addr(1));
    c.insert(addr(2));
    c.insert(addr(1));
    assert_eq!(c.len(), 2);
    assert!(c.contains(&addr(2)));
    assert!(!c.contains(&addr(3)));
    assert_eq!(c.peers(&addr(1)), vec![addr(2)]);
}

#[test]
fn config_from_addresses_drops_repeats() {
    let c = Config::from_addresses(&vec![addr(3), addr(1), addr(3), addr(2)]);
    assert_eq!(c.node_address_list, vec![addr(3), addr(1), addr(2)]);
}

#[test]
fn peer_table_insert_and_get() {
    let mut t = PeerTable::new();
    assert_eq!(t.get(&addr(1)), None);
    t.insert(addr(1), 5);
    t.insert(addr(2), -1);
    t.insert(addr(1), 6);
    assert_eq!(t.get(&addr(1)), Some(6));
    assert_eq!(t.get(&addr(2)), Some(-1));
    assert!(t.contains(&addr(2)));
    assert!(!t.contains(&addr(3)));
}
