use raft_queue::address::NodeAddress;
use raft_queue::campaign::{DriverAction, ElectionStart};
use raft_queue::message::{AppendEntriesResponse, LogEntry, RequestVoteResponse};
use raft_queue::membership::{retry_config_update, ClientDecision, JoinDecision, StartupAction, CONFIG_UPDATE_ATTEMPTS};
use raft_queue::replication::ReplicationStep;
use raft_queue::server::RaftRpcImpl;
use raft_queue::state::NodeState;

fn addr(port: u16) -> NodeAddress {
    NodeAddress::localhost(port)
}

fn cluster(me: u16, members: &[u16]) -> RaftRpcImpl {
    let mut s = RaftRpcImpl::new(addr(me));
    let list: Vec<NodeAddress> = members.iter().map(|p| addr(*p)).collect();
    s.update_config(&list);
    s
}

fn leader(me: u16, members: &[u16]) -> RaftRpcImpl {
    let mut s = cluster(me, members);
    s.node.current_term = 1;
    s.change_state_to(NodeState::Leader);
    s.init_leader_indices();
    s
}

#[test]
fn election_timeout_starts_candidacy() {
    let mut s = cluster(1, &[1, 2, 3]);
    s.node.leader_address = Some(addr(2));
    s.on_election_timeout();
    assert_eq!(s.node.current_term, 1);
    assert_eq!(s.node.state, NodeState::Candidate);
    assert_eq!(s.node.voted_for, Some(1));
    assert_eq!(s.node.leader_address, None);
}

#[test]
fn single_member_wins_at_once() {
    let mut s = cluster(1, &[1]);
    s.on_election_timeout();
    assert_eq!(s.begin_request_voting(), ElectionStart::WonUnopposed);
    assert_eq!(s.node.state, NodeState::Leader);
    assert_eq!(s.node.leader_address, Some(addr(1)));
}

#[test]
fn larger_cluster_campaigns() {
    let mut s = cluster(1, &[1, 2, 3]);
    s.on_election_timeout();
    assert_eq!(s.begin_request_voting(), ElectionStart::Campaign { last_log_term: 0 });
    let req = s.request_vote_request(0);
    assert_eq!(req.term, 1);
    assert_eq!(req.candidate_id, 1);
    assert_eq!(req.last_log_index, 0);
    assert_eq!(req.candidate_address, addr(1));
}

#[test]
fn majority_of_votes_makes_leader() {
    let mut s = cluster(1, &[1, 2, 3, 4, 5]);
    s.on_election_timeout();
    let mut tally = s.start_vote_tally();
    assert_eq!(tally.majority, 2);
    let granted = RequestVoteResponse { term: 1, vote_granted: true };
    assert!(!s.on_request_vote_response(&mut tally, &addr(2), granted));
    assert_eq!(s.node.state, NodeState::Candidate);
    s.on_request_vote_response(&mut tally, &addr(2), granted);
    assert_eq!(s.node.state, NodeState::Candidate);
    s.on_request_vote_response(&mut tally, &addr(3), granted);
    assert_eq!(tally.count(), 3);
    assert_eq!(s.node.state, NodeState::Leader);
    assert_eq!(s.node.next_index.get(&addr(4)), Some(0));
    assert_eq!(s.node.match_index.get(&addr(5)), Some(-1));
    assert_eq!(s.node.match_index.get(&addr(1)), None);
    assert!(!s.finish_election_round());
}

#[test]
fn newer_term_in_vote_answer_steps_down() {
    let mut s = cluster(1, &[1, 2, 3]);
    s.on_election_timeout();
    let mut tally = s.start_vote_tally();
    assert!(s.on_request_vote_response(&mut tally, &addr(3), RequestVoteResponse { term: 5, vote_granted: false }));
    assert_eq!(s.node.state, NodeState::Follower);
    assert_eq!(s.node.current_term, 5);
    assert_eq!(s.node.leader_address, Some(addr(3)));
    assert_eq!(s.node.voted_for, None);
}

#[test]
fn failed_round_moves_to_next_term() {
    let mut s = cluster(1, &[1, 2, 3]);
    s.on_election_timeout();
    assert!(s.finish_election_round());
    assert_eq!(s.node.current_term, 2);
    assert_eq!(s.node.voted_for, Some(1));
}

#[test]
fn enqueue_on_leader_appends_command() {
    let mut s = leader(1, &[1, 2, 3]);
    assert_eq!(s.enqueue("apple"), ClientDecision::Replicate);
    assert_eq!(s.node.log.len(), 1);
    assert_eq!(s.node.log[0].command, "ENQUEUE apple");
    assert_eq!(s.node.log[0].term, 1);
    assert_eq!(s.node.log[0].index, 0);
    assert_eq!(s.node.match_index.get(&addr(1)), Some(0));
    assert_eq!(s.dequeue(), ClientDecision::Replicate);
    assert_eq!(s.node.log[1].command, "DEQUEUE");
    assert_eq!(s.node.match_index.get(&addr(1)), Some(1));
}

#[test]
fn enqueue_on_follower_forwards_or_refuses() {
    let mut s = cluster(1, &[1, 2]);
    assert_eq!(s.enqueue("x"), ClientDecision::Refused);
    s.node.leader_address = Some(addr(2));
    assert_eq!(s.enqueue("x"), ClientDecision::Forward(addr(2)));
    assert_eq!(s.dequeue(), ClientDecision::Forward(addr(2)));
    assert!(s.node.log.is_empty());
}

#[test]
fn craft_request_sends_missing_entries() {
    let mut s = leader(1, &[1, 2]);
    s.enqueue("a");
    s.enqueue("b");
    let req = s.craft_append_entries_request(&addr(2));
    assert_eq!(req.term, 1);
    assert_eq!(req.prev_log_index, -1);
    assert_eq!(req.prev_log_term, 0);
    assert_eq!(req.entries.len(), 2);
    assert_eq!(req.leader_commit, 0);
    assert_eq!(req.leader_id, 1);
    s.node.next_index.insert(addr(2), 1);
    let req2 = s.craft_append_entries_request(&addr(2));
    assert_eq!(req2.prev_log_index, 0);
    assert_eq!(req2.prev_log_term, 1);
    assert_eq!(req2.entries.len(), 1);
    assert_eq!(req2.entries[0].command, "ENQUEUE b");
}

#[test]
fn craft_request_from_follower_has_term_minus_one() {
    let s = cluster(1, &[1, 2]);
    let req = s.craft_append_entries_request(&addr(2));
    assert_eq!(req.term, -1);
    assert!(req.entries.is_empty());
    assert_eq!(req.leader_commit, 0);
}

#[test]
fn append_response_success_advances_indexes() {
    let mut s = leader(1, &[1, 2]);
    s.enqueue("a");
    let h = s.on_append_entries_response(&addr(2), AppendEntriesResponse { term: 1, success: true, last_applied_index: 0 });
    assert_eq!(h.reply, ReplicationStep::Done);
    assert_eq!(s.node.match_index.get(&addr(2)), Some(0));
    assert_eq!(s.node.next_index.get(&addr(2)), Some(1));
}

#[test]
fn append_response_failure_steps_back() {
    let mut s = leader(1, &[1, 2]);
    s.enqueue("a");
    s.enqueue("b");
    s.node.next_index.insert(addr(2), 2);
    let fail = AppendEntriesResponse { term: 1, success: false, last_applied_index: 0 };
    let h = s.on_append_entries_response(&addr(2), fail);
    assert_eq!(h.reply, ReplicationStep::Retry);
    assert_eq!(s.node.next_index.get(&addr(2)), Some(1));
    s.on_append_entries_response(&addr(2), fail);
    let h = s.on_append_entries_response(&addr(2), fail);
    assert_eq!(h.reply, ReplicationStep::Done);
    assert_eq!(s.node.next_index.get(&addr(2)), Some(0));
}

#[test]
fn append_response_newer_term_steps_down() {
    let mut s = leader(1, &[1, 2]);
    let h = s.on_append_entries_response(&addr(2), AppendEntriesResponse { term: 4, success: false, last_applied_index: 0 });
    assert!(h.reset_heartbeat_timer);
    assert_eq!(h.reply, ReplicationStep::Done);
    assert_eq!(s.node.state, NodeState::Follower);
    assert_eq!(s.node.current_term, 4);
    assert_eq!(s.node.voted_for, None);
}

#[test]
fn acks_count_leader_and_caught_up_peers() {
    let mut s = leader(1, &[1, 2, 3]);
    s.enqueue("a");
    s.enqueue("b");
    assert_eq!(s.acks(1), 1);
    s.on_append_entries_response(&addr(2), AppendEntriesResponse { term: 1, success: true, last_applied_index: 1 });
    assert_eq!(s.acks(1), 2);
    assert_eq!(s.acks(2), 2);
    assert_eq!(s.acks(3), 1);
}

#[test]
fn commit_applies_majority_held_entries() {
    let mut s = leader(1, &[1, 2, 3]);
    s.enqueue("a");
    s.enqueue("b");
    s.dequeue();
    assert!(s.commit_acceptable());
    assert_eq!(s.commit_replicated_entries(), "No new entries to commit");
    s.on_append_entries_response(&addr(2), AppendEntriesResponse { term: 1, success: true, last_applied_index: 2 });
    assert!(s.commit_acceptable());
    // positions 1 and 2 are applied (the commit index starts at 0): ENQUEUE b, then DEQUEUE
    assert_eq!(s.commit_replicated_entries(), "b");
    assert_eq!(s.node.commit_index, 2);
    assert_eq!(s.state_machine.len(), 0);
    assert_eq!(s.commit_replicated_entries(), "No new entries to commit");
}

#[test]
fn replication_peers_only_for_leader() {
    let s = cluster(1, &[1, 2, 3]);
    assert_eq!(s.replication_peers(), None);
    let l = leader(1, &[1, 2, 3]);
    assert_eq!(l.replication_peers(), Some(vec![addr(2), addr(3)]));
    assert_eq!(RaftRpcImpl::not_leader_reply(), "Not leader");
}

#[test]
fn join_on_leader_adds_member() {
    let mut s = leader(1, &[1, 2]);
    s.enqueue("a");
    match s.join(addr(3)) {
        JoinDecision::Accepted { save_config, notify, addresses } => {
            assert!(save_config);
            assert_eq!(notify, vec![addr(2), addr(3)]);
            assert_eq!(addresses, vec![addr(1), addr(2), addr(3)]);
        }
        _ => panic!("leader must accept"),
    }
    assert_eq!(s.node.match_index.get(&addr(3)), Some(-1));
    assert_eq!(s.node.next_index.get(&addr(3)), Some(1));
    match s.join(addr(3)) {
        JoinDecision::Accepted { save_config, .. } => assert!(!save_config),
        _ => panic!("leader must accept"),
    }
}

#[test]
fn join_on_follower_forwards_or_refuses() {
    let mut s = cluster(1, &[1, 2]);
    assert!(matches!(s.join(addr(3)), JoinDecision::Refused));
    s.node.leader_address = Some(addr(2));
    assert!(matches!(s.join(addr(3)), JoinDecision::Forward(a) if a == addr(2)));
    assert_eq!(s.config.len(), 2);
}

#[test]
fn update_config_only_on_followers() {
    let mut s = cluster(1, &[1]);
    let r = s.update_config(&vec![addr(2), addr(1), addr(3)]);
    assert!(r.success);
    assert_eq!(s.config_addresses(), vec![addr(1), addr(2), addr(3)]);
    let mut l = leader(1, &[1]);
    assert!(!l.update_config(&vec![addr(9)]).success);
    assert_eq!(l.config.len(), 1);
}

#[test]
fn read_queue_returns_items() {
    let mut s = cluster(1, &[1]);
    s.state_machine.execute("ENQUEUE q".to_string());
    let r = s.read_queue();
    assert!(r.success);
    assert_eq!(r.contents, vec!["q".to_string()]);
}

#[test]
fn startup_actions() {
    let s = RaftRpcImpl::new(addr(1));
    assert!(matches!(s.startup_action(), StartupAction::Bootstrap));
    let mut b = RaftRpcImpl::new(addr(1));
    b.bootstrap_config();
    assert!(matches!(b.startup_action(), StartupAction::AlreadyMember));
    let c = cluster(1, &[2, 3]);
    match c.startup_action() {
        StartupAction::RequestJoin(t) => assert_eq!(t, vec![addr(2), addr(3)]),
        _ => panic!("must ask to join"),
    }
}

#[test]
fn log_entry_duplicate_copies_fields() {
    let e = LogEntry { term: 2, index: 5, command: "DEQUEUE".to_string() };
    let d = e.duplicate();
    assert_eq!(d.term, 2);
    assert_eq!(d.index, 5);
    assert_eq!(d.command, "DEQUEUE");
}

#[test]
fn config_update_tried_at_most_three_times() {
    assert_eq!(CONFIG_UPDATE_ATTEMPTS, 3);
    assert!(retry_config_update(0, false));
    assert!(retry_config_update(1, false));
    assert!(!retry_config_update(2, false));
    assert!(!retry_config_update(0, true));
    assert!(!retry_config_update(1, true));
}

#[test]
fn next_action_by_role_and_timer() {
    let mut s = cluster(1, &[1, 2]);
    assert_eq!(s.next_action(false), DriverAction::Wait);
    assert_eq!(s.next_action(true), DriverAction::StandForElection);
    s.change_state_to(NodeState::Candidate);
    assert_eq!(s.next_action(true), DriverAction::Wait);
    s.change_state_to(NodeState::Leader);
    assert_eq!(s.next_action(false), DriverAction::Replicate);
}
