use raft_queue::election::{is_log_left_as_update_as_right, ElectionState, VoteTally};
use raft_queue::state::NodeState;

#[test]
fn later_term_is_more_up_to_date() {
    assert!(is_log_left_as_update_as_right(3, 0, 2, 10));
    assert!(!is_log_left_as_update_as_right(2, 10, 3, 0));
}

#[test]
fn same_term_longer_log_wins() {
    assert!(is_log_left_as_update_as_right(2, 5, 2, 4));
    assert!(is_log_left_as_update_as_right(2, 5, 2, 5));
    assert!(!is_log_left_as_update_as_right(2, 4, 2, 5));
}

#[test]
fn up_to_date_order_is_total_on_examples() {
    let pairs = [(1, 1), (1, 2), (2, 0), (0, 7)];
    for a in pairs.iter() {
        for b in pairs.iter() {
            assert!(is_log_left_as_update_as_right(a.0, a.1, b.0, b.1) || is_log_left_as_update_as_right(b.0, b.1, a.0, a.1));
        }
    }
}

#[test]
fn vote_tally_counts_each_voter_once() {
    let mut t = VoteTally::new(5000, 1);
    assert_eq!(t.count(), 1);
    t.insert(5001);
    t.insert(5001);
    t.insert(5000);
    assert_eq!(t.count(), 2);
    assert_eq!(t.majority, 1);
}

#[test]
fn election_state_variants_differ() {
    assert_ne!(ElectionState::Won, ElectionState::Lost);
    assert_eq!(ElectionState::Running, ElectionState::Running);
    assert_ne!(ElectionState::Finished, ElectionState::Running);
}

#[test]
fn node_state_names() {
    assert_eq!(NodeState::Candidate.get_state(), "Candidate");
    assert_eq!(NodeState::Follower.get_state(), "Follower");
    assert_eq!(NodeState::Leader.get_state(), "Leader");
}

#[test]
fn node_state_default_is_follower() {
    assert_eq!(NodeState::default(), NodeState::Follower);
}
