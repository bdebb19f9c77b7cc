use raft_queue::message::LogEntry;
use raft_queue::queue::{can_execute_command, Queue};

fn entry(term: i32, index: i32, command: &str) -> LogEntry {
    LogEntry { term, index, command: command.to_string() }
}

#[test]
fn new_queue_is_empty() {
    let q = Queue::new();
    assert_eq!(q.len(), 0);
    assert!(q.peekall_log().is_empty());
}

#[test]
fn enqueue_log_builds_command() {
    assert_eq!(Queue::enqueue_log("apple"), "ENQUEUE apple");
    assert_eq!(Queue::enqueue_log(""), "ENQUEUE ");
}

#[test]
fn dequeue_log_builds_command() {
    assert_eq!(Queue::dequeue_log(), "DEQUEUE");
}

#[test]
fn execute_enqueue_appends_item_and_answers_nothing() {
    let mut q = Queue::new();
    assert_eq!(q.execute("ENQUEUE apple".to_string()), "");
    assert_eq!(q.execute("ENQUEUE pear".to_string()), "");
    assert_eq!(q.peekall_log(), vec!["apple".to_string(), "pear".to_string()]);
    assert_eq!(q.len(), 2);
}

#[test]
fn execute_dequeue_takes_front_item() {
    let mut q = Queue::new();
    q.execute(Queue::enqueue_log("first"));
    q.execute(Queue::enqueue_log("second"));
    assert_eq!(q.execute(Queue::dequeue_log()), "first");
    assert_eq!(q.peekall_log(), vec!["second".to_string()]);
    assert_eq!(q.execute(Queue::dequeue_log()), "second");
    assert_eq!(q.len(), 0);
}

#[test]
fn execute_dequeue_on_empty_queue() {
    let mut q = Queue::new();
    assert_eq!(q.execute("DEQUEUE".to_string()), "QUEUE EMPTY");
    assert_eq!(q.len(), 0);
}

#[test]
fn execute_enqueue_takes_second_field_only() {
    let mut q = Queue::new();
    q.execute("ENQUEUE hello world".to_string());
    q.execute("ENQUEUE  x".to_string());
    assert_eq!(q.peekall_log(), vec!["hello".to_string(), "".to_string()]);
}

#[test]
fn execute_other_command_changes_nothing() {
    let mut q = Queue::new();
    q.execute(Queue::enqueue_log("a"));
    assert_eq!(q.execute("PEEK".to_string()), "");
    assert_eq!(q.execute("enqueue b".to_string()), "");
    assert_eq!(q.peekall_log(), vec!["a".to_string()]);
}

#[test]
fn execute_unicode_item() {
    let mut q = Queue::new();
    q.execute("ENQUEUE héllo wörld".to_string());
    assert_eq!(q.execute("DEQUEUE".to_string()), "héllo");
}

#[test]
fn build_from_log_entries_runs_commands_in_order() {
    let mut q = Queue::new();
    let log = vec![
        entry(1, 0, "ENQUEUE a"),
        entry(1, 1, "ENQUEUE b"),
        entry(2, 2, "DEQUEUE"),
        entry(2, 3, "ENQUEUE c"),
    ];
    q.build_from_log_entries(&log);
    assert_eq!(q.peekall_log(), vec!["b".to_string(), "c".to_string()]);
}

#[test]
fn can_execute_command_needs_item_for_enqueue() {
    assert!(!can_execute_command("ENQUEUE"));
    assert!(can_execute_command("ENQUEUE x"));
    assert!(can_execute_command("DEQUEUE"));
    assert!(can_execute_command("anything"));
}
