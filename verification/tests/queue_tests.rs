use swarm_test::messaging::queue::{MessageQueue, QueueStats, QueuedMessage};
use swarm_test::types::{Command, CommandTarget, Message, PaneId, SessionId};

fn sample_message() -> Message {
    Message {
        id: "test_id".to_string(),
        pane_id: PaneId("test:0.0".to_string()),
        content: "Test message".to_string(),
        timestamp: 0,
    }
}

#[test]
fn test_enqueue_message() {
    let mut queue = MessageQueue::new("queue_base".to_string());

    let message = sample_message();

    queue.enqueue_message(message).unwrap();
    assert_eq!(queue.len(), 1);
}

#[test]
fn test_dequeue() {
    let mut queue = MessageQueue::new("queue_base".to_string());

    let message = sample_message();

    queue.enqueue_message(message).unwrap();
    let dequeued = queue.dequeue().unwrap();
    assert_eq!(dequeued.message.id, "test_id");
    assert!(queue.is_empty());
}

#[test]
fn test_stats() {
    let mut queue = MessageQueue::new("queue_base".to_string());

    let message = sample_message();

    queue.enqueue_message(message).unwrap();
    let stats = queue.stats().unwrap();
    assert_eq!(stats.pending, 1);
}

#[test]
fn test_enqueue_dequeue_scenario() {
    let mut queue = MessageQueue::new("base".to_string());
    let message = Message {
        id: "m1".to_string(),
        pane_id: PaneId("p:0.0".to_string()),
        content: "hello".to_string(),
        timestamp: 0,
    };

    queue.enqueue_message(message).unwrap();
    let stats = queue.stats().unwrap();
    assert_eq!(stats, QueueStats { pending: 1, queued: 1, failed: 0 });

    let dequeued = queue.dequeue().unwrap();
    assert_eq!(dequeued.message.id, "m1");
    assert_eq!(dequeued.message.content, "hello");
    assert_eq!(dequeued.retries, 0);

    // the stored file stays until the caller deletes it after delivery
    let stats = queue.stats().unwrap();
    assert_eq!(stats, QueueStats { pending: 0, queued: 1, failed: 0 });
    assert_eq!(queue.files().len(), 1);
}

#[test]
fn test_clear_twice_stays_empty() {
    let mut queue = MessageQueue::new("base".to_string());
    queue.enqueue_message(sample_message()).unwrap();

    queue.clear().unwrap();
    assert_eq!(queue.stats().unwrap(), QueueStats { pending: 0, queued: 0, failed: 0 });

    queue.clear().unwrap();
    assert_eq!(queue.stats().unwrap(), QueueStats { pending: 0, queued: 0, failed: 0 });
}

#[test]
fn test_retry_bound() {
    let mut queue = MessageQueue::new("base".to_string());
    queue.enqueue_message(sample_message()).unwrap();
    queue.dequeue().unwrap();

    assert_eq!(queue.retry_failed().unwrap(), 1);
    assert_eq!(queue.retry_failed().unwrap(), 1);
    assert_eq!(queue.retry_failed().unwrap(), 1);
    // three retries exhaust the message: it counts as failed and a
    // further pass no longer touches it
    assert_eq!(queue.retry_failed().unwrap(), 0);

    let stats = queue.stats().unwrap();
    assert_eq!(stats.queued, 0);
    assert_eq!(stats.failed, 1);
}

#[test]
fn test_retry_requeues_in_memory() {
    let mut queue = MessageQueue::new("base".to_string());
    queue.enqueue_message(sample_message()).unwrap();
    queue.dequeue().unwrap();
    assert!(queue.is_empty());

    queue.retry_failed().unwrap();
    assert_eq!(queue.len(), 1);
    let retried = queue.peek().unwrap();
    assert_eq!(retried.message.id, "test_id");
    assert_eq!(retried.retries, 1);
    assert!(retried.should_retry());
}

#[test]
fn test_send_message_returns_fresh_id() {
    let mut queue = MessageQueue::new("base".to_string());
    let id = queue.send_message(&SessionId("sess".to_string()), "ping").unwrap();

    // a random identifier in the 36-character hyphenated form
    assert_eq!(id.len(), 36);
    let queued = queue.peek().unwrap();
    assert_eq!(queued.message.id, id);
    assert_eq!(queued.message.pane_id.0, "sess:0.0");
    assert_eq!(queued.message.content, "ping");
    assert!(queued.queued_at > 0);
}

#[test]
fn test_send_command_requires_pane_target() {
    let mut queue = MessageQueue::new("base".to_string());
    let sid = SessionId("sess".to_string());

    let bad = Command {
        command: "kill-session".to_string(),
        target: CommandTarget::Server,
        args: vec![],
    };
    assert!(queue.send_command(&sid, &bad).is_err());

    let good = Command {
        command: "ls".to_string(),
        target: CommandTarget::Pane(PaneId("%5".to_string())),
        args: vec![],
    };
    queue.send_command(&sid, &good).unwrap();
    let queued = queue.dequeue().unwrap();
    assert_eq!(queued.message.content, "send-keys -t %5 ls");
}

#[test]
fn test_message_file_path() {
    let queue = MessageQueue::new("base".to_string());
    assert_eq!(queue.queue_dir(), "base/.opencode/queue");
    assert_eq!(queue.message_file("test:0.0", "m1"), "base/.opencode/queue/test:0.0-m1.msg");
}

#[test]
fn test_restore_stored_keeps_retry_state() {
    let mut queue = MessageQueue::new("base".to_string());
    let entry = QueuedMessage { message: sample_message(), queued_at: 777, retries: 2 };
    queue.restore_stored("base/.opencode/queue/test:0.0-test_id.msg".to_string(), entry);

    // restoring touches only the file model; nothing becomes pending
    assert!(queue.is_empty());
    let stats = queue.stats().unwrap();
    assert_eq!(stats, QueueStats { pending: 0, queued: 1, failed: 0 });

    // the third retry exhausts it, exactly as the file recorded
    assert_eq!(queue.retry_failed().unwrap(), 1);
    let retried = queue.peek().unwrap();
    assert_eq!(retried.retries, 3);
    assert_eq!(retried.queued_at, 777);
    assert_eq!(queue.stats().unwrap().failed, 1);
    assert_eq!(queue.retry_failed().unwrap(), 0);
}

#[test]
fn test_queued_message_new() {
    let qm = QueuedMessage::new(sample_message());
    assert_eq!(qm.retries, 0);
    assert_eq!(qm.id(), "test_id");
    assert!(qm.should_retry());
}
