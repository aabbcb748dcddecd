use swarm_test::messaging::read::LogReader;
use swarm_test::messaging::send::{MessageSender, PromptMetadata};
use swarm_test::types::{PaneId, SessionId};

#[test]
fn test_message_sender_base_path() {
    let sender = MessageSender::new("work_dir".to_string());
    assert_eq!(sender.base_path(), "work_dir");
}

#[test]
fn test_prompt_paths() {
    let sender = MessageSender::new("base".to_string());
    assert_eq!(sender.prompt_dir(), "base/.opencode/prompts");
    assert_eq!(
        sender.pane_prompt_file(&PaneId("test_pane".to_string())),
        "base/.opencode/prompts/test_pane.prompt.input"
    );
}

#[test]
fn test_render_prompt() {
    let sender = MessageSender::new("base".to_string());
    assert_eq!(sender.render_prompt("Hello, world!"), "Hello, world!\n");
}

#[test]
fn test_render_prompt_with_metadata() {
    let sender = MessageSender::new("base".to_string());
    let metadata = PromptMetadata::new(SessionId("$0".to_string()), "TestAgent".to_string());

    let rendered = sender.render_prompt_with_metadata("Test prompt with metadata", &metadata);

    assert!(rendered.contains("# $0"));
    assert!(rendered.contains("# timestamp:"));
    assert!(rendered.contains("# agent: TestAgent"));
    assert!(rendered.contains("Test prompt with metadata"));
    assert!(rendered.ends_with('\n'));
}

#[test]
fn test_log_paths() {
    let reader = LogReader::new();
    assert_eq!(reader.log_dir, "/tmp/tmux_logs");
    assert_eq!(
        reader.session_log_path(&SessionId("$0".to_string())),
        "/tmp/tmux_logs/session_$0.log"
    );
    assert_eq!(
        reader.pane_log_path(&PaneId("%1".to_string())),
        "/tmp/tmux_logs/pane_%1.log"
    );

    let custom = LogReader::with_dir("logs".to_string());
    assert_eq!(
        custom.session_log_path(&SessionId("custom_test".to_string())),
        "logs/session_custom_test.log"
    );
}

fn lines() -> Vec<String> {
    vec![
        "Line 1: Session started".to_string(),
        "Line 2: Processing request".to_string(),
        "Line 3: Task completed".to_string(),
    ]
}

#[test]
fn test_tail_log_lines() {
    let reader = LogReader::new();

    let last_two = reader.tail_log(lines(), 2);
    assert_eq!(last_two.len(), 2);
    assert_eq!(last_two[0], "Line 2: Processing request");
    assert_eq!(last_two[1], "Line 3: Task completed");

    let all = reader.tail_log(lines(), 20);
    assert_eq!(all.len(), 3);
}

#[test]
fn test_read_log_from_offset() {
    let reader = LogReader::new();
    let rest = reader.read_log_from(lines(), 1);
    assert_eq!(rest.len(), 2);
    assert_eq!(rest[0], "Line 2: Processing request");

    assert!(reader.read_log_from(lines(), 5).is_empty());
}

#[test]
fn test_search_log_lines() {
    let reader = LogReader::new();
    let hits = reader.search_log(&lines(), "Processing");
    assert_eq!(hits.len(), 1);
    assert!(hits[0].contains("Processing"));
}

#[test]
fn test_list_session_logs_from_names() {
    let reader = LogReader::new();
    let names = vec![
        "session_$0.log".to_string(),
        "pane_%1.log".to_string(),
        "session_dev.log".to_string(),
        "notes.txt".to_string(),
    ];
    let ids = reader.list_session_logs(&names);
    assert_eq!(ids.len(), 2);
    assert_eq!(ids[0].0, "$0");
    assert_eq!(ids[1].0, "dev");
}
