use swarm_test::opencode::client::{
    session_message_url, session_prompt_url, session_status_url, sessions_url,
};
use swarm_test::opencode::reader::{OpenCodeMessage, OpenCodeReader};

fn message(id: &str) -> OpenCodeMessage {
    OpenCodeMessage {
        id: id.to_string(),
        session_id: "s".to_string(),
        role: "user".to_string(),
        content: "text".to_string(),
        timestamp: "2024-01-01T00:00:00Z".to_string(),
        tool_calls: vec![],
    }
}

#[test]
fn test_reader_creation() {
    let reader = OpenCodeReader::new("http://localhost:4096".to_string());
    assert_eq!(reader.server_url, "http://localhost:4096");
}

#[test]
fn test_reader_urls() {
    let reader = OpenCodeReader::new("http://localhost:4096/".to_string());
    assert_eq!(
        reader.messages_url("abc"),
        "http://localhost:4096/session/abc/messages"
    );
    assert_eq!(reader.session_url("abc"), "http://localhost:4096/session/abc");
}

#[test]
fn test_apply_limit() {
    let reader = OpenCodeReader::new("http://h".to_string());
    let messages = vec![message("a"), message("b"), message("c")];

    let unlimited = reader.apply_limit(messages.clone(), None);
    assert_eq!(unlimited.len(), 3);

    let limited = reader.apply_limit(messages.clone(), Some(2));
    assert_eq!(limited.len(), 2);
    assert_eq!(limited[0].id, "a");
    assert_eq!(limited[1].id, "b");

    let over = reader.apply_limit(messages, Some(10));
    assert_eq!(over.len(), 3);
}

#[test]
fn test_client_endpoint_urls() {
    assert_eq!(
        session_prompt_url("http://h:1/", "s9"),
        "http://h:1/session/s9/prompt"
    );
    assert_eq!(
        session_message_url("http://h:1", "s9"),
        "http://h:1/session/s9/message"
    );
    assert_eq!(sessions_url("http://h:1///"), "http://h:1/sessions");
    assert_eq!(
        session_status_url("http://h:1", "s9"),
        "http://h:1/session/s9/status"
    );
}
