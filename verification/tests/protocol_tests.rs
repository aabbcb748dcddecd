use swarm_test::opencode::protocol::{MessageType, OpenCodeProtocol};
use swarm_test::types::{Command, CommandTarget, PaneId, SessionId};

#[test]
fn test_parse_agent_response() {
    let protocol = OpenCodeProtocol::new();

    let tool_output = "I'll read the file\nRunning: read filePath=/path/to/file.txt";
    let response = protocol.parse_response(tool_output).unwrap();
    assert!(response.success);
    assert_eq!(response.message_type, MessageType::ToolCall);
    assert_eq!(response.tool_calls.len(), 1);
    assert_eq!(response.tool_calls[0].tool_name, "read");
}

#[test]
fn test_parse_error_response() {
    let protocol = OpenCodeProtocol::new();

    let error_output = "<error>Failed to read file: permission denied</error>";
    let response = protocol.parse_response(error_output).unwrap();
    assert!(!response.success);
    assert_eq!(response.message_type, MessageType::Error);
    assert!(response.error.is_some());
}

#[test]
fn test_parse_completion_response() {
    let protocol = OpenCodeProtocol::new();

    let completion_output = "I'll complete this work\n<complete>Work finished</complete>";
    let response = protocol.parse_response(completion_output).unwrap();
    assert!(response.success);
    assert_eq!(response.message_type, MessageType::Completion);
}

#[test]
fn test_error_wins_over_tool_call() {
    let protocol = OpenCodeProtocol::new();
    let both = "Running: ls\n<error>broken</error>";
    let response = protocol.parse_response(both).unwrap();
    assert_eq!(response.message_type, MessageType::Error);
    assert!(!response.success);
    assert_eq!(response.error, Some(both.to_string()));
}

#[test]
fn test_format_command_rendering() {
    let protocol = OpenCodeProtocol::new();

    let server_cmd = Command {
        command: "list-sessions".to_string(),
        target: CommandTarget::Server,
        args: vec!["-F".to_string(), "#{session_id}".to_string()],
    };
    assert_eq!(protocol.format_command(&server_cmd), "list-sessions -F #{session_id}");

    let session_cmd = Command {
        command: "kill-session".to_string(),
        target: CommandTarget::Session(SessionId("$3".to_string())),
        args: vec![],
    };
    assert_eq!(protocol.format_command(&session_cmd), "kill-session -t $3 ");
}

#[test]
fn test_format_agent_command() {
    let protocol = OpenCodeProtocol::new();
    let cmd = protocol.format_agent_command("do the thing", &PaneId("%1".to_string()));
    assert_eq!(cmd.command, "send-keys");
    assert_eq!(cmd.args, vec!["do the thing".to_string(), "Enter".to_string()]);
    assert!(matches!(cmd.target, CommandTarget::Pane(p) if p.0 == "%1"));
}

#[test]
fn test_format_display_lines() {
    let protocol = OpenCodeProtocol::new();
    assert_eq!(protocol.format_file_read_command("/tmp/a"), "Reading file: /tmp/a");
    assert_eq!(
        protocol.format_edit_command("/tmp/a", "old text", "new text"),
        "Editing file: /tmp/a\nReplace: old text\nWith: new text"
    );
    assert_eq!(
        protocol.format_write_command("/tmp/a", "12345"),
        "Writing file: /tmp/a (5 bytes)"
    );
}

#[test]
fn test_running_args_trimmed() {
    let protocol = OpenCodeProtocol::new();
    let response = protocol.parse_response("Running: read one two").unwrap();
    let call = &response.tool_calls[0];
    assert_eq!(call.tool_name, "read");
    assert_eq!(call.argument("raw_args"), Some("one two".to_string()));
}
