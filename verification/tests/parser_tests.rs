use swarm_test::messaging::parser::OutputParser;
use swarm_test::opencode::protocol::MessageType;

#[test]
fn test_tool_call_line() {
    let response = OutputParser::parse_agent_output("Running: read filePath=/tmp/x.txt").unwrap();
    assert!(response.success);
    assert_eq!(response.message_type, MessageType::ToolCall);
    assert_eq!(response.tool_calls.len(), 1);
    assert_eq!(response.tool_calls[0].tool_name, "read");
    assert_eq!(
        response.tool_calls[0].argument("raw_args"),
        Some("filePath=/tmp/x.txt".to_string())
    );
    assert_eq!(
        response.tool_calls[0].argument("command"),
        Some("read filePath=/tmp/x.txt".to_string())
    );
}

#[test]
fn test_error_block() {
    let response = OutputParser::parse_agent_output("<error>disk full</error>").unwrap();
    assert!(!response.success);
    assert_eq!(response.message_type, MessageType::Error);
    let error = response.error.unwrap();
    assert!(error.contains("disk full"));
    assert_eq!(response.content, "disk full");
    assert!(response.tool_calls.is_empty());
}

#[test]
fn test_error_takes_precedence_over_tool_call() {
    let both = "Running: read filePath=/tmp/x.txt\n<error>disk full</error>";
    let response = OutputParser::parse_agent_output(both).unwrap();
    assert_eq!(response.message_type, MessageType::Error);
    assert!(!response.success);
}

#[test]
fn test_completion_and_plain_message() {
    let done = OutputParser::parse_agent_output("<complete>all set</complete>").unwrap();
    assert_eq!(done.message_type, MessageType::Completion);
    assert_eq!(done.content, "all set");

    let plain = OutputParser::parse_agent_output("just words").unwrap();
    assert_eq!(plain.message_type, MessageType::Message);
    assert_eq!(plain.content, "just words");
    assert!(plain.success);
}

#[test]
fn test_xml_tool_call() {
    let line = "<tool_call>write path=\"/tmp/a\" mode=\"fast\"</tool_call>";
    let response = OutputParser::parse_agent_output(line).unwrap();
    assert_eq!(response.message_type, MessageType::ToolCall);
    assert_eq!(response.tool_calls.len(), 1);
    let call = &response.tool_calls[0];
    assert_eq!(call.tool_name, "write");
    assert_eq!(call.argument("path"), Some("/tmp/a".to_string()));
    assert_eq!(call.argument("mode"), Some("fast".to_string()));
    assert_eq!(call.argument("absent"), None);
}

#[test]
fn test_parse_multiple_outputs() {
    let buffer = "hello there\nRunning: ls dir=/tmp\n<error>boom</error>";
    let responses = OutputParser::parse_multiple_outputs(buffer);
    assert_eq!(responses.len(), 3);
    assert_eq!(responses[0].message_type, MessageType::Message);
    assert_eq!(responses[1].message_type, MessageType::ToolCall);
    assert_eq!(responses[2].message_type, MessageType::Error);
}

#[test]
fn test_extract_errors() {
    let output = "fine line\nError: one\nsomething error: two\nok";
    let errors = OutputParser::extract_errors(output);
    assert_eq!(errors.len(), 2);
}

#[test]
fn test_extract_code_blocks() {
    let output = "intro\n```rust\nfn main() {}\n```\nafter";
    let blocks = OutputParser::extract_code_blocks(output);
    assert_eq!(blocks.len(), 1);
    assert_eq!(blocks[0].0, "rust");
    assert_eq!(blocks[0].1, "fn main() {}");
}

#[test]
fn test_extract_json_blocks() {
    let output = "before\n{\n  \"a\": 1\n}\nafter";
    let blocks = OutputParser::extract_json_blocks(output);
    assert_eq!(blocks.len(), 1);
    assert!(blocks[0].contains("\"a\": 1"));
}

#[test]
fn test_extract_command_line() {
    let parsed = OutputParser::extract_command_line("read filePath=/tmp/x.txt extra").unwrap();
    assert_eq!(parsed.0, "read");
    assert_eq!(parsed.1, vec!["filePath=/tmp/x.txt".to_string(), "extra".to_string()]);

    assert!(OutputParser::extract_command_line("   ").is_none());
}

#[test]
fn test_parse_timestamp_patterns() {
    // bracketed epoch seconds
    assert_eq!(OutputParser::parse_timestamp("log [1700000000] line"), Some(1700000000));
    // bracketed epoch milliseconds, reported in seconds
    assert_eq!(OutputParser::parse_timestamp("[1700000000123]"), Some(1700000000));
    // T-prefixed epoch seconds
    assert_eq!(OutputParser::parse_timestamp("at T1699999999 mark"), Some(1699999999));
    // bracketed civil date-time, converted to UTC epoch seconds
    assert_eq!(OutputParser::parse_timestamp("[2024-01-02 03:04:05] boot"), Some(1704164645));
    // no pattern at all
    assert_eq!(OutputParser::parse_timestamp("no numbers here"), None);
    // a date-time that matches the shape but is no valid date
    assert_eq!(OutputParser::parse_timestamp("[2024-99-99 99:99:99]"), None);
}

#[test]
fn test_extract_tool_calls_copies() {
    let response = OutputParser::parse_agent_output("Running: read a=1").unwrap();
    let calls = OutputParser::extract_tool_calls(&response);
    assert_eq!(calls.len(), 1);
    assert_eq!(calls[0].tool_name, "read");
}
