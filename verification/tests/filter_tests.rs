use swarm_test::messaging::filter::MessageFilter;
use swarm_test::messaging::parser::OutputParser;
use swarm_test::opencode::protocol::{AgentResponse, MessageType};

fn responses() -> Vec<AgentResponse> {
    vec![
        OutputParser::parse_agent_output("plain note").unwrap(),
        OutputParser::parse_agent_output("Running: read filePath=/tmp/x.txt").unwrap(),
        OutputParser::parse_agent_output("<error>disk full</error>").unwrap(),
        OutputParser::parse_agent_output("[1700000000] timed line").unwrap(),
    ]
}

#[test]
fn test_filter_by_type_and_success() {
    let ms = responses();

    let errors = MessageFilter::filter_by_type(&ms, MessageType::Error);
    assert_eq!(errors.len(), 1);
    assert!(!errors[0].success);

    let successes = MessageFilter::filter_by_success(&ms, true);
    assert_eq!(successes.len(), 3);
}

#[test]
fn test_filter_by_tool_and_file() {
    let ms = responses();

    let with_read = MessageFilter::filter_by_tool_name(&ms, "read");
    assert_eq!(with_read.len(), 1);
    assert_eq!(with_read[0].tool_calls[0].tool_name, "read");

    assert!(MessageFilter::filter_by_tool_name(&ms, "write").is_empty());

    let touching = MessageFilter::filter_by_file_operation(&ms, "/tmp/x.txt");
    assert_eq!(touching.len(), 1);
}

#[test]
fn test_filter_by_content_and_errors() {
    let ms = responses();

    let noted = MessageFilter::filter_by_content(&ms, "note");
    assert_eq!(noted.len(), 1);

    let failed = MessageFilter::filter_by_error(&ms);
    assert_eq!(failed.len(), 1);
    assert_eq!(failed[0].message_type, MessageType::Error);

    let with_calls = MessageFilter::filter_by_has_tool_calls(&ms);
    assert_eq!(with_calls.len(), 1);
}

#[test]
fn test_time_range_filter() {
    let ms = responses();
    let hits = MessageFilter::filter_by_time_range(&ms, 1690000000, 1710000000);
    assert_eq!(hits.len(), 1);
    assert!(hits[0].content.contains("timed line"));

    assert!(MessageFilter::filter_by_time_range(&ms, 0, 10).is_empty());
    assert_eq!(
        MessageFilter::extract_timestamp("[1700000000] timed line"),
        Some(1700000000)
    );
}

#[test]
fn test_find_and_extract() {
    let ms = responses();

    let first_error = MessageFilter::find_first_error(&ms).unwrap();
    assert_eq!(first_error.message_type, MessageType::Error);

    let last = MessageFilter::find_last_message(&ms).unwrap();
    assert!(last.content.contains("timed line"));
    assert!(MessageFilter::find_last_message(&vec![]).is_none());

    let errors = MessageFilter::extract_errors_only(&ms);
    assert_eq!(errors.len(), 1);
    assert!(errors[0].contains("disk full"));

    let contents = MessageFilter::extract_content_only(&ms);
    assert_eq!(contents.len(), 4);
    assert_eq!(contents[0], "plain note");
}

#[test]
fn test_limit_and_paginate() {
    let ms = responses();

    assert_eq!(MessageFilter::limit_messages(&ms, 2).len(), 2);
    assert_eq!(MessageFilter::limit_messages(&ms, 9).len(), 4);

    let page0 = MessageFilter::paginate_messages(&ms, 0, 3);
    assert_eq!(page0.len(), 3);
    let page1 = MessageFilter::paginate_messages(&ms, 1, 3);
    assert_eq!(page1.len(), 1);
    assert!(MessageFilter::paginate_messages(&ms, 5, 3).is_empty());
}

#[test]
fn test_count_by_type() {
    let ms = responses();
    let counts = MessageFilter::count_by_type(&ms);
    assert_eq!(counts[0], (MessageType::Message, 2));
    assert_eq!(counts[1], (MessageType::ToolCall, 1));
    assert_eq!(counts[2], (MessageType::Error, 1));
    assert_eq!(counts[3], (MessageType::Completion, 0));
}

#[test]
fn test_length_and_emptiness_filters() {
    let ms = vec![
        OutputParser::parse_agent_output("  ").unwrap(),
        OutputParser::parse_agent_output("one\ntwo\nthree").unwrap(),
    ];

    let nonempty = MessageFilter::filter_empty_content(&ms);
    assert_eq!(nonempty.len(), 1);

    let long = MessageFilter::filter_by_length(&ms, 5);
    assert_eq!(long.len(), 1);

    let multi = MessageFilter::filter_multiline_content(&ms, 3);
    assert_eq!(multi.len(), 1);
    assert!(MessageFilter::filter_multiline_content(&ms, 4).is_empty());
}

#[test]
fn test_extract_tool_arguments() {
    let ms = vec![
        OutputParser::parse_agent_output("Running: read filePath=/tmp/x.txt").unwrap(),
        OutputParser::parse_agent_output("plain").unwrap(),
        OutputParser::parse_agent_output("Running: write out=/tmp/y").unwrap(),
    ];

    let read_args = MessageFilter::extract_tool_arguments(&ms, "read");
    assert_eq!(read_args.len(), 1);
    assert!(read_args[0]
        .iter()
        .any(|(k, v)| k == "raw_args" && v == "filePath=/tmp/x.txt"));

    assert!(MessageFilter::extract_tool_arguments(&ms, "absent").is_empty());
}

#[test]
fn test_unique_tool_names_and_counts() {
    let ms = vec![
        OutputParser::parse_agent_output("Running: read a=1\nRunning: write b=2").unwrap(),
        OutputParser::parse_agent_output("Running: read c=3").unwrap(),
    ];

    let names = MessageFilter::unique_tool_names(&ms);
    assert_eq!(names, vec!["read".to_string(), "write".to_string()]);

    let counts = MessageFilter::count_by_tool(&ms);
    assert_eq!(counts, vec![("read".to_string(), 2), ("write".to_string(), 1)]);
}

#[test]
fn test_deduplicate_messages() {
    let ms = vec![
        OutputParser::parse_agent_output("aaaa").unwrap(),
        OutputParser::parse_agent_output("bbbb").unwrap(),
        OutputParser::parse_agent_output("cc").unwrap(),
    ];

    // same kind, success and content length: the later repetitions drop
    let unique = MessageFilter::deduplicate_messages(&ms);
    assert_eq!(unique.len(), 2);
    assert_eq!(unique[0].content, "aaaa");
    assert_eq!(unique[1].content, "cc");
}

#[test]
fn test_group_by_type() {
    let ms = responses();
    let groups = MessageFilter::group_by_type(&ms);
    assert_eq!(groups.len(), 4);
    assert_eq!(groups[0].0, MessageType::Message);
    assert_eq!(groups[0].1.len(), 2);
    assert_eq!(groups[1].0, MessageType::ToolCall);
    assert_eq!(groups[1].1.len(), 1);
    assert_eq!(groups[2].0, MessageType::Error);
    assert_eq!(groups[2].1.len(), 1);
    assert_eq!(groups[3].0, MessageType::Completion);
    assert!(groups[3].1.is_empty());
}

#[test]
fn test_sort_by_timestamp() {
    let ms = vec![
        OutputParser::parse_agent_output("[1700000300] third").unwrap(),
        OutputParser::parse_agent_output("[1700000100] first").unwrap(),
        OutputParser::parse_agent_output("no timestamp").unwrap(),
        OutputParser::parse_agent_output("[1700000200] second").unwrap(),
    ];

    let ascending = MessageFilter::sort_by_timestamp(&ms, true);
    assert!(ascending[0].content.contains("no timestamp"));
    assert!(ascending[1].content.contains("first"));
    assert!(ascending[2].content.contains("second"));
    assert!(ascending[3].content.contains("third"));

    let descending = MessageFilter::sort_by_timestamp(&ms, false);
    assert!(descending[0].content.contains("third"));
    assert!(descending[3].content.contains("no timestamp"));
}

#[test]
fn test_sort_by_timestamp_is_stable() {
    let ms = vec![
        OutputParser::parse_agent_output("[1700000100] tied one").unwrap(),
        OutputParser::parse_agent_output("[1700000100] tied two").unwrap(),
    ];
    let sorted = MessageFilter::sort_by_timestamp(&ms, true);
    assert!(sorted[0].content.contains("tied one"));
    assert!(sorted[1].content.contains("tied two"));
}

#[test]
fn test_search_by_pattern() {
    let ms = responses();

    let hits = MessageFilter::search_by_pattern(&ms, "^absent$").unwrap();
    assert_eq!(hits.len(), 0);
    let hits = MessageFilter::search_by_pattern(&ms, "disk f.ll").unwrap();
    assert_eq!(hits.len(), 1);

    assert!(MessageFilter::search_by_pattern(&ms, "[unclosed").is_err());
}
