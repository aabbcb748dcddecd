use swarm_test::opencode::protocol::MessageType;
use swarm_test::opencode::sender::{
    default_pane_for, route_after_agent, should_attempt_agent, MessageMode, RouteDecision,
};
use swarm_test::opencode::session::OpenCodeSession;
use swarm_test::types::{PaneId, Session, SessionId};

#[test]
fn test_agent_attempt_policy() {
    assert!(should_attempt_agent(MessageMode::Auto, true));
    assert!(should_attempt_agent(MessageMode::AgentOnly, true));
    assert!(!should_attempt_agent(MessageMode::TerminalOnly, true));
    assert!(!should_attempt_agent(MessageMode::Auto, false));
    assert!(!should_attempt_agent(MessageMode::AgentOnly, false));
}

#[test]
fn test_route_after_agent() {
    // a successful attempt delivers
    assert_eq!(
        route_after_agent(MessageMode::Auto, true, true),
        RouteDecision::DeliveredViaAgent
    );
    // automatic mode falls back on failure or absence
    assert_eq!(
        route_after_agent(MessageMode::Auto, true, false),
        RouteDecision::DeliverViaTerminal
    );
    assert_eq!(
        route_after_agent(MessageMode::Auto, false, false),
        RouteDecision::DeliverViaTerminal
    );
    // the agent-only mode never falls back silently
    assert_eq!(
        route_after_agent(MessageMode::AgentOnly, true, false),
        RouteDecision::AgentRequired
    );
    assert_eq!(
        route_after_agent(MessageMode::AgentOnly, false, false),
        RouteDecision::AgentRequired
    );
    // terminal-only goes straight to injection
    assert_eq!(
        route_after_agent(MessageMode::TerminalOnly, false, false),
        RouteDecision::DeliverViaTerminal
    );
}

#[test]
fn test_default_pane() {
    assert_eq!(default_pane_for("work").0, "work:0.0");
}

fn snapshot() -> Session {
    Session {
        id: SessionId("$0".to_string()),
        name: "main".to_string(),
        windows: vec![],
        attached: true,
    }
}

#[test]
fn test_session_wrapper() {
    let mut wrapped = OpenCodeSession::new(snapshot());
    assert_eq!(wrapped.id().0, "$0");
    assert_eq!(wrapped.name(), "main");
    assert!(wrapped.get_agent_pane().is_none());

    wrapped.set_agent_pane(PaneId("%9".to_string()));
    assert_eq!(wrapped.get_agent_pane().unwrap().0, "%9");

    assert_eq!(wrapped.format_prompt("go"), "go\n");

    let response = wrapped.parse_agent_output("Running: read a=1").unwrap();
    assert_eq!(response.message_type, MessageType::ToolCall);
    assert!(wrapped.has_tool_calls(&response));
    assert!(!wrapped.is_completion(&response));
    assert!(!wrapped.is_error(&response));

    let done = wrapped.parse_agent_output("<complete>ok</complete>").unwrap();
    assert!(wrapped.is_completion(&done));
}
