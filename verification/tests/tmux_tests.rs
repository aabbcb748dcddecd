use swarm_test::error::TmuxError;
use swarm_test::tmux::cli::{classify_output, command_for, output_text, TmuxCommand};
use swarm_test::tmux::{pane, session, window};
use swarm_test::types::{Command, CommandTarget, PaneId, ResponseData, SessionId, WindowId};

fn argv(cmd: &Command) -> Vec<String> {
    command_for(cmd).build_args()
}

#[test]
fn test_new_session_argv() {
    let cmd = session::new_session("work");
    assert_eq!(cmd.command, "new-session");
    assert!(matches!(cmd.target, CommandTarget::Server));
    assert_eq!(argv(&cmd), vec!["new-session", "-s", "work", "-d"]);
}

#[test]
fn test_listing_argv() {
    let cmd = session::list_sessions();
    assert_eq!(
        argv(&cmd),
        vec![
            "list-sessions",
            "-F",
            "#{session_id}:#{session_name}:#{session_attached}"
        ]
    );

    let wcmd = window::list_windows(&SessionId("$1".to_string()));
    assert_eq!(
        argv(&wcmd),
        vec![
            "list-windows",
            "-t",
            "$1",
            "-F",
            "#{window_id}:#{window_name}:#{window_active}"
        ]
    );

    let pcmd = pane::list_panes(&WindowId("@2".to_string()));
    assert_eq!(
        argv(&pcmd),
        vec![
            "list-panes",
            "-t@2",
            "-F",
            "#{pane_id}:#{pane_current_path}:#{pane_pid}:#{pane_active}"
        ]
    );
}

#[test]
fn test_classify_success() {
    let empty = classify_output(true, String::new(), String::new()).unwrap();
    assert!(empty.success);
    assert!(matches!(empty.data, ResponseData::Empty));
    assert!(empty.error.is_none());

    let with_output = classify_output(true, "hello\n".to_string(), String::new()).unwrap();
    assert_eq!(output_text(&with_output.data), "hello\n");
}

#[test]
fn test_classify_failures() {
    let not_found =
        classify_output(false, String::new(), "session not found".to_string()).unwrap_err();
    assert!(matches!(not_found, TmuxError::NotFound(m) if m == "session not found"));

    let no_server =
        classify_output(false, String::new(), "no server running on /tmp".to_string()).unwrap_err();
    assert!(matches!(no_server, TmuxError::NotConnected));

    let generic = classify_output(false, String::new(), "something else".to_string()).unwrap_err();
    assert!(matches!(generic, TmuxError::Command(m) if m == "something else"));

    // stderr empty: stdout carries the message
    let via_stdout = classify_output(false, "no such window".to_string(), String::new())
        .unwrap_err();
    assert!(matches!(via_stdout, TmuxError::NotFound(m) if m == "no such window"));

    // the absent-entity classification is checked before the
    // unreachable-server one
    let both = classify_output(
        false,
        String::new(),
        "no such session, no server running".to_string(),
    )
    .unwrap_err();
    assert!(matches!(both, TmuxError::NotFound(_)));
}

#[test]
fn test_parse_sessions_output() {
    let sessions = session::parse_sessions_output("$0:main:1\n$1:dev:0\nshort\n");
    assert_eq!(sessions.len(), 2);
    assert_eq!(sessions[0].id.0, "$0");
    assert_eq!(sessions[0].name, "main");
    assert!(sessions[0].attached);
    assert!(sessions[0].windows.is_empty());
    assert_eq!(sessions[1].id.0, "$1");
    assert!(!sessions[1].attached);
}

#[test]
fn test_parse_windows_output() {
    let sid = SessionId("$0".to_string());
    let windows = window::parse_windows_output(&sid, "@1:editor:1\n@2:logs:0");
    assert_eq!(windows.len(), 2);
    assert_eq!(windows[0].id.0, "@1");
    assert_eq!(windows[0].session_id.0, "$0");
    assert_eq!(windows[0].name, "editor");
    assert!(windows[0].active);
    assert!(!windows[1].active);
}

#[test]
fn test_parse_panes_output() {
    let wid = WindowId("$0@1".to_string());
    let panes = pane::parse_panes_output(&wid, "%1:/home/user:123:1\n%2::bad_pid:0");
    assert_eq!(panes.len(), 2);
    assert_eq!(panes[0].id.0, "%1");
    assert_eq!(panes[0].session_id.0, "$0");
    assert_eq!(panes[0].window_id.0, "$0@1");
    assert_eq!(panes[0].current_path, Some("/home/user".to_string()));
    assert_eq!(panes[0].pid, Some(123));
    assert!(panes[0].active);
    assert_eq!(panes[1].current_path, None);
    assert_eq!(panes[1].pid, None);
    assert!(!panes[1].active);
}

#[test]
fn test_get_session_lookup() {
    let sessions = session::parse_sessions_output("$0:main:1\n$1:dev:0");
    let found = session::get_session(sessions, &SessionId("$1".to_string())).unwrap();
    assert_eq!(found.name, "dev");

    let sessions = session::parse_sessions_output("$0:main:1");
    let missing = session::get_session(sessions, &SessionId("$9".to_string())).unwrap_err();
    assert!(matches!(missing, TmuxError::NotFound(m) if m == "Session '$9' not found"));
}

#[test]
fn test_find_created_session() {
    let sessions = session::parse_sessions_output("$0:main:1\n$1:fresh:0");
    let created = session::find_created_session(sessions, "fresh").unwrap();
    assert_eq!(created.id.0, "$1");

    let sessions = session::parse_sessions_output("$0:main:1");
    let err = session::find_created_session(sessions, "ghost").unwrap_err();
    assert!(matches!(err, TmuxError::NotFound(m) if m == "Session 'ghost' not found after creation"));
}

#[test]
fn test_send_keys_enter_is_two_sends() {
    let pid = PaneId("%4".to_string());
    let cmds = pane::send_keys_enter(&pid, "echo hi");
    assert_eq!(cmds.len(), 2);
    assert_eq!(argv(&cmds[0]), vec!["send-keys", "-t%4", "echo hi"]);
    assert_eq!(argv(&cmds[1]), vec!["send-keys", "-t%4", "Enter"]);
}

#[test]
fn test_capture_and_resize() {
    let pid = PaneId("%4".to_string());
    assert_eq!(argv(&pane::capture_pane_output(&pid)), vec!["capture-pane", "-t%4", "-p"]);
    assert_eq!(
        argv(&pane::capture_pane_start(&pid, 50)),
        vec!["capture-pane", "-t%4", "-p", "-S", "-50"]
    );

    let cmds = pane::resize_pane(&pid, Some(80), Some(24));
    assert_eq!(cmds.len(), 2);
    assert_eq!(argv(&cmds[0]), vec!["resize-pane", "-t%4", "-x", "80"]);
    assert_eq!(argv(&cmds[1]), vec!["resize-pane", "-t%4", "-y", "24"]);

    assert_eq!(pane::resize_pane(&pid, None, None).len(), 0);
}

#[test]
fn test_id_prefix_extraction() {
    assert_eq!(window::extract_session_id(&WindowId("$3@7".to_string())).0, "$3");
    assert_eq!(window::extract_session_id(&WindowId("plain".to_string())).0, "plain");
    assert_eq!(pane::extract_window_id(&PaneId("@7%2".to_string())).0, "@7");
}

#[test]
fn test_builder_with_server() {
    let args = TmuxCommand::new()
        .server("dev".to_string())
        .command("ls".to_string())
        .session("$0".to_string())
        .arg("-x".to_string())
        .build_args();
    assert_eq!(args, vec!["-L", "dev", "ls", "-t", "$0", "-x"]);
}

#[test]
fn test_session_and_window_verbs() {
    let sid = SessionId("$0".to_string());
    let wid = WindowId("@1".to_string());
    assert_eq!(argv(&session::kill_session(&sid)), vec!["kill-session", "-t", "$0"]);
    assert_eq!(argv(&session::attach_session(&sid)), vec!["attach-session", "-t", "$0"]);
    assert_eq!(argv(&session::detach_session(&sid)), vec!["detach-client", "-t", "$0"]);
    assert_eq!(
        argv(&session::rename_session(&sid, "fresh")),
        vec!["rename-session", "-t", "$0", "fresh"]
    );
    assert_eq!(
        argv(&window::new_window(&sid, "logs")),
        vec!["new-window", "-t", "$0", "-n", "logs", "-d"]
    );
    assert_eq!(argv(&window::kill_window(&wid)), vec!["kill-window", "-t@1"]);
    assert_eq!(argv(&window::select_window(&wid)), vec!["select-window", "-t@1"]);
    assert_eq!(argv(&window::last_window(&sid)), vec!["last-window", "-t", "$0"]);
    assert_eq!(argv(&window::next_window(&sid)), vec!["next-window", "-t", "$0"]);
    assert_eq!(argv(&window::previous_window(&sid)), vec!["previous-window", "-t", "$0"]);
    assert_eq!(
        argv(&pane::new_pane(&wid)),
        vec!["split-window", "-t@1", "-d", "-v"]
    );
    assert_eq!(
        argv(&pane::split_pane_horizontal(&wid)),
        vec!["split-window", "-t@1", "-d", "-h"]
    );
}
