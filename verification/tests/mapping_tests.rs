use swarm_test::opencode::sender::{record_fallback, resolve_session_name};
use swarm_test::session_mapping::SessionMappingStore;
use swarm_test::types::{Session, SessionId};

#[test]
fn test_store_creation() {
    let store = SessionMappingStore::new();
    assert_eq!(store.list().len(), 0);
}

#[test]
fn test_insert_and_lookup() {
    let mut store = SessionMappingStore::new();
    store.insert("session_abc".to_string(), "tmux_session_1".to_string()).unwrap();

    assert_eq!(store.lookup_tmux("session_abc"), Some("tmux_session_1".to_string()));
    assert_eq!(store.lookup_opencode("tmux_session_1"), Some("session_abc".to_string()));
}

#[test]
fn test_remove() {
    let mut store = SessionMappingStore::new();
    store.insert("session_xyz".to_string(), "tmux_session_2".to_string()).unwrap();
    store.remove("session_xyz").unwrap();

    assert_eq!(store.lookup_tmux("session_xyz"), None);
}

#[test]
fn test_list() {
    let mut store = SessionMappingStore::new();
    store.insert("session_1".to_string(), "tmux_1".to_string()).unwrap();
    store.insert("session_2".to_string(), "tmux_2".to_string()).unwrap();

    let mappings = store.list();
    assert_eq!(mappings.len(), 2);
    assert!(mappings.iter().any(|m| m.opencode_session_id == "session_1"));
}

#[test]
fn test_clear() {
    let mut store = SessionMappingStore::new();
    store.insert("session_test".to_string(), "tmux_test".to_string()).unwrap();
    store.clear().unwrap();

    assert_eq!(store.list().len(), 0);
}

#[test]
fn test_insert_overwrites() {
    let mut store = SessionMappingStore::new();
    store.insert("r1".to_string(), "old_name".to_string()).unwrap();
    store.insert("r1".to_string(), "new_name".to_string()).unwrap();

    assert_eq!(store.lookup_tmux("r1"), Some("new_name".to_string()));
    assert_eq!(store.list().len(), 1);
}

fn live_session(name: &str) -> Session {
    Session {
        id: SessionId(format!("${}", name)),
        name: name.to_string(),
        windows: vec![],
        attached: false,
    }
}

#[test]
fn test_fallback_then_cached_lookup() {
    let mut store = SessionMappingStore::new();
    let sessions = vec![live_session("other"), live_session("r1")];

    // no mapping for "r1": resolution falls back to the live search
    let first = resolve_session_name(&store, &sessions, "r1").unwrap();
    assert_eq!(first.name, "r1");
    assert!(!first.from_map);

    record_fallback(&mut store, "r1", &first.name).unwrap();

    // now the map answers, even with no live sessions to search
    let cached = resolve_session_name(&store, &vec![], "r1").unwrap();
    assert_eq!(cached.name, "r1");
    assert!(cached.from_map);
}

#[test]
fn test_resolve_unknown_is_none() {
    let store = SessionMappingStore::new();
    assert!(resolve_session_name(&store, &vec![], "missing").is_none());
}
