use swarm_test::opencode::discovery::{OpenCodeDiscovery, OpenCodeStatus, ServerStatus};

#[test]
fn test_default_creation() {
    let discovery = OpenCodeDiscovery::new("http://localhost:4096".to_string());
    assert_eq!(discovery.default_server_url, "http://localhost:4096");
}

#[test]
fn test_server_status_creation() {
    let status = OpenCodeStatus {
        running: true,
        url: Some("http://localhost:4096".to_string()),
        status: ServerStatus::Available,
    };

    assert!(status.running);
    assert_eq!(status.url, Some("http://localhost:4096".to_string()));
    assert_eq!(status.status, ServerStatus::Available);
}

#[test]
fn test_status_variants() {
    assert_eq!(ServerStatus::Available, ServerStatus::Available);
    assert_ne!(ServerStatus::Available, ServerStatus::Unavailable);
    assert_ne!(ServerStatus::Unknown, ServerStatus::Available);
}

#[test]
fn test_health_url_trims_slashes() {
    let discovery = OpenCodeDiscovery::new("http://localhost:4096".to_string());
    assert_eq!(discovery.health_url("http://h:1//"), "http://h:1/health");
    assert_eq!(discovery.health_url("http://h:1"), "http://h:1/health");
}

#[test]
fn test_probe_status_classification() {
    let discovery = OpenCodeDiscovery::new("http://d".to_string());

    let empty = discovery.probe_status("", true, true);
    assert!(!empty.running);
    assert_eq!(empty.url, None);
    assert_eq!(empty.status, ServerStatus::Unknown);

    let unreachable = discovery.probe_status("http://h", false, false);
    assert!(!unreachable.running);
    assert_eq!(unreachable.url, Some("http://h".to_string()));
    assert_eq!(unreachable.status, ServerStatus::Unknown);

    let healthy = discovery.probe_status("http://h", true, true);
    assert!(healthy.running);
    assert_eq!(healthy.status, ServerStatus::Available);

    let sick = discovery.probe_status("http://h", true, false);
    assert!(!sick.running);
    assert_eq!(sick.status, ServerStatus::Unavailable);
}

#[test]
fn test_discovery_candidates_order() {
    let discovery = OpenCodeDiscovery::new("http://configured:9".to_string());

    let with_env = discovery.discovery_candidates(&Some("http://env:8".to_string()));
    assert_eq!(
        with_env,
        vec![
            "http://configured:9".to_string(),
            "http://env:8".to_string(),
            "http://127.0.0.1:4096".to_string(),
            "http://127.0.0.1:4097".to_string(),
            "http://127.0.0.1:4098".to_string(),
            "http://127.0.0.1:4099".to_string(),
        ]
    );

    let empty_env = discovery.discovery_candidates(&Some(String::new()));
    assert_eq!(empty_env.len(), 5);

    let no_env = discovery.discovery_candidates(&None);
    assert_eq!(no_env.len(), 5);
    assert_eq!(no_env[0], "http://configured:9");
}

#[test]
fn test_default_discovery() {
    let discovery = OpenCodeDiscovery::default();
    assert_eq!(discovery.default_server_url, "http://127.0.0.1:4096");
}
