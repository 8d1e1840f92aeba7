use librarian::json::JsonValue;
use librarian::registry::{RegistryError, ServerRegistry};
use librarian::types::{AgentIndex, AgentLibrary, Prompt};

fn test_library() -> AgentLibrary {
    AgentLibrary {
        index: AgentIndex { mcp_endpoints: vec![] },
        base_path: "/test/.agent_library".to_string(),
        prompts: vec![Prompt {
            id: "test_prompt".to_string(),
            title: "Test Prompt".to_string(),
            description: "Test Description".to_string(),
            content: "Test prompt content".to_string(),
            file_path: "/test/.agent_library/test_prompt.md".to_string(),
        }],
    }
}

#[test]
fn test_start_on_explicit_port() {
    let mut registry = ServerRegistry::new();
    let port = registry
        .start("repo-a".to_string(), Some(9500), test_library())
        .unwrap();
    assert_eq!(port, 9500);
}

#[test]
fn test_start_same_port_fails() {
    let mut registry = ServerRegistry::new();
    registry
        .start("repo-a".to_string(), Some(9500), test_library())
        .unwrap();
    let second = registry.start("repo-b".to_string(), Some(9500), test_library());
    assert!(matches!(second, Err(RegistryError::PortInUse(9500))));
}

#[test]
fn test_start_same_id_rejected() {
    let mut registry = ServerRegistry::new();
    registry
        .start("repo-a".to_string(), Some(9500), test_library())
        .unwrap();
    let second = registry.start("repo-a".to_string(), Some(9501), test_library());
    assert!(matches!(second, Err(RegistryError::AlreadyRunning(_))));
}

#[test]
fn test_start_rejects_out_of_range_port() {
    let mut registry = ServerRegistry::new();
    let result = registry.start("repo-a".to_string(), Some(9600), test_library());
    assert!(matches!(result, Err(RegistryError::PortOutOfRange(9600))));
    let result = registry.start("repo-a".to_string(), Some(80), test_library());
    assert!(matches!(result, Err(RegistryError::PortOutOfRange(80))));
}

#[test]
fn test_start_picks_first_free_port() {
    let mut registry = ServerRegistry::new();
    assert_eq!(
        registry.start("a".to_string(), None, test_library()).unwrap(),
        9500
    );
    assert_eq!(
        registry.start("b".to_string(), None, test_library()).unwrap(),
        9501
    );
    registry.stop("a").unwrap();
    assert_eq!(
        registry.start("c".to_string(), None, test_library()).unwrap(),
        9500
    );
}

#[test]
fn test_ports_exhausted() {
    let mut registry = ServerRegistry::new();
    for p in 9500..=9599u16 {
        registry
            .start(format!("repo-{p}"), Some(p), test_library())
            .unwrap();
    }
    let result = registry.start("one-more".to_string(), None, test_library());
    assert!(matches!(result, Err(RegistryError::PortsExhausted)));
}

#[test]
fn test_stop_unknown_id_fails() {
    let mut registry = ServerRegistry::new();
    let result = registry.stop("absent");
    assert!(matches!(result, Err(RegistryError::NotFound(_))));
}

#[test]
fn test_status_reports_running_and_stopped() {
    let mut registry = ServerRegistry::new();
    registry
        .start("repo-a".to_string(), Some(9502), test_library())
        .unwrap();

    let status = registry.get_mcp_server_status("repo-a");
    assert_eq!(
        status.get("status"),
        Some(&JsonValue::Str("running".to_string()))
    );
    assert_eq!(status.get("port"), Some(&JsonValue::Int(9502)));

    registry.stop("repo-a").unwrap();
    let status = registry.get_mcp_server_status("repo-a");
    assert_eq!(
        status.get("status"),
        Some(&JsonValue::Str("stopped".to_string()))
    );
    assert_eq!(status.get("port"), None);
}

#[test]
fn test_reload_updates_running_server() {
    let mut registry = ServerRegistry::new();
    registry
        .start("repo-a".to_string(), Some(9500), test_library())
        .unwrap();

    let outcome = registry.reload("repo-a", test_library());
    assert_eq!(outcome.prompt_count, 1);
    assert_eq!(outcome.endpoint_count, 0);
    assert!(outcome.server_updated);

    let outcome = registry.reload("repo-b", test_library());
    assert_eq!(outcome.prompt_count, 1);
    assert!(!outcome.server_updated);
}

#[test]
fn test_load_libraries_requires_running_server() {
    let mut registry = ServerRegistry::new();
    let result = registry.load_libraries("absent", vec![test_library()]);
    assert!(matches!(result, Err(RegistryError::NotFound(_))));

    registry
        .start("repo-a".to_string(), Some(9500), test_library())
        .unwrap();
    assert!(registry
        .load_libraries("repo-a", vec![test_library(), test_library()])
        .is_ok());
}
