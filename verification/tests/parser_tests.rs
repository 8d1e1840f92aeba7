use librarian::parser::{AgentLibraryParser, CheckOutcome, LibraryStore, ScanEntry};
use librarian::types::AgentLibrary;

const TEST_INDEX_YAML: &str = r#"
name: "Test Library"
description: "Test Agent Library"
version: "1.0.0"
mcp_endpoints:
  - id: "test_prompt"
    label: "Test Prompt"
    description: "A test prompt for unit testing"
    prompt_file: "test_prompt.md"
"#;

const TEST_PROMPT_CONTENT: &str = "# Test Prompt\n\nThis is a test prompt for unit testing.";

fn test_files() -> Vec<(String, String)> {
    vec![("test_prompt.md".to_string(), TEST_PROMPT_CONTENT.to_string())]
}

fn load_test_library(store: &mut LibraryStore, repo: &str, mtime: u64) -> AgentLibrary {
    store
        .load_parsed(repo, mtime, Some(TEST_INDEX_YAML), &test_files())
        .unwrap()
}

#[test]
fn test_parse_valid_agent_library() {
    let index = AgentLibraryParser::parse_index_text(TEST_INDEX_YAML).unwrap();
    assert_eq!(index.mcp_endpoints.len(), 1);

    let contents = vec![Some(TEST_PROMPT_CONTENT.to_string())];
    let library = AgentLibraryParser::assemble_library(
        "/tmp/repo/.agent_library".to_string(),
        index,
        contents,
    );
    assert_eq!(library.index.mcp_endpoints.len(), 1);
    assert_eq!(library.prompts.len(), 1);
    assert_eq!(library.prompts[0].id, "test_prompt");
    assert_eq!(library.prompts[0].title, "Test Prompt");
    assert!(library.prompts[0].content.contains("Test Prompt"));
}

#[test]
fn test_parse_missing_agent_library() {
    let store = LibraryStore::new();
    let outcome = store.check("/tmp/nowhere", false, 0);
    match outcome {
        CheckOutcome::Missing(e) => {
            assert!(e.message().contains(".agent_library directory not found"));
        }
        _ => panic!("expected a missing-directory error"),
    }
}

#[test]
fn test_parse_missing_index_file() {
    let mut store = LibraryStore::new();
    let result = store.load_parsed("/tmp/nowhere", 0, None, &Vec::new());
    assert!(result.is_err());
    assert!(result.unwrap_err().message().contains("agent_index.yml not found"));
}

#[test]
fn test_find_repositories() {
    let root = "/tmp/scan_root";
    let mk = |path: &str, name: &str, is_dir: bool, depth: usize| ScanEntry {
        path: path.to_string(),
        name: name.to_string(),
        is_dir,
        depth,
    };
    let entries = vec![
        mk(root, "scan_root", true, 0),
        mk("/tmp/scan_root/repo1", "repo1", true, 1),
        mk("/tmp/scan_root/repo1/.agent_library", ".agent_library", true, 2),
        mk(
            "/tmp/scan_root/repo1/.agent_library/agent_index.yml",
            "agent_index.yml",
            false,
            3,
        ),
        mk("/tmp/scan_root/repo2", "repo2", true, 1),
        mk("/tmp/scan_root/repo2/.agent_library", ".agent_library", true, 2),
        mk("/tmp/scan_root/nested", "nested", true, 1),
        mk("/tmp/scan_root/nested/repo3", "repo3", true, 2),
        mk(
            "/tmp/scan_root/nested/repo3/.agent_library",
            ".agent_library",
            true,
            3,
        ),
        mk("/tmp/scan_root/not_a_repo", "not_a_repo", true, 1),
    ];
    let repositories = AgentLibraryParser::select_repositories(&entries);
    assert_eq!(repositories.len(), 3);
    assert!(repositories.contains(&"/tmp/scan_root/repo1".to_string()));
    assert!(repositories.contains(&"/tmp/scan_root/repo2".to_string()));
    assert!(repositories.contains(&"/tmp/scan_root/nested/repo3".to_string()));
}

#[test]
fn test_cache_functionality() {
    let mut store = LibraryStore::new();
    let library1 = load_test_library(&mut store, "/tmp/repo", 100);

    let outcome = store.check("/tmp/repo", true, 100);
    let library2 = match outcome {
        CheckOutcome::Hit(l) => l,
        _ => panic!("expected a cache hit"),
    };
    assert_eq!(
        library1.index.mcp_endpoints.len(),
        library2.index.mcp_endpoints.len()
    );
    assert_eq!(library1.prompts.len(), library2.prompts.len());
    assert_eq!(library1.prompts[0].content, library2.prompts[0].content);
}

#[test]
fn test_cache_miss_on_newer_directory() {
    let mut store = LibraryStore::new();
    let _ = load_test_library(&mut store, "/tmp/repo", 100);
    let outcome = store.check("/tmp/repo", true, 101);
    assert!(matches!(outcome, CheckOutcome::MissNeedsParse));
}

#[test]
fn test_missing_prompt_file_skipped_on_reload() {
    let mut store = LibraryStore::new();
    let library = load_test_library(&mut store, "/tmp/repo", 100);
    assert_eq!(library.prompts.len(), 1);

    // The prompt file disappears; a reload at a later mtime parses afresh.
    let reloaded = store
        .load_parsed("/tmp/repo", 200, Some(TEST_INDEX_YAML), &Vec::new())
        .unwrap();
    assert_eq!(reloaded.index.mcp_endpoints.len(), 1);
    assert_eq!(reloaded.prompts.len(), 0);
}

#[test]
fn test_parse_rejects_bad_manifest() {
    assert!(AgentLibraryParser::parse_index_text("not: a manifest").is_err());
    assert!(AgentLibraryParser::parse_index_text("mcp_endpoints: 7").is_err());
    assert!(AgentLibraryParser::parse_index_text(
        "mcp_endpoints:\n  - id: \"x\"\n    label: \"y\"\n"
    )
    .is_err());
    assert!(AgentLibraryParser::parse_index_text("mcp_endpoints: [")
        .is_err());
}

#[test]
fn test_parse_optional_fields() {
    let yaml = "mcp_endpoints:\n  - id: \"a\"\n    label: \"A\"\n    description: \"first\"\n    prompt_file: \"a.md\"\n    trigger: \"on_save\"\n    category: \"tools\"\n  - id: \"b\"\n    label: \"B\"\n    description: \"second\"\n    prompt_file: \"b.md\"\n    trigger: null\n";
    let index = AgentLibraryParser::parse_index_text(yaml).unwrap();
    assert_eq!(index.mcp_endpoints.len(), 2);
    assert_eq!(index.mcp_endpoints[0].trigger.as_deref(), Some("on_save"));
    assert_eq!(index.mcp_endpoints[0].category.as_deref(), Some("tools"));
    assert!(index.mcp_endpoints[1].trigger.is_none());
    assert!(index.mcp_endpoints[1].category.is_none());
}

#[test]
fn test_duplicate_endpoint_ids_rejected() {
    let yaml = "mcp_endpoints:\n  - id: \"a\"\n    label: \"A\"\n    description: \"first\"\n    prompt_file: \"a.md\"\n  - id: \"a\"\n    label: \"A again\"\n    description: \"second\"\n    prompt_file: \"b.md\"\n";
    let result = librarian::parser::AgentLibraryParser::parse_index_text(yaml);
    assert!(result.is_err());
    assert!(result.unwrap_err().message().contains("duplicate endpoint id"));
}

#[test]
fn test_deep_marker_not_selected() {
    let entries = vec![ScanEntry {
        path: "/tmp/r/a/b/c/.agent_library".to_string(),
        name: ".agent_library".to_string(),
        is_dir: true,
        depth: 4,
    }];
    let repositories = AgentLibraryParser::select_repositories(&entries);
    assert_eq!(repositories.len(), 0);
}
