use librarian::file_watcher::{FileChangeEvent, FileChangeType, FileWatcherManager};
use librarian::json::JsonValue;

#[test]
fn test_should_ignore_file() {
    assert!(FileWatcherManager::should_ignore_file(".hidden"));
    assert!(FileWatcherManager::should_ignore_file("~backup"));
    assert!(FileWatcherManager::should_ignore_file("file.tmp"));
    assert!(FileWatcherManager::should_ignore_file("file.swp"));
    assert!(FileWatcherManager::should_ignore_file(".DS_Store"));

    assert!(!FileWatcherManager::should_ignore_file("normal_file.md"));
    assert!(!FileWatcherManager::should_ignore_file("agent_index.yml"));
}

#[test]
fn test_should_ignore_file_no_file_name() {
    // Paths that designate no file name are never ignored.
    assert!(!FileWatcherManager::should_ignore_file("."));
    assert!(!FileWatcherManager::should_ignore_file(".."));
    assert!(!FileWatcherManager::should_ignore_file("/a/.."));
    assert!(!FileWatcherManager::should_ignore_file("/"));
    assert!(!FileWatcherManager::should_ignore_file(""));

    // A trailing separator does not hide the file name.
    assert!(FileWatcherManager::should_ignore_file("/a/.hidden/"));
    assert!(!FileWatcherManager::should_ignore_file("/a/docs/"));
}

#[test]
fn test_file_change_event_serialization() {
    let event = FileChangeEvent {
        repository_id: "test-repo".to_string(),
        file_path: "/path/to/file.md".to_string(),
        change_type: FileChangeType::Modified,
        timestamp: "2023-01-01T00:00:00Z".to_string(),
    };

    let json = event.to_json();
    assert_eq!(
        json.get("repository_id"),
        Some(&JsonValue::Str("test-repo".to_string()))
    );
    assert_eq!(
        json.get("change_type"),
        Some(&JsonValue::Str("Modified".to_string()))
    );
    assert_eq!(
        json.get("file_path"),
        Some(&JsonValue::Str("/path/to/file.md".to_string()))
    );
}

#[test]
fn test_process_notify_event() {
    let paths = vec!["/test/.agent_library/test.md".to_string()];
    let result = FileWatcherManager::process_notify_event(
        "test-repo".to_string(),
        Some(FileChangeType::Modified),
        &paths,
    );
    assert!(result.is_some());

    let change_event = result.unwrap();
    assert_eq!(change_event.repository_id, "test-repo");
    assert!(change_event.file_path.contains(".agent_library"));
    assert!(matches!(change_event.change_type, FileChangeType::Modified));
}

#[test]
fn test_process_notify_event_filters_noise() {
    let outside = vec!["/test/elsewhere/test.md".to_string()];
    assert!(FileWatcherManager::process_notify_event(
        "r".to_string(),
        Some(FileChangeType::Created),
        &outside,
    )
    .is_none());

    let swap = vec!["/test/.agent_library/.test.md.swp".to_string()];
    assert!(FileWatcherManager::process_notify_event(
        "r".to_string(),
        Some(FileChangeType::Modified),
        &swap,
    )
    .is_none());

    let empty: Vec<String> = Vec::new();
    assert!(FileWatcherManager::process_notify_event(
        "r".to_string(),
        Some(FileChangeType::Deleted),
        &empty,
    )
    .is_none());

    let ok = vec!["/test/.agent_library/test.md".to_string()];
    assert!(
        FileWatcherManager::process_notify_event("r".to_string(), None, &ok).is_none()
    );
}

#[test]
fn test_watch_table_lifecycle() {
    let mut manager = FileWatcherManager::new();
    assert_eq!(manager.get_watched_repositories().len(), 0);

    assert!(manager
        .watch_repository("repo-a".to_string(), "/tmp/a", true)
        .is_ok());
    assert!(manager
        .watch_repository("repo-b".to_string(), "/tmp/b", true)
        .is_ok());
    assert_eq!(manager.get_watched_repositories().len(), 2);

    // Watching an already-watched id replaces the watch, not duplicates it.
    assert!(manager
        .watch_repository("repo-a".to_string(), "/tmp/a", true)
        .is_ok());
    assert_eq!(manager.get_watched_repositories().len(), 2);

    manager.stop_watching("repo-a");
    let watched = manager.get_watched_repositories();
    assert_eq!(watched, vec!["repo-b".to_string()]);

    manager.stop_all_watching();
    assert_eq!(manager.get_watched_repositories().len(), 0);
}

#[test]
fn test_watch_missing_directory_fails() {
    let mut manager = FileWatcherManager::new();
    let result = manager.watch_repository("repo-a".to_string(), "/tmp/a", false);
    let message = result.unwrap_err();
    assert!(message.contains("Agent library directory not found"));
    assert_eq!(manager.get_watched_repositories().len(), 0);
}
