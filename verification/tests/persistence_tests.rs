use librarian::persistence::{AppConfig, RepositoryConfig};

#[test]
fn test_app_config_default() {
    let config = AppConfig::default();
    assert_eq!(config.repositories.len(), 0);
    assert_eq!(config.theme, "light");
    assert!(config.auto_start_servers);
}

#[test]
fn test_repository_operations() {
    let mut config = AppConfig::default();

    let repo = RepositoryConfig::new(
        "test-repo".to_string(),
        "Test Repository".to_string(),
        "/path/to/repo".to_string(),
    );

    config.add_repository(repo.clone());
    assert_eq!(config.repositories.len(), 1);

    let retrieved = config.get_repository("test-repo");
    assert!(retrieved.is_some());
    assert_eq!(retrieved.unwrap().name, "Test Repository");

    let updated = config.update_repository("test-repo", |mut r| {
        r.name = "Updated Repository".to_string();
        r
    });
    assert!(updated);
    assert_eq!(
        config.get_repository("test-repo").unwrap().name,
        "Updated Repository"
    );

    let removed = config.remove_repository("test-repo");
    assert!(removed);
    assert_eq!(config.repositories.len(), 0);
}

#[test]
fn test_repository_filtering() {
    let mut config = AppConfig::default();

    let repo1 = RepositoryConfig::new(
        "repo1".to_string(),
        "Repository 1".to_string(),
        "/path/to/repo1".to_string(),
    )
    .with_mcp_server(9500, "running".to_string());

    let mut repo2 = RepositoryConfig::new(
        "repo2".to_string(),
        "Repository 2".to_string(),
        "/path/to/repo2".to_string(),
    );
    repo2.is_active = false;

    config.add_repository(repo1);
    config.add_repository(repo2);

    let active_repos = config.get_active_repositories();
    assert_eq!(active_repos.len(), 1);
    assert_eq!(active_repos[0].id, "repo1");

    let running_servers = config.get_running_servers();
    assert_eq!(running_servers.len(), 1);
    assert_eq!(running_servers[0].id, "repo1");
}

#[test]
fn test_add_repository_replaces_same_id() {
    let mut config = AppConfig::default();
    config.add_repository(RepositoryConfig::new(
        "r".to_string(),
        "First".to_string(),
        "/a".to_string(),
    ));
    config.add_repository(RepositoryConfig::new(
        "r".to_string(),
        "Second".to_string(),
        "/b".to_string(),
    ));
    assert_eq!(config.repositories.len(), 1);
    assert_eq!(config.get_repository("r").unwrap().name, "Second");
}

#[test]
fn test_remove_missing_repository() {
    let mut config = AppConfig::default();
    assert!(!config.remove_repository("absent"));
    assert!(!config.update_repository("absent", |r| r));
    assert!(config.get_repository("absent").is_none());
}

#[test]
fn test_with_mcp_server_sets_status() {
    let repo = RepositoryConfig::new(
        "r".to_string(),
        "Repo".to_string(),
        "/p".to_string(),
    )
    .with_mcp_server(9512, "stopped".to_string());
    let server = repo.mcp_server.unwrap();
    assert_eq!(server.port, 9512);
    assert_eq!(server.status, "stopped");
    assert!(repo.is_active);
}
