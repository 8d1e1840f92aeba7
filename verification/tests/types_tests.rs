use librarian::types::{AgentIndex, AgentLibrary, Prompt, MAX_PROMPT_CONTENT_BYTES};

fn library_with_two_prompts() -> AgentLibrary {
    let mk = |id: &str, content: &str| Prompt {
        id: id.to_string(),
        title: format!("Title of {id}"),
        description: "desc".to_string(),
        content: content.to_string(),
        file_path: format!("/repo/.agent_library/{id}.md"),
    };
    AgentLibrary {
        index: AgentIndex { mcp_endpoints: vec![] },
        base_path: "/repo/.agent_library".to_string(),
        prompts: vec![mk("first", "one"), mk("second", "two")],
    }
}

#[test]
fn test_find_prompt_first_match() {
    let library = library_with_two_prompts();
    assert_eq!(library.find_prompt("second").unwrap().content, "two");
    assert!(library.find_prompt("third").is_none());
}

#[test]
fn test_resolve_prompt_save_paths_and_errors() {
    let library = library_with_two_prompts();

    let path = library.resolve_prompt_save("first", 10).unwrap();
    assert_eq!(path, "/repo/.agent_library/first.md");

    let too_big = library.resolve_prompt_save("first", MAX_PROMPT_CONTENT_BYTES + 1);
    assert_eq!(
        too_big.unwrap_err(),
        "Content size exceeds maximum limit (1MB)"
    );

    let missing = library.resolve_prompt_save("third", 10);
    assert_eq!(missing.unwrap_err(), "Prompt with ID 'third' not found");
}

#[test]
fn test_library_clone_preserves_content() {
    let library = library_with_two_prompts();
    let copy = library.clone();
    assert_eq!(copy.prompts.len(), library.prompts.len());
    assert_eq!(copy.prompts[1].content, library.prompts[1].content);
    assert_eq!(copy.base_path, library.base_path);
}
