use librarian::json::JsonValue;
use librarian::mcp::{
    dispatch, handle_initialize, handle_initialized, handle_prompts_get, handle_prompts_list,
    handle_prompts_list_cached, handle_request, handle_resources_list, handle_resources_read,
    JsonRpcRequest, McpServerState, PROMPTS_LIST_TTL_MS,
};
use librarian::types::{AgentIndex, AgentLibrary, Prompt};

fn create_test_agent_library() -> AgentLibrary {
    let index = AgentIndex { mcp_endpoints: vec![] };
    let prompt = Prompt {
        id: "test_prompt".to_string(),
        title: "Test Prompt".to_string(),
        description: "Test Description".to_string(),
        content: "Test prompt content".to_string(),
        file_path: "/test/prompt.md".to_string(),
    };
    AgentLibrary {
        index,
        base_path: "/test/.agent_library".to_string(),
        prompts: vec![prompt],
    }
}

fn name_params(name: &str) -> Option<JsonValue> {
    Some(JsonValue::Obj(vec![(
        "name".to_string(),
        JsonValue::Str(name.to_string()),
    )]))
}

fn uri_params(uri: &str) -> Option<JsonValue> {
    Some(JsonValue::Obj(vec![(
        "uri".to_string(),
        JsonValue::Str(uri.to_string()),
    )]))
}

fn get_str<'a>(v: &'a JsonValue, key: &str) -> &'a str {
    match v.get(key).unwrap() {
        JsonValue::Str(s) => s.as_str(),
        other => panic!("expected a string under {key}, got {other:?}"),
    }
}

#[test]
fn test_handle_initialize() {
    let response = handle_initialize(Some(JsonValue::Int(1)));

    assert_eq!(response.jsonrpc, "2.0");
    assert_eq!(response.id, Some(JsonValue::Int(1)));
    assert!(response.result.is_some());
    assert!(response.error.is_none());

    let result = response.result.unwrap();
    assert_eq!(get_str(&result, "protocolVersion"), "2025-06-18");
    let capabilities = result.get("capabilities").unwrap();
    assert!(capabilities.get("prompts").unwrap().is_object());
    assert!(capabilities.get("resources").unwrap().is_object());
}

#[test]
fn test_handle_initialized() {
    let response = handle_initialized(Some(JsonValue::Int(1)));

    assert_eq!(response.jsonrpc, "2.0");
    assert_eq!(response.id, Some(JsonValue::Int(1)));
    assert!(response.result.is_some());
    assert!(response.error.is_none());
}

#[test]
fn test_handle_prompts_list() {
    let libraries = vec![create_test_agent_library()];
    let response = handle_prompts_list(&libraries, Some(JsonValue::Int(1)));

    assert_eq!(response.jsonrpc, "2.0");
    assert_eq!(response.id, Some(JsonValue::Int(1)));
    assert!(response.error.is_none());

    let result = response.result.unwrap();
    assert!(result.get("prompts").unwrap().is_array());
    let prompts = match result.get("prompts").unwrap() {
        JsonValue::Arr(items) => items.clone(),
        other => panic!("expected an array, got {other:?}"),
    };
    assert_eq!(prompts.len(), 1);
    assert_eq!(get_str(&prompts[0], "name"), "test_prompt");
    assert_eq!(get_str(&prompts[0], "title"), "Test Prompt");
}

#[test]
fn test_handle_prompts_get_valid() {
    let libraries = vec![create_test_agent_library()];
    let response = handle_prompts_get(&libraries, Some(JsonValue::Int(1)), &name_params("test_prompt"));

    assert_eq!(response.jsonrpc, "2.0");
    assert_eq!(response.id, Some(JsonValue::Int(1)));
    assert!(response.error.is_none());

    let result = response.result.unwrap();
    let messages = match result.get("messages").unwrap() {
        JsonValue::Arr(items) => items.clone(),
        other => panic!("expected an array, got {other:?}"),
    };
    assert_eq!(messages.len(), 1);
    assert_eq!(get_str(&messages[0], "role"), "user");
    let content = messages[0].get("content").unwrap();
    assert_eq!(get_str(content, "text"), "Test prompt content");
}

#[test]
fn test_handle_prompts_get_not_found() {
    let libraries = vec![create_test_agent_library()];
    let response = handle_prompts_get(
        &libraries,
        Some(JsonValue::Int(1)),
        &name_params("nonexistent_prompt"),
    );

    assert_eq!(response.jsonrpc, "2.0");
    assert_eq!(response.id, Some(JsonValue::Int(1)));
    assert!(response.result.is_none());

    let error = response.error.unwrap();
    assert_eq!(error.code, -32602);
    assert!(error.message.contains("not found"));
}

#[test]
fn test_handle_prompts_get_missing_params() {
    let libraries: Vec<AgentLibrary> = Vec::new();
    let response = handle_prompts_get(&libraries, Some(JsonValue::Int(1)), &None);

    assert_eq!(response.jsonrpc, "2.0");
    assert_eq!(response.id, Some(JsonValue::Int(1)));
    assert!(response.result.is_none());

    let error = response.error.unwrap();
    assert_eq!(error.code, -32602);
    assert_eq!(error.message, "Invalid params: name required");
}

#[test]
fn test_handle_resources_list() {
    let libraries = vec![create_test_agent_library()];
    let response = handle_resources_list(&libraries, Some(JsonValue::Int(4)));

    assert!(response.error.is_none());
    let result = response.result.unwrap();
    let resources = match result.get("resources").unwrap() {
        JsonValue::Arr(items) => items.clone(),
        other => panic!("expected an array, got {other:?}"),
    };
    assert_eq!(resources.len(), 1);
    assert_eq!(get_str(&resources[0], "uri"), "agent_library://test_prompt");
    assert_eq!(get_str(&resources[0], "mimeType"), "text/markdown");
}

#[test]
fn test_handle_resources_read() {
    let libraries = vec![create_test_agent_library()];
    let response = handle_resources_read(
        &libraries,
        Some(JsonValue::Int(5)),
        &uri_params("agent_library://test_prompt"),
    );

    assert!(response.error.is_none());
    let result = response.result.unwrap();
    let contents = match result.get("contents").unwrap() {
        JsonValue::Arr(items) => items.clone(),
        other => panic!("expected an array, got {other:?}"),
    };
    assert_eq!(contents.len(), 1);
    assert_eq!(get_str(&contents[0], "uri"), "agent_library://test_prompt");
    assert_eq!(get_str(&contents[0], "text"), "Test prompt content");
}

#[test]
fn test_handle_resources_read_bad_scheme() {
    let libraries = vec![create_test_agent_library()];
    let response = handle_resources_read(
        &libraries,
        Some(JsonValue::Int(5)),
        &uri_params("file://test_prompt"),
    );
    let error = response.error.unwrap();
    assert_eq!(error.code, -32602);
    assert!(error.message.contains("not found"));
}

#[test]
fn test_handle_resources_read_missing_params() {
    let libraries: Vec<AgentLibrary> = Vec::new();
    let response = handle_resources_read(&libraries, None, &None);
    let error = response.error.unwrap();
    assert_eq!(error.code, -32602);
    assert_eq!(error.message, "Invalid params: uri required");
}

#[test]
fn test_mcp_server_error_handling() {
    let libraries: Vec<AgentLibrary> = Vec::new();
    let response = dispatch(&libraries, "invalid/method", Some(JsonValue::Int(1)), &None);

    assert_eq!(response.jsonrpc, "2.0");
    assert!(response.result.is_none());
    let error = response.error.unwrap();
    assert_eq!(error.code, -32601);
    assert_eq!(error.message, "Method not found");
}

#[test]
fn test_unknown_method_on_populated_set() {
    let libraries = vec![create_test_agent_library()];
    let response = dispatch(&libraries, "method-that-does-not-exist", None, &None);
    assert!(response.result.is_none());
    assert_eq!(response.error.unwrap().code, -32601);
}

#[test]
fn test_response_cache() {
    let mut state = McpServerState::new();
    state.agent_libraries.push(create_test_agent_library());

    let response1 = handle_prompts_list_cached(&mut state, Some(JsonValue::Int(1)), 1_000);
    assert!(response1.result.is_some());

    let response2 = handle_prompts_list_cached(&mut state, Some(JsonValue::Int(2)), 2_000);
    assert!(response2.result.is_some());

    assert_eq!(response1.result, response2.result);
}

#[test]
fn test_response_cache_expires() {
    let mut state = McpServerState::new();
    state.agent_libraries.push(create_test_agent_library());

    let response1 = handle_prompts_list_cached(&mut state, None, 1_000);

    // Within the TTL the cached listing hides a library change.
    state.agent_libraries.clear();
    let response2 = handle_prompts_list_cached(&mut state, None, 1_000 + PROMPTS_LIST_TTL_MS - 1);
    assert_eq!(response1.result, response2.result);

    // Once the TTL has passed, the change becomes observable.
    let response3 = handle_prompts_list_cached(&mut state, None, 1_000 + PROMPTS_LIST_TTL_MS);
    assert_ne!(response1.result, response3.result);
    let result = response3.result.unwrap();
    match result.get("prompts").unwrap() {
        JsonValue::Arr(items) => assert_eq!(items.len(), 0),
        other => panic!("expected an array, got {other:?}"),
    }
}

#[test]
fn test_handle_request_routes_methods() {
    let mut state = McpServerState::new();
    state.agent_libraries.push(create_test_agent_library());

    let request = JsonRpcRequest {
        jsonrpc: "2.0".to_string(),
        id: Some(JsonValue::Int(7)),
        method: "prompts/get".to_string(),
        params: name_params("test_prompt"),
    };
    let response = handle_request(&mut state, request, 0);
    assert!(response.result.is_some());

    let listing = JsonRpcRequest {
        jsonrpc: "2.0".to_string(),
        id: Some(JsonValue::Int(8)),
        method: "prompts/list".to_string(),
        params: None,
    };
    let response = handle_request(&mut state, listing, 0);
    assert!(response.result.is_some());
}
