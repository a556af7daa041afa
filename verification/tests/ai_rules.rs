use openmgmt::ai::{
    ai_tool_metadata, ai_tool_registry, enforce_ai_tool_permission, is_local_base_url,
    provider_allowed_by_local_only, provider_is_local, AiProvider, AiSettings,
};
use openmgmt::models::{AiProviderKind, AiToolAccess};

fn settings() -> AiSettings {
    AiSettings {
        read_enabled: true,
        write_enabled: false,
        destructive_tools_enabled: false,
        default_provider_id: None,
        default_model_id: None,
        local_only_mode: false,
        created_at: 0,
        updated_at: 0,
    }
}

fn provider(kind: AiProviderKind, base_url: Option<&str>) -> AiProvider {
    AiProvider {
        id: "provider".to_string(),
        name: "Provider".to_string(),
        kind,
        base_url: base_url.map(|u| u.to_string()),
        api_key_ref: None,
        default_model: None,
        enabled: true,
        local_only: false,
        created_at: 0,
        updated_at: 0,
    }
}

#[test]
fn registry_classifies_read_and_write_tools() {
    let registry = ai_tool_registry();
    let query = registry.iter().find(|tool| tool.name == "query_tasks").unwrap();
    let create = registry.iter().find(|tool| tool.name == "create_task").unwrap();

    assert_eq!(query.access, AiToolAccess::Read);
    assert_eq!(create.access, AiToolAccess::Write);
    assert!(!registry.iter().any(|tool| tool.destructive));
}

#[test]
fn write_and_destructive_permissions_are_blocked_by_default() {
    let mut write = ai_tool_metadata("create_task").unwrap();
    let check = enforce_ai_tool_permission(&settings(), &write, true);
    assert!(!check.allowed);

    write.destructive = true;
    let mut permissive = settings();
    permissive.write_enabled = true;
    let check = enforce_ai_tool_permission(&permissive, &write, true);
    assert!(!check.allowed);
}

#[test]
fn local_base_url_requires_exact_local_host() {
    for url in [
        "http://localhost",
        "https://localhost:11434/v1",
        "http://127.0.0.1:1234",
        "https://127.0.0.1/path",
        "http://[::1]:8080/v1",
        "https://0.0.0.0:8000",
    ] {
        assert!(is_local_base_url(url), "{url} should be local");
    }

    for url in [
        "http://localhost.evil.com",
        "http://127.0.0.1.evil.com",
        "ftp://localhost",
        "http://[::1]evil",
        "http://[::1.evil]",
        "not a url",
    ] {
        assert!(!is_local_base_url(url), "{url} should not be local");
    }
}

#[test]
fn read_tools_are_allowed_when_reads_are_enabled() {
    let read = ai_tool_metadata("query_tasks").unwrap();
    let check = enforce_ai_tool_permission(&settings(), &read, false);
    assert!(check.allowed);
    assert!(check.reason.is_none());
    assert_eq!(check.tool.name, "query_tasks");

    let mut closed = settings();
    closed.read_enabled = false;
    let check = enforce_ai_tool_permission(&closed, &read, false);
    assert!(!check.allowed);
    assert!(check.reason.is_some());
}

#[test]
fn write_tools_need_both_settings_and_mcp_writes() {
    let write = ai_tool_metadata("create_task").unwrap();
    let mut enabled = settings();
    enabled.write_enabled = true;
    assert!(enforce_ai_tool_permission(&enabled, &write, true).allowed);
    assert!(!enforce_ai_tool_permission(&enabled, &write, false).allowed);
}

#[test]
fn unknown_tool_has_no_metadata() {
    assert!(ai_tool_metadata("drop_database").is_none());
}

#[test]
fn local_providers_are_recognised_by_kind_or_url() {
    assert!(provider_is_local(&provider(AiProviderKind::Ollama, None)));
    assert!(provider_is_local(&provider(AiProviderKind::LmStudio, None)));
    assert!(!provider_is_local(&provider(AiProviderKind::OpenAi, None)));
    assert!(provider_is_local(&provider(
        AiProviderKind::CustomOpenAiCompatible,
        Some("http://127.0.0.1:8080/v1")
    )));
    assert!(!provider_is_local(&provider(
        AiProviderKind::CustomOpenAiCompatible,
        Some("https://api.example.com/v1")
    )));

    let mut local_only = settings();
    local_only.local_only_mode = true;
    assert!(!provider_allowed_by_local_only(&local_only, &provider(AiProviderKind::OpenAi, None)));
    assert!(provider_allowed_by_local_only(&local_only, &provider(AiProviderKind::Ollama, None)));
    assert!(provider_allowed_by_local_only(&settings(), &provider(AiProviderKind::OpenAi, None)));
}
