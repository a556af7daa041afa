use openmgmt::ai::{ai_tool_registry, AiSettings};
use openmgmt::api_keys::ApiKeyScope;
use openmgmt::mcp::{
    allowed_hosts_setting, audit_entry, audit_names, auth_denied_record, call_records, call_succeeded,
    offered_tool_names, rate_limited_record, scope_denied_records, server_instructions, bearer_token, check_bind_safety, check_token_scope,
    extract_tool_names, is_jsonrpc_error, mcp_auth_issuer_setting, parse_scopes, rate_check,
    rate_limit_setting, sync_publish_interval, truncate, writes_enabled_setting, Caller, RateWindow,
    DEFAULT_RATE_LIMIT_PER_MINUTE,
};
use openmgmt::protocol::DEFAULT_AUTH_ISSUER;

fn names(items: &[&str]) -> Vec<String> {
    items.iter().map(|s| s.to_string()).collect()
}

#[test]
fn config_defaults_to_auth_and_remote_writes() {
    assert_eq!(mcp_auth_issuer_setting(None).as_deref(), Some(DEFAULT_AUTH_ISSUER));
    assert!(writes_enabled_setting(None, true));
    assert_eq!(rate_limit_setting(None), Ok(DEFAULT_RATE_LIMIT_PER_MINUTE));
    assert!(allowed_hosts_setting(None).is_none());
}

#[test]
fn empty_issuer_disables_auth() {
    assert!(mcp_auth_issuer_setting(Some("")).is_none());
    assert!(mcp_auth_issuer_setting(Some("   ")).is_none());
    assert_eq!(mcp_auth_issuer_setting(Some("https://id.example")).as_deref(), Some("https://id.example"));
}

#[test]
fn explicit_write_env_is_honored() {
    assert!(!writes_enabled_setting(Some("false"), true));
    assert!(writes_enabled_setting(Some("true"), true));
    assert!(writes_enabled_setting(Some("TRUE"), false));
    assert!(!writes_enabled_setting(Some("yes"), true));
}

#[test]
fn numeric_settings_parse_like_str_parse() {
    assert_eq!(rate_limit_setting(Some("60")), Ok(60));
    assert_eq!(rate_limit_setting(Some("+7")), Ok(7));
    assert!(rate_limit_setting(Some("-1")).is_err());
    assert!(rate_limit_setting(Some("4294967296")).is_err());
    assert!(rate_limit_setting(Some(" 60")).is_err());
    assert_eq!(
        rate_limit_setting(Some("x")),
        Err("parse OPENMGMT_MCP_RATE_LIMIT_PER_MINUTE".to_string())
    );
    assert_eq!(sync_publish_interval(None), 15);
    assert_eq!(sync_publish_interval(Some("30")), 30);
    assert_eq!(sync_publish_interval(Some("0")), 15);
    assert_eq!(sync_publish_interval(Some("soon")), 15);
}

#[test]
fn allowed_hosts_are_trimmed_and_blank_lists_vanish() {
    assert_eq!(
        allowed_hosts_setting(Some(" a.example , ,b.example")),
        Some(vec!["a.example".to_string(), "b.example".to_string()])
    );
    assert!(allowed_hosts_setting(Some(" , ")).is_none());
}

#[test]
fn extract_tool_names_handles_calls_lists_and_batches() {
    let body = br#"{"jsonrpc":"2.0","id":1,"method":"tools/call","params":{"name":"list_tasks","arguments":{}}}"#;
    assert_eq!(extract_tool_names(body), vec!["tools/call:list_tasks"]);

    let body = br#"{"jsonrpc":"2.0","id":2,"method":"tools/list","params":{}}"#;
    assert_eq!(extract_tool_names(body), vec!["tools/list"]);

    let body = br#"{"jsonrpc":"2.0","method":"notifications/initialized"}"#;
    assert!(extract_tool_names(body).is_empty());

    let body = br#"[{"jsonrpc":"2.0","id":1,"method":"tools/call","params":{"name":"get_task"}},{"jsonrpc":"2.0","id":2,"method":"ping"}]"#;
    assert_eq!(extract_tool_names(body), vec!["tools/call:get_task", "ping"]);

    assert_eq!(extract_tool_names(b"not json"), vec!["unparseable"]);
}

#[test]
fn audit_entries_name_calls_and_methods() {
    assert_eq!(audit_entry(Some("tools/call"), Some("get_task")).as_deref(), Some("tools/call:get_task"));
    assert_eq!(audit_entry(Some("tools/call"), None), None);
    assert_eq!(audit_entry(Some("ping"), None).as_deref(), Some("ping"));
    assert_eq!(audit_entry(Some("notifications/initialized"), None), None);
    assert_eq!(audit_entry(None, Some("x")), None);
}

#[test]
fn bearer_token_parsing() {
    assert_eq!(bearer_token(Some("Bearer abc123")).as_deref(), Some("abc123"));
    assert_eq!(bearer_token(Some("bearer xyz")).as_deref(), Some("xyz"));
    assert!(bearer_token(Some("Basic abc")).is_none());
    assert!(bearer_token(Some("Bearer a b")).is_none());
    assert!(bearer_token(None).is_none());
}

#[test]
fn rate_limiter_allows_then_denies_then_resets() {
    let second: u64 = 1_000_000_000;
    let window = 50_000_000u64;
    let (ok1, w1) = rate_check(None, second, 2, window);
    assert!(ok1);
    let (ok2, w2) = rate_check(Some(w1), second + 1, 2, window);
    assert!(ok2);
    let (ok3, w3) = rate_check(Some(w2), second + 2, 2, window);
    assert!(!ok3);
    assert_eq!(w3, w2);
    // Another address has its own window.
    let (other, _) = rate_check(None, second + 2, 2, window);
    assert!(other);
    let (ok4, w4) = rate_check(Some(w3), second + 60_000_000, 2, window);
    assert!(ok4);
    assert_eq!(w4, RateWindow { start: second + 60_000_000, count: 1 });
}

#[test]
fn jsonrpc_error_detection() {
    let error = |body: &[u8]| is_jsonrpc_error(body);
    assert!(!error(br#"{"jsonrpc":"2.0","id":1,"result":{"tools":[]}}"#));
    assert!(error(br#"{"jsonrpc":"2.0","id":1,"error":{"code":-32601,"message":"not found"}}"#));
    assert!(error(
        br#"[{"jsonrpc":"2.0","id":1,"result":{}},{"jsonrpc":"2.0","id":2,"error":{"code":-32000,"message":"boom"}}]"#
    ));
    assert!(!error(b"not json"));
    assert!(!error(b""));
}

#[test]
fn bind_safety_requires_loopback_when_auth_disabled() {
    assert!(check_bind_safety(false, true, "127.0.0.1:8788").is_ok());
    let refused = check_bind_safety(false, false, "0.0.0.0:8788").unwrap_err();
    assert!(refused.contains("0.0.0.0:8788"));
    assert!(check_bind_safety(true, false, "0.0.0.0:8788").is_ok());
}

#[test]
fn token_scope_identity_grants_full_access() {
    for scope in ["identity", "", "   "] {
        assert!(check_token_scope(scope, &["tools/call:update_task".into()]).is_ok());
        assert!(check_token_scope(scope, &["tools/call:list_tasks".into()]).is_ok());
    }
}

#[test]
fn token_scope_read_permits_reads_and_non_tool_methods() {
    let scope = "openmgmt:tasks:read";
    for tool in [
        "tools/call:list_tasks",
        "tools/call:query_tasks",
        "tools/call:get_task",
        "tools/call:get_board_state",
        "tools/call:list_timer_sessions",
    ] {
        assert!(check_token_scope(scope, &[tool.into()]).is_ok(), "{tool}");
    }
    for method in ["initialize", "tools/list", "ping"] {
        assert!(check_token_scope(scope, &[method.into()]).is_ok(), "{method}");
    }
}

#[test]
fn token_scope_read_blocks_writes() {
    let scope = "openmgmt:tasks:read";
    for tool in [
        "tools/call:create_task",
        "tools/call:update_task",
        "tools/call:complete_task",
        "tools/call:create_project",
        "tools/call:start_task_timer",
    ] {
        let detail = check_token_scope(scope, &[tool.into()]).unwrap_err();
        assert!(detail.contains("openmgmt:tasks:read"), "{detail}");
        let name = tool.strip_prefix("tools/call:").unwrap();
        assert!(detail.contains(name), "{detail}");
    }
    let detail = check_token_scope(scope, &names(&["tools/call:query_tasks", "tools/call:complete_task"])).unwrap_err();
    assert!(detail.contains("complete_task"), "{detail}");
}

#[test]
fn token_scope_write_permits_everything() {
    for scope in ["openmgmt:tasks:write", "openmgmt:tasks:write openmgmt:tasks:read"] {
        assert!(check_token_scope(scope, &["tools/call:create_task".into()]).is_ok());
        assert!(check_token_scope(scope, &["tools/call:list_tasks".into()]).is_ok());
    }
}

#[test]
fn token_scope_other_services_get_no_access() {
    for scope in [
        "courier:messages:read",
        "courier:messages:write",
        "courier:messages:read courier:messages:write",
    ] {
        let detail = check_token_scope(scope, &["tools/call:list_tasks".into()]).unwrap_err();
        assert!(detail.contains("courier:messages"), "{detail}");
        assert!(check_token_scope(scope, &["tools/call:create_task".into()]).is_err());
    }
    assert!(check_token_scope("nonsense", &["tools/call:list_tasks".into()]).is_err());
}

#[test]
fn token_scope_multi_scope_grants_union() {
    let scope = "openmgmt:tasks:read courier:messages:read";
    assert!(check_token_scope(scope, &["tools/call:list_tasks".into()]).is_ok());
    assert!(check_token_scope(scope, &["tools/call:update_task".into()]).is_err());
}

#[test]
fn token_scope_unknown_tools_fail_closed_downstream() {
    assert!(check_token_scope("openmgmt:tasks:read", &["tools/call:nope".into()]).is_ok());
    assert!(check_token_scope("courier:messages:read", &["tools/call:nope".into()]).is_err());
}

#[test]
fn caller_audit_names() {
    assert_eq!(
        Caller::User { id: "user-123".to_string(), scope: "identity".to_string() }.audit_name(),
        "user-123"
    );
    assert_eq!(Caller::Unauthenticated.audit_name(), "unauthenticated");
    let caller = Caller::User { id: "user-123".to_string(), scope: "openmgmt:tasks:read".to_string() };
    assert_eq!(caller.audit_name(), "user-123");
    assert_eq!(caller.scope(), "openmgmt:tasks:read");
    assert_eq!(Caller::Unauthenticated.scope(), "");
}

#[test]
fn api_key_scope_lists_parse_strictly() {
    assert_eq!(parse_scopes("tasks:read, tasks:write"), Ok(vec![ApiKeyScope::TasksRead, ApiKeyScope::TasksWrite]));
    assert_eq!(
        parse_scopes("admin"),
        Err("unknown scope 'admin'; valid scopes: tasks:read, tasks:write".to_string())
    );
    assert_eq!(
        parse_scopes(" , "),
        Err("at least one scope is required; valid scopes: tasks:read, tasks:write".to_string())
    );
    assert_eq!(truncate("abcdef", 4), "abc…");
    assert_eq!(truncate("abc", 4), "abc");
}

#[test]
fn audit_names_skip_notifications_and_nameless_calls() {
    let entries = vec![
        (Some("tools/call".to_string()), Some("list_tasks".to_string())),
        (Some("notifications/initialized".to_string()), None),
        (Some("tools/call".to_string()), None),
        (None, Some("x".to_string())),
        (Some("ping".to_string()), None),
    ];
    assert_eq!(audit_names(&entries), vec!["tools/call:list_tasks".to_string(), "ping".to_string()]);
    assert!(audit_names(&[]).is_empty());
}

#[test]
fn audit_rows_record_who_called_what_and_how_it_went() {
    let names = vec!["tools/call:list_tasks".to_string(), "ping".to_string()];
    let ok = call_records("user-1", &names, true, "200 OK");
    assert_eq!(ok.len(), 2);
    assert_eq!(ok[0].caller, "user-1");
    assert_eq!(ok[0].transport, "http");
    assert_eq!(ok[1].tool_name, "ping");
    assert!(ok.iter().all(|r| r.success && r.detail.is_none()));
    let failed = call_records("user-1", &names, false, "502 Bad Gateway");
    assert_eq!(failed[0].detail.as_deref(), Some("HTTP 502 Bad Gateway"));
    let denied = scope_denied_records("user-1", "openmgmt:tasks:read", &names, "needs write");
    assert_eq!(denied[1].detail.as_deref(), Some("scope 'openmgmt:tasks:read' denied: needs write"));
    assert!(!denied[1].success);
    let auth = auth_denied_record("missing bearer token");
    assert_eq!((auth.caller.as_str(), auth.tool_name.as_str()), ("unauthenticated", "auth"));
    let limited = rate_limited_record("127.0.0.1");
    assert_eq!(limited.detail.as_deref(), Some("rate limit exceeded for 127.0.0.1"));
    assert!(call_succeeded(true, false, false));
    assert!(!call_succeeded(true, false, true));
    assert!(call_succeeded(true, true, true));
    assert!(!call_succeeded(false, true, false));
}

fn ai_settings(read: bool, write: bool) -> AiSettings {
    AiSettings {
        read_enabled: read,
        write_enabled: write,
        destructive_tools_enabled: false,
        default_provider_id: None,
        default_model_id: None,
        local_only_mode: false,
        created_at: 0,
        updated_at: 0,
    }
}

fn offered(settings: &AiSettings, writes: bool, remote: bool) -> Vec<String> {
    offered_tool_names(&ai_tool_registry(), settings, writes, remote)
}

#[test]
fn write_tools_are_hidden_by_default() {
    let names = offered(&ai_settings(true, true), false, false);
    for name in ["list_tasks", "query_tasks", "triage_backlog"] {
        assert!(names.iter().any(|n| n == name), "{name}");
    }
    for name in ["create_task", "complete_task", "start_task_timer"] {
        assert!(!names.iter().any(|n| n == name), "{name}");
    }
    assert_eq!(server_instructions(false), "OpenMgmt local project management. Write tools are disabled.");
}

#[test]
fn write_tools_can_be_enabled_explicitly() {
    let names = offered(&ai_settings(true, true), true, false);
    for name in ["create_task", "create_project", "start_task_timer", "stop_task_timer"] {
        assert!(names.iter().any(|n| n == name), "{name}");
    }
}

#[test]
fn ai_settings_write_toggle_gates_write_tools() {
    let names = offered(&ai_settings(true, false), true, false);
    assert!(names.iter().any(|n| n == "list_tasks"));
    assert!(!names.iter().any(|n| n == "create_task"));
    assert!(!names.iter().any(|n| n == "start_task_timer"));
}

#[test]
fn ai_settings_read_toggle_hides_read_tools() {
    let names = offered(&ai_settings(false, true), true, false);
    for name in ["list_tasks", "query_tasks", "triage_backlog"] {
        assert!(!names.iter().any(|n| n == name), "{name}");
    }
}

#[test]
fn remote_mode_never_exposes_destructive_tools() {
    let mut permissive = ai_settings(true, true);
    permissive.destructive_tools_enabled = true;
    let local = offered(&permissive, true, false);
    let remote = offered(&permissive, true, true);
    for tool in ai_tool_registry() {
        let expected = !tool.destructive && local.contains(&tool.name);
        assert_eq!(remote.contains(&tool.name), expected, "remote exposure of {}", tool.name);
    }
}

#[test]
fn non_tool_methods_pass_any_scope() {
    for scope in ["courier:messages:read", "nonsense", "openmgmt:tasks:read"] {
        assert!(check_token_scope(scope, &names(&["initialize", "tools/list", "ping"])).is_ok(), "{scope}");
    }
}
