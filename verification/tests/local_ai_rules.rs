use openmgmt::agent::{
    agent_system_prompt, build_tool_manifest_text, local_ai_tool, local_ai_tool_registry,
    parse_agent_response, AgentDecision,
};
use openmgmt::json::{Json, JsonMember};
use openmgmt::local_ai::{
    chat_keep_alive, chat_model, chat_prompt_messages, is_private_ipv4, ollama_base_url,
    ollama_endpoint, parse_ipv4, parse_ollama_chat_response, parse_ollama_tags,
    parse_slash_command, prompt_messages, slash_help, tool_decision, validate_local_ai_base_url,
    workflow_error, SlashCommand, ToolDecision, DEFAULT_OLLAMA_BASE_URL,
    DEFAULT_OLLAMA_KEEP_ALIVE, DEFAULT_OLLAMA_MODEL,
};
use openmgmt::models::LocalAiAccessMode;

/// The document a parsed JSON value holds, in the library's own form.
fn to_json(v: &serde_json::Value) -> Json {
    match v {
        serde_json::Value::Null => Json::Null,
        serde_json::Value::Bool(b) => Json::Bool(*b),
        serde_json::Value::Number(n) => Json::Number { integer: n.as_i64(), text: n.to_string() },
        serde_json::Value::String(s) => Json::Str(s.clone()),
        serde_json::Value::Array(items) => Json::Array(items.iter().map(to_json).collect()),
        serde_json::Value::Object(map) => Json::Object(
            map.iter().map(|(k, v)| JsonMember { key: k.clone(), value: to_json(v) }).collect(),
        ),
    }
}

fn json(text: &str) -> Json {
    to_json(&serde_json::from_str::<serde_json::Value>(text).unwrap())
}


#[test]
fn invalid_base_url_rejected() {
    assert!(validate_local_ai_base_url("https://api.openai.com", false).is_err());
    assert!(validate_local_ai_base_url("http://example.com:11434", false).is_err());
    assert!(validate_local_ai_base_url(DEFAULT_OLLAMA_BASE_URL, false).is_ok());
    assert!(validate_local_ai_base_url("http://192.168.1.2:11434", false).is_err());
    assert!(validate_local_ai_base_url("http://192.168.1.2:11434", true).is_ok());
}

#[test]
fn model_list_parser_handles_sample_response() {
    let models = parse_ollama_tags(&json(
        r#"{"models":[{"name":"qwen3:1.7b","modified_at":"2026-01-02T03:04:05Z","size":123,"digest":"abc","details":{"family":"qwen3"}}]}"#,
    ));
    assert_eq!(models.len(), 1);
    assert_eq!(models[0].name, "qwen3:1.7b");
    assert_eq!(models[0].family.as_deref(), Some("qwen3"));
    assert_eq!(models[0].size, Some(123));
}

#[test]
fn chat_response_parser_handles_sample_response() {
    let response = parse_ollama_chat_response(&json(
        r#"{"model":"qwen3:1.7b","message":{"role":"assistant","content":"Ready."},"total_duration":5,"eval_count":2}"#,
    ))
    .unwrap();
    assert_eq!(response.model, "qwen3:1.7b");
    assert_eq!(response.content, "Ready.");
    assert_eq!(response.eval_count, Some(2));
}

#[test]
fn prompt_building_includes_p1_instruction() {
    let messages = prompt_messages("Plan.".into());
    assert!(messages[0].content.contains("P1 is highest priority"));
}

#[test]
fn slash_parser_handles_supported_commands() {
    assert!(matches!(parse_slash_command("/help").unwrap(), Some(SlashCommand::Help)));
    assert!(matches!(parse_slash_command("/board").unwrap(), Some(SlashCommand::Board)));
    assert_eq!(
        parse_slash_command("/tasks blocked").unwrap(),
        Some(SlashCommand::Tasks(Some("blocked".into())))
    );
    assert_eq!(
        parse_slash_command("/use llama3.2:3b").unwrap(),
        Some(SlashCommand::UseModel("llama3.2:3b".into()))
    );
    assert_eq!(
        parse_slash_command("/create task Draft brief").unwrap(),
        Some(SlashCommand::CreateTask("Draft brief".into()))
    );
    assert_eq!(
        parse_slash_command("/complete task task-1").unwrap(),
        Some(SlashCommand::CompleteTask("task-1".into()))
    );
    assert_eq!(
        parse_slash_command("/start task task-1").unwrap(),
        Some(SlashCommand::StartTask("task-1".into()))
    );
    assert!(matches!(parse_slash_command("/models").unwrap(), Some(SlashCommand::Models)));
}

#[test]
fn slash_parser_passes_chat_and_refuses_unknown_commands() {
    assert_eq!(parse_slash_command("what should I do next?").unwrap(), None);
    assert!(parse_slash_command("/frobnicate").is_err());
    assert!(parse_slash_command("/use").is_err());
    assert!(parse_slash_command("/create task").is_err());
    assert!(slash_help().contains("/help"));
}

#[test]
fn tool_registry_exposes_only_safe_typed_tools() {
    let tools = local_ai_tool_registry();
    assert!(tools.iter().any(|tool| tool.name == "create_task" && tool.write));
    assert!(!tools.iter().any(|tool| {
        tool.name.contains("delete")
            || tool.name.contains("shell")
            || tool.name.contains("sql")
            || tool.name.contains("exec")
            || tool.name.contains("file")
    }));
    for name in ["archive_organization", "archive_project", "reset_scoring_settings"] {
        assert!(
            tools.iter().any(|tool| tool.name == name && tool.write && tool.destructive),
            "{name} should be a destructive write tool"
        );
    }
}

#[test]
fn single_tool_lookup_trims_the_name() {
    let tool = local_ai_tool("  create_task ").unwrap();
    assert_eq!(tool.name, "create_task");
    assert!(tool.write);
    assert!(local_ai_tool("run_shell").is_none());
}

#[test]
fn gate_enforces_access_modes() {
    assert_eq!(tool_decision(LocalAiAccessMode::ReadOnly, false), ToolDecision::Execute);
    assert_eq!(tool_decision(LocalAiAccessMode::FullAccess, false), ToolDecision::Execute);
    assert_eq!(tool_decision(LocalAiAccessMode::ReadOnly, true), ToolDecision::Blocked);
    assert_eq!(tool_decision(LocalAiAccessMode::AskBeforeWrite, true), ToolDecision::Propose);
    assert_eq!(tool_decision(LocalAiAccessMode::FullAccess, true), ToolDecision::Execute);
}

#[test]
fn parses_final_tool_fenced_and_loose_json() {
    let final_decision = parse_agent_response(r#"{"type":"final","message":"hi there"}"#);
    assert_eq!(final_decision, Some(AgentDecision::Final { message: "hi there".into() }));

    let tools = parse_agent_response(
        r#"{"type":"tool_calls","message":"ok","tool_calls":[{"tool_name":"create_project","arguments":{"name":"localtest","organization_selector":"any"}}]}"#,
    )
    .unwrap();
    match tools {
        AgentDecision::ToolCalls { message, calls } => {
            assert_eq!(message.as_deref(), Some("ok"));
            assert_eq!(calls.len(), 1);
            assert_eq!(calls[0].tool_name, "create_project");
            let name = match &calls[0].arguments {
                Json::Object(members) => members.iter().find(|m| m.key == "name").map(|m| &m.value),
                _ => None,
            };
            assert_eq!(name, Some(&Json::Str("localtest".into())));
        }
        other => panic!("expected tool calls, got {other:?}"),
    }

    let fenced = parse_agent_response(
        "Sure, here you go:\n```json\n{\"type\":\"final\",\"message\":\"done\"}\n```\nThanks!",
    );
    assert_eq!(fenced, Some(AgentDecision::Final { message: "done".into() }));

    assert_eq!(parse_agent_response("I will create that for you."), None);

    assert_eq!(
        parse_agent_response(r#"{"type":"tool_calls","tool_calls":[{"arguments":{}}]}"#),
        None
    );
}

#[test]
fn agent_prompt_lists_the_tools_and_the_mode() {
    let manifest = build_tool_manifest_text();
    assert!(manifest.contains("create_task"));
    let prompt = agent_system_prompt(LocalAiAccessMode::ReadOnly, &manifest);
    assert!(prompt.contains(&manifest));
    assert_ne!(
        agent_system_prompt(LocalAiAccessMode::FullAccess, &manifest),
        prompt
    );
}

#[test]
fn chat_messages_put_the_system_prompt_first() {
    let messages = chat_prompt_messages("Board".into(), "Hi".into());
    assert_eq!(messages.len(), 2);
    assert_eq!(messages[0].role, "system");
    assert_eq!(messages[1].role, "user");
    assert_eq!(messages[1].content, "Board\n\nUser:\nHi");
}

#[test]
fn dotted_quads_parse_strictly() {
    assert_eq!(parse_ipv4("192.168.1.2"), Some((192, 168, 1, 2)));
    assert_eq!(parse_ipv4("256.1.1.1"), None);
    assert_eq!(parse_ipv4("01.1.1.1"), None);
    assert_eq!(parse_ipv4("1.1.1"), None);
    assert!(is_private_ipv4("10.0.0.7"));
    assert!(is_private_ipv4("172.16.0.1"));
    assert!(!is_private_ipv4("172.32.0.1"));
    assert!(!is_private_ipv4("8.8.8.8"));
}

#[test]
fn ollama_client_urls_models_and_keep_alive() {
    assert_eq!(ollama_base_url("http://127.0.0.1:11434//", false).unwrap(), "http://127.0.0.1:11434");
    assert!(ollama_base_url("https://api.openai.com", false).is_err());
    assert_eq!(
        ollama_endpoint("http://127.0.0.1:11434", "/api/tags"),
        "http://127.0.0.1:11434/api/tags"
    );
    assert_eq!(chat_model(Some("a".into()), Some("b".into())), "a");
    assert_eq!(chat_model(None, Some("b".into())), "b");
    assert_eq!(chat_model(None, None), DEFAULT_OLLAMA_MODEL);
    assert_eq!(chat_keep_alive(Some("10m")), "10m");
    assert_eq!(chat_keep_alive(None), DEFAULT_OLLAMA_KEEP_ALIVE);
}

#[test]
fn workflow_error_carries_the_message() {
    let response = workflow_error("Ollama unavailable");
    assert!(response.content.is_empty());
    assert!(!response.fallback_used);
    assert_eq!(response.error.as_deref(), Some("Ollama unavailable"));
}

#[test]
fn create_task_title_keeps_words_after_the_keyword() {
    assert_eq!(
        parse_slash_command("/create task task review").unwrap(),
        Some(SlashCommand::CreateTask("task review".into()))
    );
    assert_eq!(
        parse_slash_command("/complete task task 7").unwrap(),
        Some(SlashCommand::CompleteTask("task 7".into()))
    );
}

#[test]
fn every_advertised_command_parses() {
    let help = slash_help();
    let mut lines = help.lines();
    assert_eq!(lines.next(), Some("Available commands:"));
    let mut count = 0;
    for line in lines {
        assert!(matches!(parse_slash_command(line), Ok(Some(_))), "{line}");
        count += 1;
    }
    assert_eq!(count, 14);
}
