use base64::engine::general_purpose::URL_SAFE_NO_PAD;
use base64::Engine;
use sha2::{Digest, Sha256};
use std::collections::HashMap;

use openmgmt::protocol::{
    DeviceRegistrationResponse, ProtocolError, ProtocolErrorCode, SyncHelloResponse, SyncPullResponse,
    SyncPushResponse, PROTOCOL_VERSION,
};
use openmgmt::sync::{RemoteApplyBatchResult, SyncEntityType, SyncEvent, SyncOperation, SyncSettings};
use openmgmt::sync_client::{
    authorize_url, callback_code, callback_response, check_hello, checked_access_token, clear_access_token,
    load_access_token, redirect_uri, token_endpoint, token_form, check_protocol_error, check_pull, check_push,
    check_registration, connection_test_result, filter_accepted_ids, next_checkpoint, omgp_endpoint,
    pkce_pair, push_message, random_state, registration_patch, resolve_bearer_token, sync_target,
    MemoryTokenStore, TokenStore, OAuthConfig, SyncClientConfig, SyncClientError, SyncPhase, SyncRun,
    ACCESS_TOKEN_ACCOUNT,
};

fn test_config() -> OAuthConfig {
    OAuthConfig {
        issuer: "https://auth.example.test".to_string(),
        client_id: "https://client.example.test/meta.json".to_string(),
        redirect_ports: vec![0],
        login_timeout_seconds: 5,
    }
}

fn enabled_settings(server_url: Option<&str>) -> SyncSettings {
    let mut settings = SyncSettings::default();
    settings.enabled = true;
    settings.server_url = server_url.map(|u| u.to_string());
    settings
}

fn event(id: &str) -> SyncEvent {
    SyncEvent {
        event_id: id.into(),
        device_id: "device-1".into(),
        actor_user_id: None,
        target_user_id: None,
        workspace_id: None,
        sequence: 1,
        entity_type: SyncEntityType::Task,
        entity_id: "task-1".into(),
        operation: SyncOperation::Created,
        payload_json: r#"{"entity":{"id":"task-1"}}"#.into(),
        created_at: 0,
        synced_at: None,
    }
}

fn batch(applied: usize) -> RemoteApplyBatchResult {
    RemoteApplyBatchResult {
        applied_count: applied,
        already_applied_count: 0,
        skipped_local_echo_count: 0,
        conflict_count: 0,
        auto_resolved_conflict_count: 0,
        results: Vec::new(),
    }
}

#[test]
fn pkce_challenge_is_sha256_of_verifier() {
    let (verifier, challenge) = pkce_pair();
    assert!((43..=128).contains(&verifier.len()));
    let expected = URL_SAFE_NO_PAD.encode(Sha256::digest(verifier.as_bytes()));
    assert_eq!(challenge, expected);
    assert_eq!(random_state().len(), 22);
    assert_ne!(pkce_pair().0, verifier);
}

#[test]
fn authorize_url_has_required_parameters() {
    let config = test_config();
    let url = authorize_url(&config, "http://127.0.0.1:18441/callback", "CHAL", "STATE").unwrap();
    let parsed = url::Url::parse(&url).unwrap();
    assert_eq!(parsed.host_str(), Some("auth.example.test"));
    assert_eq!(parsed.path(), "/oauth/authorize");
    let params: HashMap<String, String> = parsed.query_pairs().into_owned().collect();
    assert_eq!(params["response_type"], "code");
    assert_eq!(params["client_id"], config.client_id);
    assert_eq!(params["redirect_uri"], "http://127.0.0.1:18441/callback");
    assert_eq!(params["scope"], "identity");
    assert_eq!(params["state"], "STATE");
    assert_eq!(params["code_challenge"], "CHAL");
    assert_eq!(params["code_challenge_method"], "S256");

    let mut trailing = test_config();
    trailing.issuer = "https://auth.example.test//".into();
    assert_eq!(authorize_url(&trailing, "r", "c", "s").unwrap(), authorize_url(&test_config(), "r", "c", "s").unwrap());
    let mut broken = test_config();
    broken.issuer = "not a url".into();
    assert!(matches!(authorize_url(&broken, "r", "c", "s"), Err(SyncClientError::Other(_))));
}

#[test]
fn callback_code_accepts_valid_redirect() {
    let line = "GET /callback?code=abc123&state=xyz HTTP/1.1\r\n";
    assert_eq!(callback_code(line, "xyz").unwrap(), "abc123");
}

#[test]
fn callback_code_rejects_state_mismatch() {
    let line = "GET /callback?code=abc123&state=evil HTTP/1.1\r\n";
    assert!(callback_code(line, "xyz").is_err());
}

#[test]
fn callback_code_surfaces_provider_error() {
    let line = "GET /callback?error=access_denied&state=xyz HTTP/1.1\r\n";
    let err = callback_code(line, "xyz").unwrap_err();
    assert!(err.message().contains("access_denied"));
}

#[test]
fn callback_code_refuses_malformed_requests() {
    let message = |line: &str| callback_code(line, "s").unwrap_err().message();
    assert_eq!(message("GET"), "unexpected sync error: malformed callback request");
    assert_eq!(message("GET /other?code=1&state=s HTTP/1.1"), "unexpected sync error: unexpected callback path");
    assert_eq!(message("GET /callback?state=s HTTP/1.1"), "unexpected sync error: callback carried no authorization code");
    assert_eq!(
        message("GET /callback?error=denied&error_description=no%20thanks HTTP/1.1"),
        "unexpected sync error: authorization failed (denied): no thanks"
    );
    assert_eq!(callback_code("GET /callback?code=a%2Bb&state=s HTTP/1.1", "s").unwrap(), "a+b");
}

#[test]
fn memory_token_store_round_trip() {
    let mut store = MemoryTokenStore::new();
    assert_eq!(store.get("acct").unwrap(), None);
    store.set("acct", "tok-1").unwrap();
    assert_eq!(store.get("acct").unwrap().as_deref(), Some("tok-1"));
    store.set("acct", "tok-2").unwrap();
    store.set("other", "tok-3").unwrap();
    assert_eq!(store.get("acct").unwrap().as_deref(), Some("tok-2"));
    store.delete("acct").unwrap();
    assert_eq!(store.get("acct").unwrap(), None);
    assert_eq!(store.get("other").unwrap().as_deref(), Some("tok-3"));
    store.delete("missing").unwrap();
}

#[test]
fn resolve_bearer_token_prefers_configured() {
    let mut store = MemoryTokenStore::new();
    store.set(ACCESS_TOKEN_ACCOUNT, "keychain-token").unwrap();
    let stored = store.get(ACCESS_TOKEN_ACCOUNT).unwrap();
    assert_eq!(resolve_bearer_token(Some("explicit-token"), stored.clone()).as_deref(), Some("explicit-token"));
    assert_eq!(resolve_bearer_token(None, stored).as_deref(), Some("keychain-token"));
}

#[test]
fn endpoint_trims_trailing_slash() {
    assert_eq!(omgp_endpoint("http://127.0.0.1:8787/", "/omgp/v1/hello"), "http://127.0.0.1:8787/omgp/v1/hello");
}

#[test]
fn disabled_sync_returns_disabled() {
    assert!(matches!(sync_target(&SyncSettings::default()), Err(SyncClientError::Disabled)));
    assert_eq!(SyncClientError::Disabled.message(), "sync is disabled");
}

#[test]
fn enabled_without_url_returns_not_configured() {
    assert!(matches!(sync_target(&enabled_settings(None)), Err(SyncClientError::NotConfigured)));
    assert_eq!(sync_target(&enabled_settings(Some("http://s"))).unwrap(), "http://s");
}

#[test]
fn connection_test_returns_compatible_server_identity() {
    let hello = SyncHelloResponse {
        protocol_version: PROTOCOL_VERSION.into(),
        server_name: "Test Server".into(),
        server_version: Some("0.1.0".into()),
        compatible: true,
        error: None,
    };
    let checked = check_hello(hello).unwrap();
    let result = connection_test_result("http://s".into(), checked);
    assert!(result.ok);
    assert_eq!(result.server_name.as_deref(), Some("Test Server"));
    assert_eq!(result.protocol_version, "omgp/1");
    assert_eq!(result.message.as_deref(), Some("Server protocol is compatible."));
}

#[test]
fn server_answers_are_checked_for_protocol_errors() {
    let error = Some(ProtocolError::new(ProtocolErrorCode::Unauthorized, "bad token", false));
    let failure = check_protocol_error(&error).unwrap_err();
    assert_eq!(failure.message(), "protocol error: Unauthorized: bad token");
    assert!(check_protocol_error(&None).is_ok());

    let incompatible = SyncHelloResponse {
        protocol_version: "omgp/2".into(),
        server_name: "S".into(),
        server_version: None,
        compatible: false,
        error: None,
    };
    assert_eq!(
        check_hello(incompatible).unwrap_err().message(),
        "protocol error: server reported an incompatible protocol version"
    );
    let refused = DeviceRegistrationResponse { accepted: false, account_id: None, user_id: None, device_token: None, error: None };
    assert_eq!(check_registration(refused).unwrap_err().message(), "protocol error: device registration was not accepted");
    let push = SyncPushResponse {
        accepted_event_ids: vec![],
        rejected_events: vec![],
        server_checkpoint: String::new(),
        error: Some(ProtocolError::server_error("later")),
    };
    assert_eq!(check_push(push).unwrap_err().message(), "protocol error: ServerError: later");
    let pull = SyncPullResponse { events: vec![], server_checkpoint: "c".into(), has_more: false, error: None };
    assert!(check_pull(pull).is_ok());
}

#[test]
fn duplicate_accepted_event_ids_are_idempotent() {
    let pushed = vec!["e1".to_string(), "e2".to_string()];
    let accepted = vec!["e1".to_string(), "e1".to_string(), "stranger".to_string(), "e2".to_string()];
    assert_eq!(filter_accepted_ids(&pushed, accepted), vec!["e1".to_string(), "e2".to_string()]);
    assert_eq!(push_message(1, 0), "Accepted 1 local events.");
    assert_eq!(push_message(1, 2), "Accepted 1 local events; rejected 2.");
    assert_eq!(next_checkpoint(String::new()), None);
    assert_eq!(next_checkpoint("c1".into()).as_deref(), Some("c1"));
}

#[test]
fn registration_push_and_empty_pull_complete_sync() {
    let config = SyncClientConfig::default();
    let settings = enabled_settings(Some("http://127.0.0.1:8787"));
    let (mut run, hello) = SyncRun::start(&config, settings, "device-1".into(), "0.1.0");
    assert_eq!(hello.device_id.as_deref(), Some("device-1"));
    assert_eq!(hello.client_name, "OpenMgmt Desktop");

    let registration = run.hello_accepted().unwrap();
    assert_eq!(registration.device_id, "device-1");
    let patch = registration_patch(DeviceRegistrationResponse {
        accepted: true,
        account_id: Some("account-1".into()),
        user_id: Some("user-1".into()),
        device_token: Some("token-1".into()),
        error: None,
    })
    .unwrap();
    assert_eq!(patch.device_token, Some(Some("token-1".to_string())));
    let mut saved = run.settings.clone();
    saved.account_id = Some("account-1".into());
    saved.user_id = Some("user-1".into());
    saved.device_token = Some("token-1".into());
    run.registration_saved(saved);

    let push = run.push_request(None, vec![event("event-1")]);
    assert_eq!(push.events.len(), 1);
    assert_eq!(push.auth.device_token.as_deref(), Some("token-1"));
    let to_mark = run.pushed(SyncPushResponse {
        accepted_event_ids: vec!["event-1".into()],
        rejected_events: vec![],
        server_checkpoint: "checkpoint-1".into(),
        error: None,
    });
    assert_eq!(to_mark, vec!["event-1".to_string()]);

    let pull = run.pull_request();
    assert_eq!(pull.limit, Some(500));
    let events = run.pulled(SyncPullResponse {
        events: vec![],
        server_checkpoint: "checkpoint-1".into(),
        has_more: false,
        error: None,
    });
    assert!(events.is_empty());
    assert_eq!(run.applied(&batch(0)).as_deref(), Some("checkpoint-1"));
    let result = run.finish();

    assert_eq!(result.pushed_event_count, 1);
    assert_eq!(result.accepted_event_count, 1);
    assert_eq!(result.pulled_event_count, 0);
    assert_eq!(result.server_checkpoint.as_deref(), Some("checkpoint-1"));
    let phases: Vec<SyncPhase> = result.phases.iter().map(|p| p.phase).collect();
    assert_eq!(
        phases,
        vec![
            SyncPhase::Settings,
            SyncPhase::Hello,
            SyncPhase::DeviceRegistration,
            SyncPhase::Push,
            SyncPhase::Pull,
            SyncPhase::RemoteApply,
            SyncPhase::StatusUpdate
        ]
    );
    assert_eq!(result.phases[2].message.as_deref(), Some("Device registered."));
    assert_eq!(result.phases[4].message.as_deref(), Some("Pulled 0 server events."));
    assert_eq!(result.phases[5].message.as_deref(), Some("Applied 0; already applied 0; skipped local echoes 0."));
    assert!(result.phases.iter().all(|p| p.ok));
}

#[test]
fn remote_events_apply_and_advance_checkpoint() {
    let mut settings = enabled_settings(Some("http://s"));
    settings.device_token = Some("token-1".into());
    let mut config = SyncClientConfig::default();
    config.max_push_events = 1;
    let (mut run, _) = SyncRun::start(&config, settings, "device-1".into(), "0.1.0");
    assert!(run.hello_accepted().is_none());
    assert_eq!(run.phases[2].message.as_deref(), Some("Existing device registration reused."));
    let push = run.push_request(Some("checkpoint-0".into()), vec![event("a"), event("b")]);
    assert_eq!(push.events.len(), 1);
    assert_eq!(push.base_checkpoint.as_deref(), Some("checkpoint-0"));
    run.pushed(SyncPushResponse { accepted_event_ids: vec![], rejected_events: vec![], server_checkpoint: String::new(), error: None });
    assert_eq!(run.pull_request().after_checkpoint.as_deref(), Some("checkpoint-0"));
    let events = run.pulled(SyncPullResponse {
        events: vec![event("remote-event")],
        server_checkpoint: "checkpoint-1".into(),
        has_more: false,
        error: None,
    });
    assert_eq!(events.len(), 1);
    assert_eq!(run.applied(&batch(1)).as_deref(), Some("checkpoint-1"));
    let result = run.finish();
    assert_eq!(result.applied_event_count, 1);
    assert_eq!(result.pushed_event_count, 1);
    assert_eq!(result.server_checkpoint.as_deref(), Some("checkpoint-1"));
}

#[test]
fn registration_without_a_token_is_a_protocol_error() {
    let refused = registration_patch(DeviceRegistrationResponse {
        accepted: true,
        account_id: None,
        user_id: None,
        device_token: None,
        error: None,
    });
    assert_eq!(
        refused.unwrap_err().message(),
        "protocol error: device registration succeeded without a device token"
    );
}

#[test]
fn token_exchange_pieces() {
    let mut config = test_config();
    config.issuer = "https://auth.example.test/".into();
    assert_eq!(token_endpoint(&config), "https://auth.example.test/oauth/token");
    assert_eq!(redirect_uri(18441), "http://127.0.0.1:18441/callback");
    let form = token_form(&config, "code-1", "http://127.0.0.1:1/callback", "verifier-1");
    assert_eq!(form[0], ("grant_type".to_string(), "authorization_code".to_string()));
    assert_eq!(form[3], ("client_id".to_string(), config.client_id.clone()));
    assert_eq!(form[4], ("code_verifier".to_string(), "verifier-1".to_string()));
    assert_eq!(checked_access_token("mock-access".into()).unwrap(), "mock-access");
    assert_eq!(
        checked_access_token(String::new()).unwrap_err().message(),
        "unexpected sync error: token endpoint returned an empty access token"
    );
}

#[test]
fn callback_page_reports_the_outcome() {
    let ok = callback_response(&Ok("code".to_string()));
    assert!(ok.starts_with("HTTP/1.1 200 OK\r\n"));
    assert!(ok.contains("<h1>Signed in</h1>"));
    let body = ok.split("\r\n\r\n").nth(1).unwrap();
    assert!(ok.contains(&format!("Content-Length: {}\r\n", body.len())));
    let failed = callback_response(&Err(SyncClientError::Other("callback state mismatch; possible cross-site request".into())));
    assert!(failed.starts_with("HTTP/1.1 400 Bad Request\r\n"));
    assert!(failed.contains("unexpected sync error: callback state mismatch"));
}

#[test]
fn access_token_load_and_sign_out() {
    let mut store = MemoryTokenStore::new();
    assert_eq!(load_access_token(&store).unwrap(), None);
    store.set(ACCESS_TOKEN_ACCOUNT, "access").unwrap();
    assert_eq!(load_access_token(&store).unwrap().as_deref(), Some("access"));
    clear_access_token(&mut store).unwrap();
    assert_eq!(load_access_token(&store).unwrap(), None);
}
