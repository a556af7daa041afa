use chrono::{TimeZone, Utc};
use openmgmt::protocol::{
    cache_entry_fresh, identity_from_userinfo, is_compatible_protocol_version, token_cache_key,
    userinfo_step, userinfo_url, AccountAuthError, AuthContext, DeviceRegistrationRequest,
    ProtocolError, ProtocolErrorCode, UserInfoStep, DEFAULT_SCOPE, PROTOCOL_VERSION,
};
use openmgmt::server::{
    device_authenticated, hello_response, make_checkpoint, page_cut, parse_checkpoint, pull_limit,
    push_verdict, register_device_record, registered_device, registration_response, PushVerdict,
};

#[test]
fn protocol_version_compatibility_is_exact() {
    assert!(is_compatible_protocol_version("omgp/1"));
    assert!(!is_compatible_protocol_version("omgp/2"));
    assert!(!is_compatible_protocol_version("OMGP/1"));
}

#[test]
fn protocol_error_constructors_set_code_and_retryability() {
    let invalid = ProtocolError::invalid_request("missing events");
    assert_eq!(invalid.code, ProtocolErrorCode::InvalidRequest);
    assert!(!invalid.retryable);

    let incompatible = ProtocolError::incompatible_version("omgp/2");
    assert_eq!(incompatible.code, ProtocolErrorCode::IncompatibleVersion);
    assert!(!incompatible.retryable);

    let server = ProtocolError::server_error("temporary failure");
    assert_eq!(server.code, ProtocolErrorCode::ServerError);
    assert!(server.retryable);
}

#[test]
fn cache_key_is_a_stable_hex_digest() {
    let first = token_cache_key("token-abc");
    let second = token_cache_key("token-abc");
    let other = token_cache_key("token-abd");
    assert_eq!(first, second);
    assert_ne!(first, other);
    assert_eq!(first.len(), 64);
    assert!(first.chars().all(|c| c.is_ascii_hexdigit()));
    // SHA-256 of the empty text.
    assert_eq!(token_cache_key(""), "e3b0c44298fc1c149afbf4c8996fb92427ae41e4649b934ca495991b7852b855");
}

#[test]
fn userinfo_url_trims_trailing_slash() {
    assert_eq!(userinfo_url("https://auth.example.com/"), "https://auth.example.com/oauth/userinfo");
    assert_eq!(userinfo_url("https://auth.example.com"), "https://auth.example.com/oauth/userinfo");
}

#[test]
fn userinfo_reports_scope_when_present() {
    let identity = identity_from_userinfo("7".into(), "a@b.c".into(), true, Some("openmgmt:tasks:read".into())).unwrap();
    assert_eq!(identity.scope, "openmgmt:tasks:read");
    let multi = identity_from_userinfo(
        "7".into(),
        "a@b.c".into(),
        true,
        Some("openmgmt:tasks:read courier:messages:read".into()),
    )
    .unwrap();
    assert_eq!(multi.scope, "openmgmt:tasks:read courier:messages:read");
}

#[test]
fn userinfo_defaults_scope_to_identity_when_absent() {
    let legacy = identity_from_userinfo("7".into(), "a@b.c".into(), true, None).unwrap();
    assert_eq!(legacy.scope, "identity");
    assert_eq!(legacy.scope, DEFAULT_SCOPE);
}

#[test]
fn unverified_email_is_refused() {
    assert_eq!(
        identity_from_userinfo("7".into(), "a@b.c".into(), false, None),
        Err(AccountAuthError::EmailUnverified)
    );
    assert_eq!(AccountAuthError::EmailUnverified.message(), "account email is not verified");
    assert_eq!(AccountAuthError::Issuer("boom".into()).message(), "account issuer error: boom");
}

#[test]
fn userinfo_status_codes_and_cache_freshness() {
    assert_eq!(userinfo_step(200), UserInfoStep::ReadIdentity);
    assert_eq!(userinfo_step(401), UserInfoStep::InvalidToken);
    assert_eq!(userinfo_step(403), UserInfoStep::EmailUnverified);
    assert_eq!(userinfo_step(500), UserInfoStep::UnexpectedStatus);
    assert!(cache_entry_fresh(0));
    assert!(cache_entry_fresh(299));
    assert!(!cache_entry_fresh(300));
}

#[test]
fn checkpoint_roundtrips() {
    let received_at = Utc.with_ymd_and_hms(2026, 6, 13, 12, 0, 0).unwrap().timestamp_nanos_opt().unwrap() + 123_456_789;
    let checkpoint = make_checkpoint(received_at, "event-1");
    let parsed = parse_checkpoint(&checkpoint).unwrap();
    assert_eq!(parsed.0, received_at);
    assert_eq!(parsed.1, "event-1");
    assert!(parse_checkpoint("no separator").is_none());
    assert!(parse_checkpoint("not-a-time|event-1").is_none());
}

#[test]
fn device_registration_creates_and_preserves_token() {
    let request = DeviceRegistrationRequest {
        protocol_version: "omgp/1".into(),
        device_id: "device-1".into(),
        device_name: "Desktop".into(),
        user_hint: None,
    };
    let first = register_device_record(&request, None);
    assert!(!first.device_token.is_empty());
    let second = register_device_record(
        &request,
        Some((first.account_id.clone(), first.user_id.clone(), Some(first.device_token.clone()))),
    );
    assert_eq!(first.device_token, second.device_token);

    let kept = registered_device("device-1", Some((Some("acct".into()), None, None)), "fresh".into());
    assert_eq!(kept.account_id.as_deref(), Some("acct"));
    assert_eq!(kept.device_token, "fresh");
}

#[test]
fn registration_answer_depends_on_the_version() {
    let device = registered_device("device-1", None, "tok".into());
    let accepted = registration_response(PROTOCOL_VERSION, Some(device.clone()));
    assert!(accepted.accepted);
    assert_eq!(accepted.device_token.as_deref(), Some("tok"));
    let refused = registration_response("omgp/9", Some(device));
    assert!(!refused.accepted);
    assert_eq!(refused.error.unwrap().code, ProtocolErrorCode::IncompatibleVersion);
}

#[test]
fn hello_accepts_current_and_rejects_unknown_versions() {
    let ok = hello_response("Server", Some("1.0".into()), "omgp/1");
    assert!(ok.compatible);
    assert!(ok.error.is_none());
    let bad = hello_response("Server", None, "omgp/2");
    assert!(!bad.compatible);
    assert_eq!(bad.error.unwrap().code, ProtocolErrorCode::IncompatibleVersion);
}

#[test]
fn device_authentication_compares_tokens() {
    let auth = AuthContext {
        account_id: None,
        user_id: None,
        device_id: "device-1".into(),
        device_token: Some("tok".into()),
    };
    assert!(device_authenticated(Some(Some("tok".into())), &auth));
    assert!(!device_authenticated(Some(Some("other".into())), &auth));
    assert!(!device_authenticated(None, &auth));
    assert!(!device_authenticated(Some(None), &auth));
}

#[test]
fn push_is_idempotent_and_rejects_sequence_conflicts() {
    assert_eq!(push_verdict("e1", true, Some("e0")), PushVerdict::AlreadyStored);
    assert_eq!(push_verdict("e1", false, None), PushVerdict::Store);
    match push_verdict("e2", false, Some("e1")) {
        PushVerdict::Rejected(rejected) => {
            assert_eq!(rejected.event_id, "e2");
            assert_eq!(rejected.error.code, ProtocolErrorCode::Conflict);
            assert_eq!(rejected.error.message, "device sequence already belongs to event e1");
        }
        other => panic!("expected a rejection, got {other:?}"),
    }
}

#[test]
fn pull_returns_events_after_checkpoint_and_respects_limit() {
    assert_eq!(pull_limit(None), 500);
    assert_eq!(pull_limit(Some(0)), 1);
    assert_eq!(pull_limit(Some(10)), 10);
    assert_eq!(pull_limit(Some(1_000_000)), 2000);
    assert_eq!(page_cut(3, 2), (2, true));
    assert_eq!(page_cut(2, 2), (2, false));
    assert_eq!(page_cut(0, 5), (0, false));
}
