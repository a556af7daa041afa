use openmgmt::api_keys::{
    api_key_hash, api_key_verdict, check_new_api_key, generate_key, scopes_allow_write, scopes_from_names, scopes_from_stored,
    scopes_json, ApiKey, ApiKeyScope, ApiKeyValidation, API_KEY_PREFIX,
};

fn key(id: &str, scopes: Vec<ApiKeyScope>, revoked_at: Option<i64>) -> ApiKey {
    ApiKey {
        id: id.into(),
        name: "agent".into(),
        key_prefix: "omg_live_abcdefg".into(),
        scopes,
        created_at: 0,
        revoked_at,
    }
}

#[test]
fn create_returns_prefixed_secret_and_stores_only_its_hash() {
    let generated = generate_key();
    assert!(generated.plaintext.starts_with(API_KEY_PREFIX));
    assert!(generated.key_prefix.starts_with(API_KEY_PREFIX));
    assert!(generated.plaintext.starts_with(&generated.key_prefix));
    assert!(generated.key_prefix.len() < generated.plaintext.len());
    assert_eq!(generated.hash, api_key_hash(&generated.plaintext));
    assert_ne!(generated.hash, generated.plaintext);
    assert_eq!(generated.plaintext.len(), 52);
}

#[test]
fn generated_keys_do_not_collide() {
    assert_ne!(generate_key().plaintext, generate_key().plaintext);
}

#[test]
fn key_hash_is_hex_sha256() {
    assert_eq!(api_key_hash("abc"), "ba7816bf8f01cfea414140de5dae2223b00361a396177a9cb410ff61f20015ad");
}

#[test]
fn validate_round_trips_scopes() {
    let found = key("key-1", vec![ApiKeyScope::TasksRead, ApiKeyScope::TasksWrite], None);
    match api_key_verdict(Some(found)) {
        ApiKeyValidation::Valid(valid) => {
            assert_eq!(valid.id, "key-1");
            assert_eq!(valid.name, "agent");
            assert_eq!(valid.scopes, vec![ApiKeyScope::TasksRead, ApiKeyScope::TasksWrite]);
        }
        other => panic!("expected Valid, got {other:?}"),
    }
    let names = vec!["tasks:read".to_string(), "bogus".to_string(), "tasks:write".to_string()];
    assert_eq!(scopes_from_names(&names), vec![ApiKeyScope::TasksRead, ApiKeyScope::TasksWrite]);
    assert_eq!(scopes_json(&[ApiKeyScope::TasksRead, ApiKeyScope::TasksWrite]), r#"["tasks:read","tasks:write"]"#);
    assert_eq!(scopes_json(&[]), "[]");
}

#[test]
fn validate_unknown_key() {
    assert!(matches!(api_key_verdict(None), ApiKeyValidation::Unknown));
}

#[test]
fn revoked_key_fails_validation_with_its_id() {
    let revoked = key("key-2", vec![ApiKeyScope::TasksRead], Some(5));
    assert!(revoked.is_revoked());
    match api_key_verdict(Some(revoked)) {
        ApiKeyValidation::Revoked { id } => assert_eq!(id, "key-2"),
        other => panic!("expected Revoked, got {other:?}"),
    }
    assert!(!key("key-3", vec![ApiKeyScope::TasksRead], None).is_revoked());
}

#[test]
fn create_rejects_empty_name_and_empty_scopes() {
    assert!(check_new_api_key("", &[ApiKeyScope::TasksRead]).is_err());
    assert!(check_new_api_key("   ", &[ApiKeyScope::TasksRead]).is_err());
    assert!(check_new_api_key("agent", &[]).is_err());
    assert_eq!(check_new_api_key("  agent ", &[ApiKeyScope::TasksRead]).unwrap(), "agent");
}

#[test]
fn scope_parse_round_trip() {
    assert_eq!(ApiKeyScope::parse("tasks:read"), Some(ApiKeyScope::TasksRead));
    assert_eq!(ApiKeyScope::parse("tasks:write"), Some(ApiKeyScope::TasksWrite));
    assert_eq!(ApiKeyScope::parse("admin"), None);
    assert_eq!(ApiKeyScope::parse(""), None);
    assert!(!scopes_allow_write(&[ApiKeyScope::TasksRead]));
    assert!(scopes_allow_write(&[ApiKeyScope::TasksRead, ApiKeyScope::TasksWrite]));
    assert!(scopes_allow_write(&[ApiKeyScope::TasksWrite]));
    assert!(!scopes_allow_write(&[]));
    assert!(ApiKeyScope::TasksWrite.allows_write());
    assert!(!ApiKeyScope::TasksRead.allows_write());
    for scope in [ApiKeyScope::TasksRead, ApiKeyScope::TasksWrite] {
        assert_eq!(ApiKeyScope::parse(scope.as_str()), Some(scope));
    }
}

#[test]
fn stored_scopes_are_read_from_their_json_list() {
    assert_eq!(
        scopes_from_stored(r#"["tasks:read","admin"," tasks:write "]"#),
        vec![ApiKeyScope::TasksRead, ApiKeyScope::TasksWrite]
    );
    assert_eq!(scopes_from_stored("not json"), Vec::<ApiKeyScope>::new());
    assert_eq!(scopes_from_stored("[1]"), Vec::<ApiKeyScope>::new());
    assert_eq!(scopes_from_stored(&scopes_json(&[ApiKeyScope::TasksWrite])), vec![ApiKeyScope::TasksWrite]);
}
