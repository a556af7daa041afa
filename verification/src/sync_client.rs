//! The sync client's rules: its configuration, the checks and messages of one sync run, the
//! filtering of acknowledged events, the OAuth sign-in pieces (PKCE, authorize URL, callback)
//! and an in-memory token store.
use vstd::prelude::*;
use crate::crypto::{base64url_encode, base64url_text, lemma_base64url_shape, random_bytes, sha256, sha256_digest};
use crate::protocol::{
    AuthContext, DeviceRegistrationRequest, ProtocolError, ProtocolErrorCode, DeviceRegistrationResponse, SyncHelloRequest, SyncHelloResponse,
    SyncPullRequest, SyncPullResponse, SyncPushRequest, SyncPushResponse, DEFAULT_SYNC_EVENT_LIMIT,
    PROTOCOL_VERSION,
};
use crate::sync::{SyncEvent, SyncSettings, SyncSettingsPatch};
use crate::text::{
    find_char, push_str, push_u64_digits, slice, split_whitespace, starts_with, str_eq, to_string,
    trim_end_char, trim_end_matches_char, trim_start_char, trim_start_matches_char, words,
};

verus! {

/// Sync-state key of the last server checkpoint.
pub const SERVER_CHECKPOINT_KEY: &'static str = "sync.server_checkpoint";
/// Keychain account of the account access token.
pub const ACCESS_TOKEN_ACCOUNT: &'static str = "black-candle-access-token";
/// Service name of secure-storage entries.
pub const KEYRING_SERVICE: &'static str = "openmgmt";
/// The client's name in its greeting.
pub const CLIENT_NAME: &'static str = "OpenMgmt Desktop";

/// Native OAuth sign-in configuration.
#[derive(Clone, Debug)]
pub struct OAuthConfig {
    pub issuer: String,
    pub client_id: String,
    pub redirect_ports: Vec<u16>,
    pub login_timeout_seconds: u64,
}

impl Default for OAuthConfig {
    fn default() -> (c: Self)
        ensures
            c.issuer@ == "https://auth.blackcandletech.com"@,
            c.client_id@ == "https://blackcandletech.com/oauth/openmgmt-desktop.json"@,
            c.redirect_ports@ == seq![18441u16, 18442u16, 18443u16, 18444u16, 18445u16],
            c.login_timeout_seconds == 300,
    {
        let mut ports: Vec<u16> = Vec::new();
        ports.push(18441);
        ports.push(18442);
        ports.push(18443);
        ports.push(18444);
        ports.push(18445);
        OAuthConfig {
            issuer: to_string("https://auth.blackcandletech.com"),
            client_id: to_string("https://blackcandletech.com/oauth/openmgmt-desktop.json"),
            redirect_ports: ports,
            login_timeout_seconds: 300,
        }
    }
}

/// The sync client's configuration.
#[derive(Clone, Debug)]
pub struct SyncClientConfig {
    pub timeout_seconds: u64,
    pub max_push_events: usize,
    pub pull_limit: u32,
    pub bearer_token: Option<String>,
    pub oauth: Option<OAuthConfig>,
}

impl Default for SyncClientConfig {
    fn default() -> (c: Self)
        ensures
            c.timeout_seconds == 15,
            c.max_push_events == 500,
            c.pull_limit == DEFAULT_SYNC_EVENT_LIMIT,
            c.bearer_token is None,
            c.oauth is None,
    {
        SyncClientConfig {
            timeout_seconds: 15,
            max_push_events: 500,
            pull_limit: DEFAULT_SYNC_EVENT_LIMIT,
            bearer_token: None,
            oauth: None,
        }
    }
}

/// The sync client.
pub struct OpenMgmtSyncClient {
    pub config: SyncClientConfig,
}

impl OpenMgmtSyncClient {
    /// A client with the given configuration.
    pub fn new(config: SyncClientConfig) -> (c: Self)
        ensures
            c.config == config,
    {
        OpenMgmtSyncClient { config }
    }
}

/// Why a sync run failed.
#[derive(Debug)]
pub enum SyncClientError {
    Disabled,
    NotConfigured,
    Core(crate::error::CoreError),
    Http(String),
    Protocol(String),
    RemoteApplyUnavailable,
    Other(String),
}

impl SyncClientError {
    /// The text the error displays.
    pub open spec fn text(self) -> Seq<char> {
        match self {
            SyncClientError::Disabled => "sync is disabled"@,
            SyncClientError::NotConfigured => "sync server URL is not configured"@,
            SyncClientError::Core(e) => "local database error: "@ + e.text(),
            SyncClientError::Http(m) => "http error: "@ + m@,
            SyncClientError::Protocol(m) => "protocol error: "@ + m@,
            SyncClientError::RemoteApplyUnavailable => "remote events were pulled but remote apply is not implemented"@,
            SyncClientError::Other(m) => "unexpected sync error: "@ + m@,
        }
    }

    /// The text the error displays.
    pub fn message(&self) -> (s: String)
        ensures
            s@ == self.text(),
    {
        match self {
            SyncClientError::Disabled => to_string("sync is disabled"),
            SyncClientError::NotConfigured => to_string("sync server URL is not configured"),
            SyncClientError::Core(e) => {
                let mut s = to_string("local database error: ");
                push_str(&mut s, e.message().as_str());
                s
            },
            SyncClientError::Http(m) => {
                let mut s = to_string("http error: ");
                push_str(&mut s, m.as_str());
                s
            },
            SyncClientError::Protocol(m) => {
                let mut s = to_string("protocol error: ");
                push_str(&mut s, m.as_str());
                s
            },
            SyncClientError::RemoteApplyUnavailable => to_string(
                "remote events were pulled but remote apply is not implemented",
            ),
            SyncClientError::Other(m) => {
                let mut s = to_string("unexpected sync error: ");
                push_str(&mut s, m.as_str());
                s
            },
        }
    }
}

/// A step of a sync run.
#[derive(Clone, Copy, Debug, PartialEq, Eq, Structural)]
pub enum SyncPhase {
    Settings,
    Hello,
    DeviceRegistration,
    Push,
    Pull,
    RemoteApply,
    StatusUpdate,
}

/// The outcome of one step of a sync run.
#[derive(Clone, Debug, PartialEq, Eq)]
pub struct SyncPhaseResult {
    pub phase: SyncPhase,
    pub ok: bool,
    pub message: Option<String>,
}

impl SyncPhaseResult {
    /// A step that went well, with an optional message.
    pub fn ok(phase: SyncPhase, message: Option<String>) -> (r: Self)
        ensures
            r.phase == phase,
            r.ok,
            r.message == message,
    {
        SyncPhaseResult { phase, ok: true, message }
    }
}

/// The outcome of a connection test.
#[derive(Clone, Debug, PartialEq, Eq)]
pub struct SyncConnectionTestResult {
    pub ok: bool,
    pub server_url: Option<String>,
    pub protocol_version: String,
    pub server_name: Option<String>,
    pub server_version: Option<String>,
    pub message: Option<String>,
}

/// The outcome of one sync run.
#[derive(Clone, Debug, PartialEq, Eq)]
pub struct SyncOnceResult {
    pub pushed_event_count: usize,
    pub accepted_event_count: usize,
    pub rejected_event_count: usize,
    pub pulled_event_count: usize,
    pub applied_event_count: usize,
    pub conflict_count: usize,
    pub auto_resolved_conflict_count: usize,
    pub server_checkpoint: Option<String>,
    pub phases: Vec<SyncPhaseResult>,
}

/// The server URL a run may use: sync must be enabled and a server configured.
pub fn sync_target(settings: &SyncSettings) -> (r: Result<String, SyncClientError>)
    ensures
        !settings.enabled ==> r matches Err(SyncClientError::Disabled),
        settings.enabled && settings.server_url is None ==> r matches Err(SyncClientError::NotConfigured),
        settings.enabled ==> (settings.server_url matches Some(u) ==> r matches Ok(v) && v@ == u@),
{
    if !settings.enabled {
        return Err(SyncClientError::Disabled);
    }
    match &settings.server_url {
        Some(u) => Ok(u.clone()),
        None => Err(SyncClientError::NotConfigured),
    }
}

/// The client's greeting for a device.
pub fn hello_request(device_id: String, client_version: &str) -> (r: SyncHelloRequest)
    ensures
        r.protocol_version@ == PROTOCOL_VERSION@,
        r.client_name@ == CLIENT_NAME@,
        r.client_version matches Some(v) && v@ == client_version@,
        r.device_id == Some(device_id),
{
    SyncHelloRequest {
        protocol_version: to_string(PROTOCOL_VERSION),
        client_name: to_string(CLIENT_NAME),
        client_version: Some(to_string(client_version)),
        device_id: Some(device_id),
    }
}

/// The result of a successful connection test against a compatible server.
pub fn connection_test_result(server_url: String, hello: SyncHelloResponse) -> (r: SyncConnectionTestResult)
    ensures
        r.ok,
        r.server_url == Some(server_url),
        r.protocol_version == hello.protocol_version,
        r.server_name == Some(hello.server_name),
        r.server_version == hello.server_version,
        r.message matches Some(m) && m@ == "Server protocol is compatible."@,
{
    SyncConnectionTestResult {
        ok: true,
        server_url: Some(server_url),
        protocol_version: hello.protocol_version,
        server_name: Some(hello.server_name),
        server_version: hello.server_version,
        message: Some(to_string("Server protocol is compatible.")),
    }
}

/// The registration request of this device, with the user id as a hint.
pub fn registration_request(device_id: String, settings: &SyncSettings) -> (r: DeviceRegistrationRequest)
    ensures
        r.protocol_version@ == PROTOCOL_VERSION@,
        r.device_id == device_id,
        r.device_name@ == settings.device_name@,
        r.user_hint == settings.user_id,
{
    DeviceRegistrationRequest {
        protocol_version: to_string(PROTOCOL_VERSION),
        device_id,
        device_name: settings.device_name.clone(),
        user_hint: crate::models::dup_opt_string(&settings.user_id),
    }
}

/// The settings change a registration makes: the account, user and device token it returned;
/// a registration without a token is a protocol error.
pub fn registration_patch(response: DeviceRegistrationResponse) -> (r: Result<SyncSettingsPatch, SyncClientError>)
    ensures
        response.device_token is None ==> (r matches Err(SyncClientError::Protocol(m)) && m@
            == "device registration succeeded without a device token"@),
        response.device_token matches Some(t) ==> (r matches Ok(p) && p.enabled is None
            && p.server_url is None && p.device_name is None && p.account_id == Some(response.account_id)
            && p.user_id == Some(response.user_id) && p.device_token == Some(Some(t))),
{
    match response.device_token {
        None => Err(SyncClientError::Protocol(to_string("device registration succeeded without a device token"))),
        Some(t) => Ok(
            SyncSettingsPatch {
                enabled: None,
                server_url: None,
                device_name: None,
                account_id: Some(response.account_id),
                user_id: Some(response.user_id),
                device_token: Some(Some(t)),
            },
        ),
    }
}

/// The URL of a protocol path on a sync server: the server URL without trailing slashes, `/`,
/// then the path without leading slashes.
pub fn omgp_endpoint(server_url: &str, path: &str) -> (r: String)
    ensures
        r@ == trim_end_char(server_url@, '/') + "/"@ + trim_start_char(path@, '/'),
{
    let mut s = to_string(trim_end_matches_char(server_url, '/'));
    push_str(&mut s, "/");
    push_str(&mut s, trim_start_matches_char(path, '/'));
    s
}

/// The name of an error code, as its `Debug` form writes it.
pub open spec fn code_name(code: ProtocolErrorCode) -> Seq<char> {
    match code {
        ProtocolErrorCode::IncompatibleVersion => "IncompatibleVersion"@,
        ProtocolErrorCode::InvalidRequest => "InvalidRequest"@,
        ProtocolErrorCode::Unauthorized => "Unauthorized"@,
        ProtocolErrorCode::Forbidden => "Forbidden"@,
        ProtocolErrorCode::Conflict => "Conflict"@,
        ProtocolErrorCode::PayloadTooLarge => "PayloadTooLarge"@,
        ProtocolErrorCode::RateLimited => "RateLimited"@,
        ProtocolErrorCode::ServerError => "ServerError"@,
    }
}

fn push_code_name(s: &mut String, code: ProtocolErrorCode)
    ensures
        final(s)@ == old(s)@ + code_name(code),
{
    match code {
        ProtocolErrorCode::IncompatibleVersion => push_str(s, "IncompatibleVersion"),
        ProtocolErrorCode::InvalidRequest => push_str(s, "InvalidRequest"),
        ProtocolErrorCode::Unauthorized => push_str(s, "Unauthorized"),
        ProtocolErrorCode::Forbidden => push_str(s, "Forbidden"),
        ProtocolErrorCode::Conflict => push_str(s, "Conflict"),
        ProtocolErrorCode::PayloadTooLarge => push_str(s, "PayloadTooLarge"),
        ProtocolErrorCode::RateLimited => push_str(s, "RateLimited"),
        ProtocolErrorCode::ServerError => push_str(s, "ServerError"),
    }
}

/// A protocol error in a server's answer fails the request: `Protocol("{code:?}: {message}")`.
pub fn check_protocol_error(error: &Option<ProtocolError>) -> (r: Result<(), SyncClientError>)
    ensures
        match error {
            None => r is Ok,
            Some(e) => r matches Err(SyncClientError::Protocol(m)) && m@ == code_name(e.code) + ": "@
                + e.message@,
        },
{
    match error {
        None => Ok(()),
        Some(e) => {
            let mut m = String::new();
            push_code_name(&mut m, e.code);
            push_str(&mut m, ": ");
            push_str(&mut m, e.message.as_str());
            Err(SyncClientError::Protocol(m))
        },
    }
}

/// The server's greeting, checked: its protocol error, then its compatibility.
pub fn check_hello(response: SyncHelloResponse) -> (r: Result<SyncHelloResponse, SyncClientError>)
    ensures
        match response.error {
            Some(e) => r matches Err(SyncClientError::Protocol(m)) && m@ == code_name(e.code) + ": "@
                + e.message@,
            None => if response.compatible {
                r == Ok::<SyncHelloResponse, SyncClientError>(response)
            } else {
                r matches Err(SyncClientError::Protocol(m)) && m@
                    == "server reported an incompatible protocol version"@
            },
        },
{
    check_protocol_error(&response.error)?;
    if !response.compatible {
        return Err(SyncClientError::Protocol(to_string("server reported an incompatible protocol version")));
    }
    Ok(response)
}

/// The server's registration answer, checked: its protocol error, then its acceptance.
pub fn check_registration(response: DeviceRegistrationResponse) -> (r: Result<DeviceRegistrationResponse, SyncClientError>)
    ensures
        match response.error {
            Some(e) => r matches Err(SyncClientError::Protocol(m)) && m@ == code_name(e.code) + ": "@
                + e.message@,
            None => if response.accepted {
                r == Ok::<DeviceRegistrationResponse, SyncClientError>(response)
            } else {
                r matches Err(SyncClientError::Protocol(m)) && m@ == "device registration was not accepted"@
            },
        },
{
    check_protocol_error(&response.error)?;
    if !response.accepted {
        return Err(SyncClientError::Protocol(to_string("device registration was not accepted")));
    }
    Ok(response)
}

/// The server's push answer, checked for a protocol error.
pub fn check_push(response: SyncPushResponse) -> (r: Result<SyncPushResponse, SyncClientError>)
    ensures
        match response.error {
            Some(e) => r matches Err(SyncClientError::Protocol(m)) && m@ == code_name(e.code) + ": "@
                + e.message@,
            None => r == Ok::<SyncPushResponse, SyncClientError>(response),
        },
{
    check_protocol_error(&response.error)?;
    Ok(response)
}

/// The server's pull answer, checked for a protocol error.
pub fn check_pull(response: SyncPullResponse) -> (r: Result<SyncPullResponse, SyncClientError>)
    ensures
        match response.error {
            Some(e) => r matches Err(SyncClientError::Protocol(m)) && m@ == code_name(e.code) + ": "@
                + e.message@,
            None => r == Ok::<SyncPullResponse, SyncClientError>(response),
        },
{
    check_protocol_error(&response.error)?;
    Ok(response)
}

/// The acknowledged ids a run may mark as synced: those it pushed, each once, in the server's
/// order.
pub open spec fn accepted_ids(pushed: Seq<Seq<char>>, accepted: Seq<Seq<char>>) -> Seq<Seq<char>>
    decreases accepted.len(),
{
    if accepted.len() == 0 {
        Seq::empty()
    } else {
        let before = accepted_ids(pushed, accepted.drop_last());
        let id = accepted.last();
        if pushed.contains(id) && !before.contains(id) {
            before.push(id)
        } else {
            before
        }
    }
}

fn contains_text(v: &Vec<String>, x: &str) -> (r: bool)
    ensures
        r == v@.map_values(|s: String| s@).contains(x@),
{
    let mut i: usize = 0;
    while i < v.len()
        invariant
            i <= v@.len(),
            forall|k: int| 0 <= k < i ==> (#[trigger] v@[k])@ != x@,
        decreases v@.len() - i,
    {
        if str_eq(v[i].as_str(), x) {
            assert(v@.map_values(|s: String| s@)[i as int] == x@);
            return true;
        }
        i = i + 1;
    }
    proof {
        let m = v@.map_values(|s: String| s@);
        assert forall|k: int| 0 <= k < m.len() implies m[k] != x@ by {
            assert(m[k] == v@[k]@);
        }
    }
    false
}

/// Keep the acknowledged ids of events this run pushed, once each, in order.
pub fn filter_accepted_ids(pushed: &Vec<String>, accepted: Vec<String>) -> (r: Vec<String>)
    ensures
        r@.map_values(|s: String| s@) == accepted_ids(pushed@.map_values(|s: String| s@), accepted@.map_values(|s: String| s@)),
{
    let ghost p = pushed@.map_values(|s: String| s@);
    let ghost a = accepted@.map_values(|s: String| s@);
    let mut out: Vec<String> = Vec::new();
    let mut i: usize = 0;
    proof {
        assert(a.subrange(0, 0) =~= Seq::<Seq<char>>::empty());
        assert(out@.map_values(|s: String| s@) =~= Seq::<Seq<char>>::empty());
    }
    while i < accepted.len()
        invariant
            i <= accepted@.len(),
            p == pushed@.map_values(|s: String| s@),
            a == accepted@.map_values(|s: String| s@),
            out@.map_values(|s: String| s@) == accepted_ids(p, a.subrange(0, i as int)),
        decreases accepted@.len() - i,
    {
        let id = accepted[i].as_str();
        let ghost before = out@;
        proof {
            let pre = a.subrange(0, i as int + 1);
            assert(pre.drop_last() =~= a.subrange(0, i as int));
            assert(pre.last() == id@);
        }
        if contains_text(pushed, id) && !contains_text(&out, id) {
            out.push(to_string(id));
            proof {
                assert(out@.map_values(|s: String| s@) =~= before.map_values(|s: String| s@).push(id@));
            }
        }
        i = i + 1;
    }
    proof {
        assert(a.subrange(0, a.len() as int) =~= a);
    }
    out
}

/// Law: the ids marked as synced were all pushed, and none is marked twice.
/// Law: no more ids are marked as synced than were pushed.
pub proof fn lemma_accepted_within_pushed(pushed: Seq<Seq<char>>, accepted: Seq<Seq<char>>)
    ensures
        accepted_ids(pushed, accepted).len() <= pushed.len(),
{
    let a = accepted_ids(pushed, accepted);
    lemma_accepted_ids(pushed, accepted);
    assert(a.no_duplicates());
    a.unique_seq_to_set();
    assert(a.to_set().subset_of(pushed.to_set()));
    pushed.lemma_cardinality_of_set();
    vstd::set_lib::lemma_len_subset(a.to_set(), pushed.to_set());
}

pub proof fn lemma_accepted_ids(pushed: Seq<Seq<char>>, accepted: Seq<Seq<char>>)
    ensures
        forall|k: int| 0 <= k < accepted_ids(pushed, accepted).len() ==> pushed.contains(
            #[trigger] accepted_ids(pushed, accepted)[k],
        ),
        forall|k: int, l: int|
            0 <= k < l < accepted_ids(pushed, accepted).len() ==> #[trigger] accepted_ids(pushed, accepted)[k]
                != #[trigger] accepted_ids(pushed, accepted)[l],
    decreases accepted.len(),
{
    if accepted.len() > 0 {
        lemma_accepted_ids(pushed, accepted.drop_last());
        let before = accepted_ids(pushed, accepted.drop_last());
        let now = accepted_ids(pushed, accepted);
        assert forall|k: int| 0 <= k < now.len() implies pushed.contains(#[trigger] now[k]) by {
            if k < before.len() {
                assert(now[k] == before[k]);
            }
        }
        assert forall|k: int, l: int| 0 <= k < l < now.len() implies #[trigger] now[k] != #[trigger] now[l] by {
            if l < before.len() {
                assert(now[k] == before[k] && now[l] == before[l]);
            } else {
                assert(now[k] == before[k]);
                assert(before.contains(before[k]));
            }
        }
    }
}

/// `Accepted {n} local events.`, with `; rejected {m}.` when some were refused.
pub open spec fn push_message_text(accepted: usize, rejected: usize) -> Seq<char> {
    if rejected == 0 {
        "Accepted "@ + crate::text::int_text(accepted as int) + " local events."@
    } else {
        "Accepted "@ + crate::text::int_text(accepted as int) + " local events; rejected "@
            + crate::text::int_text(rejected as int) + "."@
    }
}

/// The message of the push step.
pub fn push_message(accepted: usize, rejected: usize) -> (s: String)
    ensures
        s@ == push_message_text(accepted, rejected),
{
    let mut s = to_string("Accepted ");
    push_u64_digits(&mut s, accepted as u64);
    if rejected == 0 {
        push_str(&mut s, " local events.");
    } else {
        push_str(&mut s, " local events; rejected ");
        push_u64_digits(&mut s, rejected as u64);
        push_str(&mut s, ".");
    }
    s
}

/// The message of the pull step: `Pulled {n} server events.`
pub fn pull_message(pulled: usize) -> (s: String)
    ensures
        s@ == "Pulled "@ + crate::text::int_text(pulled as int) + " server events."@,
{
    let mut s = to_string("Pulled ");
    push_u64_digits(&mut s, pulled as u64);
    push_str(&mut s, " server events.");
    s
}

/// The message of the remote-apply step.
pub fn apply_message(applied: usize, already: usize, echoes: usize) -> (s: String)
    ensures
        s@ == "Applied "@ + crate::text::int_text(applied as int) + "; already applied "@
            + crate::text::int_text(already as int) + "; skipped local echoes "@ + crate::text::int_text(
            echoes as int,
        ) + "."@,
{
    let mut s = to_string("Applied ");
    push_u64_digits(&mut s, applied as u64);
    push_str(&mut s, "; already applied ");
    push_u64_digits(&mut s, already as u64);
    push_str(&mut s, "; skipped local echoes ");
    push_u64_digits(&mut s, echoes as u64);
    push_str(&mut s, ".");
    s
}

/// The checkpoint a run stores and reports: the server's, unless it is empty.
pub fn next_checkpoint(server_checkpoint: String) -> (r: Option<String>)
    ensures
        server_checkpoint@.len() == 0 ==> r is None,
        server_checkpoint@.len() > 0 ==> r == Some(server_checkpoint),
{
    if server_checkpoint.unicode_len() == 0 {
        None
    } else {
        Some(server_checkpoint)
    }
}

/// The bearer token for registration: an explicitly configured token wins over a stored one.
pub fn resolve_bearer_token(configured: Option<&str>, stored: Option<String>) -> (r: Option<String>)
    ensures
        match configured {
            Some(c) => r matches Some(t) && t@ == c@,
            None => r == stored,
        },
{
    match configured {
        Some(c) => Some(to_string(c)),
        None => stored,
    }
}

/// A PKCE pair: a verifier of 32 random bytes in base64url, and the base64url SHA-256 digest of
/// it as the S256 challenge.
pub fn pkce_pair() -> (r: (String, String))
    ensures
        r.0@.len() == 43,
        exists|b: Seq<u8>| b.len() == 32 && r.0@ == #[trigger] base64url_text(b),
        r.1@ == base64url_text(sha256_digest(vstd::utf8::encode_utf8(r.0@))),
{
    let bytes = random_bytes(32);
    let verifier = base64url_encode(bytes.as_slice());
    proof {
        lemma_base64url_shape(bytes@);
    }
    let digest = sha256(verifier.as_str().as_bytes());
    let challenge = base64url_encode(digest.as_slice());
    (verifier, challenge)
}

/// A random OAuth state: 16 random bytes in base64url.
pub fn random_state() -> (s: String)
    ensures
        s@.len() == 22,
        exists|b: Seq<u8>| b.len() == 16 && s@ == #[trigger] base64url_text(b),
{
    let bytes = random_bytes(16);
    proof {
        lemma_base64url_shape(bytes@);
    }
    base64url_encode(bytes.as_slice())
}

/// The URL the `url` crate gives for a base URL with path segments pushed and query pairs
/// appended, both in order: `Err(Some(text))` with the parse error's text when the base is no
/// URL, `Err(None)` when it cannot take path segments.
pub uninterp spec fn url_built(
    base: Seq<char>,
    segments: Seq<Seq<char>>,
    pairs: Seq<(Seq<char>, Seq<char>)>,
) -> Result<Seq<char>, Option<Seq<char>>>;

/// `url::Url::parse(base)`, then `path_segments_mut().extend(segments)` and
/// `query_pairs_mut().extend_pairs(pairs)`, then the URL's text. The contract names the result,
/// the parse error's text included.
#[verifier::external_body]
fn build_url(base: &str, segments: &[&str], pairs: &[(&str, &str)]) -> (r: Result<String, Option<String>>)
    ensures
        url_built(base@, segments@.map_values(|t: &str| t@), pairs@.map_values(|p: (&str, &str)| (p.0@, p.1@)))
            == match r {
            Ok(u) => Ok(u@),
            Err(Some(m)) => Err(Some(m@)),
            Err(None) => Err(None),
        },
{
    let mut url = match url::Url::parse(base) {
        Ok(u) => u,
        Err(e) => return Err(Some(e.to_string())),
    };
    match url.path_segments_mut() {
        Ok(mut path) => { path.extend(segments); },
        Err(()) => return Err(None),
    }
    url.query_pairs_mut().extend_pairs(pairs);
    Ok(url.to_string())
}

/// The path of the issuer's authorization endpoint.
pub open spec fn authorize_segments() -> Seq<Seq<char>> {
    seq!["oauth"@, "authorize"@]
}

/// The query of an authorization request: a code request for the `identity` scope with an S256
/// PKCE challenge.
pub open spec fn authorize_pairs(
    client_id: Seq<char>,
    redirect_uri: Seq<char>,
    challenge: Seq<char>,
    state: Seq<char>,
) -> Seq<(Seq<char>, Seq<char>)> {
    seq![
        ("response_type"@, "code"@),
        ("client_id"@, client_id),
        ("redirect_uri"@, redirect_uri),
        ("scope"@, "identity"@),
        ("state"@, state),
        ("code_challenge"@, challenge),
        ("code_challenge_method"@, "S256"@),
    ]
}

/// The issuer's authorization URL for the browser redirect; the issuer's trailing slashes are
/// dropped first. An issuer that is no base URL is refused.
pub fn authorize_url(config: &OAuthConfig, redirect_uri: &str, challenge: &str, state: &str) -> (r: Result<String, SyncClientError>)
    ensures
        match url_built(
            trim_end_char(config.issuer@, '/'),
            authorize_segments(),
            authorize_pairs(config.client_id@, redirect_uri@, challenge@, state@),
        ) {
            Ok(u) => r matches Ok(v) && v@ == u,
            Err(Some(m)) => r matches Err(SyncClientError::Other(t)) && t@ == "invalid OAuth issuer: "@ + m,
            Err(None) => r matches Err(SyncClientError::Other(t)) && t@ == "invalid OAuth issuer"@,
        },
{
    let issuer = trim_end_matches_char(config.issuer.as_str(), '/');
    let segments: Vec<&str> = vec!["oauth", "authorize"];
    let pairs: Vec<(&str, &str)> = vec![
        ("response_type", "code"),
        ("client_id", config.client_id.as_str()),
        ("redirect_uri", redirect_uri),
        ("scope", "identity"),
        ("state", state),
        ("code_challenge", challenge),
        ("code_challenge_method", "S256"),
    ];
    proof {
        assert(segments@.map_values(|t: &str| t@) =~= authorize_segments());
        assert(pairs@.map_values(|p: (&str, &str)| (p.0@, p.1@)) =~= authorize_pairs(
            config.client_id@,
            redirect_uri@,
            challenge@,
            state@,
        ));
    }
    match build_url(issuer, segments.as_slice(), pairs.as_slice()) {
        Ok(u) => Ok(u),
        Err(Some(m)) => {
            let mut t = to_string("invalid OAuth issuer: ");
            push_str(&mut t, m.as_str());
            Err(SyncClientError::Other(t))
        },
        Err(None) => Err(SyncClientError::Other(to_string("invalid OAuth issuer"))),
    }
}

/// The (name, value) pairs of an `application/x-www-form-urlencoded` text, decoded, as the
/// `form_urlencoded` crate reads them.
pub uninterp spec fn form_pairs(query: Seq<char>) -> Seq<(Seq<char>, Seq<char>)>;

/// `form_urlencoded::parse(query.as_bytes()).into_owned()`, collected in order.
#[verifier::external_body]
fn parse_form(query: &str) -> (r: Vec<(String, String)>)
    ensures
        r@.map_values(|p: (String, String)| (p.0@, p.1@)) == form_pairs(query@),
{
    url::form_urlencoded::parse(query.as_bytes()).into_owned().collect()
}

/// The value of the last pair named `key`, as a map collected from the pairs holds it.
pub open spec fn last_value(pairs: Seq<(Seq<char>, Seq<char>)>, key: Seq<char>) -> Option<Seq<char>>
    decreases pairs.len(),
{
    if pairs.len() == 0 {
        None
    } else if pairs.last().0 == key {
        Some(pairs.last().1)
    } else {
        last_value(pairs.drop_last(), key)
    }
}

fn lookup(pairs: &Vec<(String, String)>, key: &str) -> (r: Option<String>)
    ensures
        match (r, last_value(pairs@.map_values(|p: (String, String)| (p.0@, p.1@)), key@)) {
            (Some(v), Some(w)) => v@ == w,
            (None, None) => true,
            _ => false,
        },
{
    let ghost ps = pairs@.map_values(|p: (String, String)| (p.0@, p.1@));
    let mut i: usize = pairs.len();
    proof {
        assert(ps.subrange(0, ps.len() as int) =~= ps);
    }
    while i > 0
        invariant
            i <= pairs@.len(),
            ps == pairs@.map_values(|p: (String, String)| (p.0@, p.1@)),
            last_value(ps, key@) == last_value(ps.subrange(0, i as int), key@),
        decreases i,
    {
        let ghost pre = ps.subrange(0, i as int);
        proof {
            assert(pre.drop_last() =~= ps.subrange(0, i as int - 1));
            assert(pre.last() == (pairs@[i as int - 1].0@, pairs@[i as int - 1].1@));
        }
        if str_eq(pairs[i - 1].0.as_str(), key) {
            return Some(pairs[i - 1].1.clone());
        }
        i = i - 1;
    }
    proof {
        assert(ps.subrange(0, 0) =~= Seq::<(Seq<char>, Seq<char>)>::empty());
    }
    None
}

/// What the callback request line decides: the authorization code, or the error message.
pub open spec fn callback_verdict(request_line: Seq<char>, expected_state: Seq<char>) -> Result<Seq<char>, Seq<char>> {
    let w = words(request_line);
    if w.len() < 2 {
        Err("malformed callback request"@)
    } else {
        let path = w[1];
        if !(path.len() >= 9 && path.subrange(0, 9) == "/callback"@) {
            Err("unexpected callback path"@)
        } else {
            let k = crate::text::first_index_of(path, '?');
            let query = if k < path.len() {
                path.subrange(k + 1, path.len() as int)
            } else {
                Seq::empty()
            };
            let pairs = form_pairs(query);
            match last_value(pairs, "error"@) {
                Some(e) => Err("authorization failed ("@ + e + "): "@ + match last_value(pairs, "error_description"@) {
                    Some(d) => d,
                    None => "the sign-in was not completed"@,
                }),
                None => if last_value(pairs, "state"@) != Some(expected_state) {
                    Err("callback state mismatch; possible cross-site request"@)
                } else {
                    match last_value(pairs, "code"@) {
                        Some(c) => Ok(c),
                        None => Err("callback carried no authorization code"@),
                    }
                },
            }
        }
    }
}

/// Read the authorization code from the loopback callback's request line, checking the path,
/// the provider's error and the state.
pub fn callback_code(request_line: &str, expected_state: &str) -> (r: Result<String, SyncClientError>)
    ensures
        match callback_verdict(request_line@, expected_state@) {
            Ok(c) => r matches Ok(v) && v@ == c,
            Err(m) => r matches Err(SyncClientError::Other(e)) && e@ == m,
        },
{
    proof {
        reveal_strlit("/callback");
    }
    let parts = split_whitespace(request_line);
    if parts.len() < 2 {
        return Err(SyncClientError::Other(to_string("malformed callback request")));
    }
    let path = parts[1];
    if !starts_with(path, "/callback") {
        return Err(SyncClientError::Other(to_string("unexpected callback path")));
    }
    let n = path.unicode_len();
    let k = find_char(path, '?');
    let query = if k < n {
        slice(path, k + 1, n)
    } else {
        ""
    };
    proof {
        reveal_strlit("");
        if k >= n {
            assert(query@ =~= Seq::<char>::empty());
        }
    }
    let pairs = parse_form(query);
    match lookup(&pairs, "error") {
        Some(e) => {
            let mut m = to_string("authorization failed (");
            push_str(&mut m, e.as_str());
            push_str(&mut m, "): ");
            match lookup(&pairs, "error_description") {
                Some(d) => push_str(&mut m, d.as_str()),
                None => push_str(&mut m, "the sign-in was not completed"),
            }
            return Err(SyncClientError::Other(m));
        },
        None => {},
    }
    let state_ok = match lookup(&pairs, "state") {
        Some(s) => str_eq(s.as_str(), expected_state),
        None => false,
    };
    if !state_ok {
        return Err(SyncClientError::Other(to_string("callback state mismatch; possible cross-site request")));
    }
    match lookup(&pairs, "code") {
        Some(c) => Ok(c),
        None => Err(SyncClientError::Other(to_string("callback carried no authorization code"))),
    }
}

/// The loopback redirect URI for a callback listener on `port`.
pub fn redirect_uri(port: u16) -> (r: String)
    ensures
        r@ == "http://127.0.0.1:"@ + crate::text::int_text(port as int) + "/callback"@,
{
    let mut s = to_string("http://127.0.0.1:");
    push_u64_digits(&mut s, port as u64);
    push_str(&mut s, "/callback");
    s
}

/// The issuer's token endpoint: its URL without trailing slashes, then `/oauth/token`.
pub fn token_endpoint(config: &OAuthConfig) -> (r: String)
    ensures
        r@ == trim_end_char(config.issuer@, '/') + "/oauth/token"@,
{
    let mut s = to_string(trim_end_matches_char(config.issuer.as_str(), '/'));
    push_str(&mut s, "/oauth/token");
    s
}

/// The form of the authorization-code exchange, in order: grant type, code, redirect URI,
/// client id and PKCE verifier.
pub fn token_form(config: &OAuthConfig, code: &str, redirect_uri: &str, verifier: &str) -> (r: Vec<(String, String)>)
    ensures
        r@.map_values(|p: (String, String)| (p.0@, p.1@)) == seq![
            ("grant_type"@, "authorization_code"@),
            ("code"@, code@),
            ("redirect_uri"@, redirect_uri@),
            ("client_id"@, config.client_id@),
            ("code_verifier"@, verifier@),
        ],
{
    let mut v: Vec<(String, String)> = Vec::new();
    v.push((to_string("grant_type"), to_string("authorization_code")));
    v.push((to_string("code"), to_string(code)));
    v.push((to_string("redirect_uri"), to_string(redirect_uri)));
    v.push((to_string("client_id"), config.client_id.clone()));
    v.push((to_string("code_verifier"), to_string(verifier)));
    assert(v@.map_values(|p: (String, String)| (p.0@, p.1@)) =~= seq![
        ("grant_type"@, "authorization_code"@),
        ("code"@, code@),
        ("redirect_uri"@, redirect_uri@),
        ("client_id"@, config.client_id@),
        ("code_verifier"@, verifier@),
    ]);
    v
}

/// The access token of a token response; an empty one is refused.
pub fn checked_access_token(access_token: String) -> (r: Result<String, SyncClientError>)
    ensures
        access_token@.len() == 0 ==> (r matches Err(SyncClientError::Other(m)) && m@
            == "token endpoint returned an empty access token"@),
        access_token@.len() > 0 ==> r == Ok::<String, SyncClientError>(access_token),
{
    if access_token.unicode_len() == 0 {
        Err(SyncClientError::Other(to_string("token endpoint returned an empty access token")))
    } else {
        Ok(access_token)
    }
}

/// The HTML page shown in the browser after the callback.
pub open spec fn callback_page_text(title: Seq<char>, body: Seq<char>) -> Seq<char> {
    "<!doctype html><html><head><meta charset=utf-8><title>"@ + title
        + "</title></head><body style=\"font-family:system-ui,sans-serif;max-width:40em;margin:4em auto;padding:0 1em\"><h1>"@
        + title + "</h1><p>"@ + body + "</p></body></html>"@
}

/// The HTTP response answering the browser's callback: `200 OK` and a signed-in page when a
/// code was read, else `400 Bad Request` and the error's text; the length counts UTF-8 bytes.
pub open spec fn callback_response_text(result: Result<String, SyncClientError>) -> Seq<char> {
    let (status, title, body) = match result {
        Ok(_) => (
            "200 OK"@,
            "Signed in"@,
            "Signed in to OpenMGMT. You can close this tab and return to the app."@,
        ),
        Err(e) => ("400 Bad Request"@, "Sign-in failed"@, e.text()),
    };
    let page = callback_page_text(title, body);
    "HTTP/1.1 "@ + status + "\r\nContent-Type: text/html; charset=utf-8\r\nContent-Length: "@
        + crate::text::int_text(vstd::utf8::encode_utf8(page).len() as int)
        + "\r\nConnection: close\r\n\r\n"@ + page
}

/// The HTTP response the loopback listener sends back after reading the callback.
pub fn callback_response(result: &Result<String, SyncClientError>) -> (r: String)
    ensures
        r@ == callback_response_text(*result),
{
    let (status, title, body) = match result {
        Ok(_) => (
            "200 OK",
            "Signed in",
            to_string("Signed in to OpenMGMT. You can close this tab and return to the app."),
        ),
        Err(e) => ("400 Bad Request", "Sign-in failed", e.message()),
    };
    let mut page = to_string("<!doctype html><html><head><meta charset=utf-8><title>");
    push_str(&mut page, title);
    push_str(
        &mut page,
        "</title></head><body style=\"font-family:system-ui,sans-serif;max-width:40em;margin:4em auto;padding:0 1em\"><h1>",
    );
    push_str(&mut page, title);
    push_str(&mut page, "</h1><p>");
    push_str(&mut page, body.as_str());
    push_str(&mut page, "</p></body></html>");
    let bytes = page.as_str().as_bytes().len();
    proof {
        assert(page@ =~= callback_page_text(title@, body@));
        let spec_parts = match result {
            Ok(_) => (
                "200 OK"@,
                "Signed in"@,
                "Signed in to OpenMGMT. You can close this tab and return to the app."@,
            ),
            Err(e) => ("400 Bad Request"@, "Sign-in failed"@, e.text()),
        };
        assert(spec_parts == (status@, title@, body@));
        assert(bytes == vstd::utf8::encode_utf8(page@).len());
        assert(crate::text::int_text(bytes as int) == crate::text::nat_digits(bytes as u64 as nat));
    }
    let mut r = to_string("HTTP/1.1 ");
    push_str(&mut r, status);
    push_str(&mut r, "\r\nContent-Type: text/html; charset=utf-8\r\nContent-Length: ");
    push_u64_digits(&mut r, bytes as u64);
    push_str(&mut r, "\r\nConnection: close\r\n\r\n");
    push_str(&mut r, page.as_str());
    assert(r@ =~= callback_response_text(*result));
    r
}

/// Where account tokens are kept, by account name. A read gives the stored token; a write or
/// a removal that succeeds changes only that account, and one that fails changes nothing.
pub trait TokenStore {
    /// The tokens held, by account.
    spec fn tokens(&self) -> Map<Seq<char>, Seq<char>>;

    /// Whether the store is in a state its operations can run in.
    spec fn usable(&self) -> bool;

    /// The token stored for an account, if any.
    fn get(&self, account: &str) -> (r: Result<Option<String>, SyncClientError>)
        requires
            self.usable(),
        ensures
            r matches Ok(Some(t)) ==> self.tokens().contains_key(account@) && self.tokens()[account@] == t@,
            r matches Ok(None) ==> !self.tokens().contains_key(account@),
    ;

    /// Store a token for an account, replacing any it had.
    fn set(&mut self, account: &str, token: &str) -> (r: Result<(), SyncClientError>)
        requires
            old(self).usable(),
        ensures
            final(self).usable(),
            r is Ok ==> final(self).tokens() == old(self).tokens().insert(account@, token@),
            r is Err ==> final(self).tokens() == old(self).tokens(),
    ;

    /// Forget the token of an account.
    fn delete(&mut self, account: &str) -> (r: Result<(), SyncClientError>)
        requires
            old(self).usable(),
        ensures
            final(self).usable(),
            r is Ok ==> final(self).tokens() == old(self).tokens().remove(account@),
            r is Err ==> final(self).tokens() == old(self).tokens(),
    ;
}

/// The OS keychain token store's handle: the service its entries live under.
pub struct KeyringTokenStore {
    pub service: String,
}

impl KeyringTokenStore {
    /// The store of this application's entries.
    pub fn new() -> (s: Self)
        ensures
            s.service@ == KEYRING_SERVICE@,
    {
        KeyringTokenStore { service: to_string(KEYRING_SERVICE) }
    }
}

/// The map that a list of (account, token) pairs with distinct accounts stands for.
pub open spec fn pairs_map(s: Seq<(Seq<char>, Seq<char>)>) -> Map<Seq<char>, Seq<char>>
    decreases s.len(),
{
    if s.len() == 0 {
        Map::empty()
    } else {
        pairs_map(s.drop_last()).insert(s.last().0, s.last().1)
    }
}

/// No account occurs twice among the pairs.
pub open spec fn distinct_accounts(s: Seq<(Seq<char>, Seq<char>)>) -> bool {
    forall|i: int, j: int| 0 <= i < j < s.len() ==> #[trigger] s[i].0 != #[trigger] s[j].0
}

/// With distinct accounts, the map holds exactly the accounts of the pairs, each with its token.
proof fn lemma_pairs_map(s: Seq<(Seq<char>, Seq<char>)>)
    requires
        distinct_accounts(s),
    ensures
        forall|i: int| 0 <= i < s.len() ==> #[trigger] pairs_map(s).contains_key(s[i].0) && pairs_map(s)[s[i].0]
            == s[i].1,
        forall|k: Seq<char>| #[trigger] pairs_map(s).contains_key(k) ==> exists|i: int| 0 <= i < s.len() && s[i].0 == k,
    decreases s.len(),
{
    if s.len() > 0 {
        let t = s.drop_last();
        assert(distinct_accounts(t)) by {
            assert forall|i: int, j: int| 0 <= i < j < t.len() implies #[trigger] t[i].0 != #[trigger] t[j].0 by {
                assert(t[i] == s[i] && t[j] == s[j]);
            }
        }
        lemma_pairs_map(t);
        let n = s.len() - 1;
        assert(pairs_map(s) == pairs_map(t).insert(s[n].0, s[n].1));
        assert forall|i: int| 0 <= i < s.len() implies #[trigger] pairs_map(s).contains_key(s[i].0) && pairs_map(s)[s[i].0]
            == s[i].1 by {
            if i < n {
                assert(t[i] == s[i]);
                assert(s[i].0 != s[n].0);
                assert(pairs_map(t).contains_key(t[i].0));
            }
        }
        assert forall|k: Seq<char>| #[trigger] pairs_map(s).contains_key(k) implies exists|i: int| 0 <= i < s.len() && s[i].0 == k by {
            if k != s[n].0 {
                assert(pairs_map(t).contains_key(k));
                let i = choose|i: int| 0 <= i < t.len() && t[i].0 == k;
                assert(s[i] == t[i]);
            } else {
                assert(s[n].0 == k);
            }
        }
    }
}

/// Two pair lists with distinct accounts and the same accounts-and-tokens stand for one map.
proof fn lemma_pairs_map_ext(s: Seq<(Seq<char>, Seq<char>)>, m: Map<Seq<char>, Seq<char>>)
    requires
        distinct_accounts(s),
        forall|i: int| 0 <= i < s.len() ==> #[trigger] m.contains_key(s[i].0) && m[s[i].0] == s[i].1,
        forall|k: Seq<char>| #[trigger] m.contains_key(k) ==> exists|i: int| 0 <= i < s.len() && s[i].0 == k,
    ensures
        pairs_map(s) == m,
{
    lemma_pairs_map(s);
    assert forall|k: Seq<char>| #[trigger] pairs_map(s).contains_key(k) == m.contains_key(k) by {
        if pairs_map(s).contains_key(k) {
            let i = choose|i: int| 0 <= i < s.len() && s[i].0 == k;
            assert(m.contains_key(s[i].0));
        }
        if m.contains_key(k) {
            let i = choose|i: int| 0 <= i < s.len() && s[i].0 == k;
            assert(pairs_map(s).contains_key(s[i].0));
        }
    }
    assert forall|k: Seq<char>| #[trigger] pairs_map(s).contains_key(k) implies pairs_map(s)[k] == m[k] by {
        let i = choose|i: int| 0 <= i < s.len() && s[i].0 == k;
        assert(pairs_map(s).contains_key(s[i].0));
        assert(m.contains_key(s[i].0));
    }
    assert(pairs_map(s) =~= m);
}

/// An in-memory token store, keyed by account.
pub struct MemoryTokenStore {
    entries: Vec<(String, String)>,
}

impl MemoryTokenStore {
    /// The stored (account, token) pairs.
    pub closed spec fn pairs(&self) -> Seq<(Seq<char>, Seq<char>)> {
        self.entries@.map_values(|p: (String, String)| (p.0@, p.1@))
    }

    /// The tokens held, by account.
    pub closed spec fn view(&self) -> Map<Seq<char>, Seq<char>> {
        pairs_map(self.pairs())
    }

    /// No account appears twice.
    pub closed spec fn well_formed(&self) -> bool {
        distinct_accounts(self.pairs())
    }

    /// An empty store.
    pub fn new() -> (s: Self)
        ensures
            s.well_formed(),
            s.view() == Map::<Seq<char>, Seq<char>>::empty(),
    {
        let s = MemoryTokenStore { entries: Vec::new() };
        assert(s.pairs() =~= Seq::<(Seq<char>, Seq<char>)>::empty());
        s
    }

    fn position(&self, account: &str) -> (r: Option<usize>)
        ensures
            match r {
                Some(i) => i < self.pairs().len() && self.pairs()[i as int].0 == account@,
                None => forall|i: int| 0 <= i < self.pairs().len() ==> #[trigger] self.pairs()[i].0 != account@,
            },
    {
        let mut i: usize = 0;
        while i < self.entries.len()
            invariant
                i <= self.entries@.len(),
                forall|k: int| 0 <= k < i ==> #[trigger] self.pairs()[k].0 != account@,
            decreases self.entries@.len() - i,
        {
            if str_eq(self.entries[i].0.as_str(), account) {
                return Some(i);
            }
            assert(self.pairs()[i as int].0 == self.entries@[i as int].0@);
            i = i + 1;
        }
        None
    }

}

impl TokenStore for MemoryTokenStore {
    open spec fn tokens(&self) -> Map<Seq<char>, Seq<char>> {
        self.view()
    }

    open spec fn usable(&self) -> bool {
        self.well_formed()
    }

    /// The token stored for an account; reading never fails.
    fn get(&self, account: &str) -> (r: Result<Option<String>, SyncClientError>)
        ensures
            match r {
                Ok(Some(t)) => self.view().contains_key(account@) && self.view()[account@] == t@,
                Ok(None) => !self.view().contains_key(account@),
                Err(_) => false,
            },
    {
        proof {
            lemma_pairs_map(self.pairs());
        }
        match self.position(account) {
            Some(i) => {
                assert(self.pairs()[i as int].1 == self.entries@[i as int].1@);
                assert(pairs_map(self.pairs()).contains_key(self.pairs()[i as int].0));
                Ok(Some(self.entries[i].1.clone()))
            },
            None => {
                proof {
                    if self.view().contains_key(account@) {
                        let k = choose|k: int| 0 <= k < self.pairs().len() && self.pairs()[k].0 == account@;
                        assert(self.pairs()[k].0 != account@);
                    }
                }
                Ok(None)
            },
        }
    }

    /// Store a token for an account, replacing any it had; storing never fails.
    fn set(&mut self, account: &str, token: &str) -> (r: Result<(), SyncClientError>)
        ensures
            r is Ok,
            final(self).well_formed(),
            final(self).view() == old(self).view().insert(account@, token@),
    {
        let ghost before = self.pairs();
        proof {
            lemma_pairs_map(before);
        }
        let ghost m = pairs_map(before).insert(account@, token@);
        match self.position(account) {
            Some(i) => {
                self.entries.set(i, (to_string(account), to_string(token)));
                proof {
                    let after = self.pairs();
                    assert(after =~= before.update(i as int, (account@, token@)));
                    assert(distinct_accounts(after)) by {
                        assert forall|a: int, b: int| 0 <= a < b < after.len() implies #[trigger] after[a].0
                            != #[trigger] after[b].0 by {
                            assert(before[a].0 != before[b].0);
                        }
                    }
                    assert forall|a: int| 0 <= a < after.len() implies #[trigger] m.contains_key(after[a].0)
                        && m[after[a].0] == after[a].1 by {
                        if a != i {
                            assert(before[a].0 != before[i as int].0);
                            assert(pairs_map(before).contains_key(before[a].0));
                        }
                    }
                    assert forall|k: Seq<char>| #[trigger] m.contains_key(k) implies exists|a: int|
                        0 <= a < after.len() && after[a].0 == k by {
                        if k == account@ {
                            assert(after[i as int].0 == k);
                        } else {
                            let a = choose|a: int| 0 <= a < before.len() && before[a].0 == k;
                            assert(after[a].0 == k);
                        }
                    }
                    lemma_pairs_map_ext(after, m);
                }
            },
            None => {
                self.entries.push((to_string(account), to_string(token)));
                proof {
                    let after = self.pairs();
                    assert(after =~= before.push((account@, token@)));
                    assert(after.drop_last() =~= before);
                    assert(distinct_accounts(after)) by {
                        assert forall|a: int, b: int| 0 <= a < b < after.len() implies #[trigger] after[a].0
                            != #[trigger] after[b].0 by {
                            if b < before.len() {
                                assert(before[a].0 != before[b].0);
                            } else {
                                assert(before[a].0 != account@);
                            }
                        }
                    }
                }
            },
        }
        Ok(())
    }

    /// Forget the token of an account; forgetting never fails.
    fn delete(&mut self, account: &str) -> (r: Result<(), SyncClientError>)
        ensures
            r is Ok,
            final(self).well_formed(),
            final(self).view() == old(self).view().remove(account@),
    {
        let ghost before = self.pairs();
        proof {
            lemma_pairs_map(before);
        }
        let ghost m = pairs_map(before).remove(account@);
        match self.position(account) {
            Some(i) => {
                self.entries.remove(i);
                proof {
                    let after = self.pairs();
                    assert(after =~= before.remove(i as int));
                    assert forall|a: int| 0 <= a < after.len() implies #[trigger] after[a] == before[if a < i {
                        a
                    } else {
                        a + 1
                    }] by {}
                    assert(distinct_accounts(after)) by {
                        assert forall|a: int, b: int| 0 <= a < b < after.len() implies #[trigger] after[a].0
                            != #[trigger] after[b].0 by {
                            let a2 = if a < i { a } else { a + 1 };
                            let b2 = if b < i { b } else { b + 1 };
                            assert(after[a] == before[a2] && after[b] == before[b2]);
                            assert(before[a2].0 != before[b2].0);
                        }
                    }
                    assert forall|a: int| 0 <= a < after.len() implies #[trigger] m.contains_key(after[a].0)
                        && m[after[a].0] == after[a].1 by {
                        let a2 = if a < i { a } else { a + 1 };
                        assert(after[a] == before[a2]);
                        assert(before[a2].0 != before[i as int].0);
                        assert(pairs_map(before).contains_key(before[a2].0));
                    }
                    assert forall|k: Seq<char>| #[trigger] m.contains_key(k) implies exists|a: int|
                        0 <= a < after.len() && after[a].0 == k by {
                        let b = choose|b: int| 0 <= b < before.len() && before[b].0 == k;
                        assert(b != i);
                        let a = if b < i { b } else { b - 1 };
                        assert(after[a] == before[b]);
                    }
                    lemma_pairs_map_ext(after, m);
                }
            },
            None => {
                proof {
                    assert(!pairs_map(before).contains_key(account@)) by {
                        if pairs_map(before).contains_key(account@) {
                            let k = choose|k: int| 0 <= k < before.len() && before[k].0 == account@;
                            assert(before[k].0 != account@);
                        }
                    }
                    assert(m =~= pairs_map(before));
                }
            },
        }
        Ok(())
    }
}

/// The stored account access token, if the user has signed in.
pub fn load_access_token<S: TokenStore>(store: &S) -> (r: Result<Option<String>, SyncClientError>)
    requires
        store.usable(),
    ensures
        r matches Ok(Some(t)) ==> store.tokens().contains_key(ACCESS_TOKEN_ACCOUNT@)
            && store.tokens()[ACCESS_TOKEN_ACCOUNT@] == t@,
        r matches Ok(None) ==> !store.tokens().contains_key(ACCESS_TOKEN_ACCOUNT@),
{
    store.get(ACCESS_TOKEN_ACCOUNT)
}

/// Forget the stored account access token (sign out).
pub fn clear_access_token<S: TokenStore>(store: &mut S) -> (r: Result<(), SyncClientError>)
    requires
        old(store).usable(),
    ensures
        final(store).usable(),
        r is Ok ==> final(store).tokens() == old(store).tokens().remove(ACCESS_TOKEN_ACCOUNT@),
        r is Err ==> final(store).tokens() == old(store).tokens(),
{
    store.delete(ACCESS_TOKEN_ACCOUNT)
}

/// Law of the token store: after a token is stored for an account, a read of that account gives
/// it and every other account reads as before; after the account is then forgotten, a read
/// gives none.
pub proof fn lemma_token_store_round_trip(
    before: Map<Seq<char>, Seq<char>>,
    account: Seq<char>,
    token: Seq<char>,
    other: Seq<char>,
)
    requires
        other != account,
    ensures
        before.insert(account, token).contains_key(account),
        before.insert(account, token)[account] == token,
        before.insert(account, token).contains_key(other) == before.contains_key(other),
        before.contains_key(other) ==> before.insert(account, token)[other] == before[other],
        !before.insert(account, token).remove(account).contains_key(account),
{
}

/// `r` reports that `phase` went well, with `message`.
pub open spec fn reported(r: SyncPhaseResult, phase: SyncPhase, message: Seq<char>) -> bool {
    &&& r.phase == phase
    &&& r.ok
    &&& r.message matches Some(m) && m@ == message
}

fn phase_ok(phase: SyncPhase, message: &str) -> (r: SyncPhaseResult)
    ensures
        reported(r, phase, message@),
{
    SyncPhaseResult::ok(phase, Some(to_string(message)))
}

/// The credentials a run presents: the registered account, user and device token of its settings.
pub open spec fn run_auth(settings: SyncSettings, device_id: String) -> AuthContext {
    AuthContext {
        account_id: settings.account_id,
        user_id: settings.user_id,
        device_id: device_id,
        device_token: settings.device_token,
    }
}

/// One sync run under way, driven step by step by its caller, who does the network and database
/// work that each step asks for: what the run has learned so far and the steps it has reported.
pub struct SyncRun {
    pub settings: SyncSettings,
    pub device_id: String,
    pub max_push_events: usize,
    pub pull_limit: u32,
    pub checkpoint: Option<String>,
    pub pushed_event_ids: Vec<String>,
    pub pushed_event_count: usize,
    pub accepted_event_count: usize,
    pub rejected_event_count: usize,
    pub pulled_event_count: usize,
    pub applied_event_count: usize,
    pub conflict_count: usize,
    pub auto_resolved_conflict_count: usize,
    pub server_checkpoint: Option<String>,
    pub phases: Vec<SyncPhaseResult>,
}

impl SyncRun {
    /// The run's setup is the same in `a` and `b`: settings, device, limits.
    pub open spec fn keeps_setup(a: SyncRun, b: SyncRun) -> bool {
        &&& b.settings == a.settings
        &&& b.device_id == a.device_id
        &&& b.max_push_events == a.max_push_events
        &&& b.pull_limit == a.pull_limit
    }

    /// The push step's record is the same in `a` and `b`.
    pub open spec fn keeps_push(a: SyncRun, b: SyncRun) -> bool {
        &&& b.checkpoint == a.checkpoint
        &&& b.pushed_event_ids == a.pushed_event_ids
        &&& b.pushed_event_count == a.pushed_event_count
        &&& b.accepted_event_count == a.accepted_event_count
        &&& b.rejected_event_count == a.rejected_event_count
    }

    /// The pull step's record is the same in `a` and `b`.
    pub open spec fn keeps_pull(a: SyncRun, b: SyncRun) -> bool {
        &&& b.pulled_event_count == a.pulled_event_count
        &&& b.server_checkpoint == a.server_checkpoint
    }

    /// The apply step's record is the same in `a` and `b`.
    pub open spec fn keeps_apply(a: SyncRun, b: SyncRun) -> bool {
        &&& b.applied_event_count == a.applied_event_count
        &&& b.conflict_count == a.conflict_count
        &&& b.auto_resolved_conflict_count == a.auto_resolved_conflict_count
    }

    /// Begin a run with settings that enable sync: the settings step is reported and the greeting
    /// to send is returned.
    pub fn start(config: &SyncClientConfig, settings: SyncSettings, device_id: String, client_version: &str) -> (r: (
        SyncRun,
        SyncHelloRequest,
    ))
        ensures
            r.0.settings == settings,
            r.0.device_id == device_id,
            r.0.max_push_events == config.max_push_events,
            r.0.pull_limit == config.pull_limit,
            r.0.checkpoint is None,
            r.0.pushed_event_ids@.len() == 0,
            r.0.pushed_event_count == 0 && r.0.accepted_event_count == 0 && r.0.rejected_event_count == 0,
            r.0.pulled_event_count == 0 && r.0.applied_event_count == 0,
            r.0.conflict_count == 0 && r.0.auto_resolved_conflict_count == 0,
            r.0.server_checkpoint is None,
            r.0.phases@.len() == 1,
            reported(r.0.phases@[0], SyncPhase::Settings, "Sync is enabled and configured."@),
            r.1.protocol_version@ == PROTOCOL_VERSION@,
            r.1.client_name@ == CLIENT_NAME@,
            r.1.client_version matches Some(v) && v@ == client_version@,
            r.1.device_id == Some(device_id),
    {
        let hello = hello_request(device_id.clone(), client_version);
        let mut phases: Vec<SyncPhaseResult> = Vec::new();
        phases.push(phase_ok(SyncPhase::Settings, "Sync is enabled and configured."));
        let run = SyncRun {
            settings,
            device_id,
            max_push_events: config.max_push_events,
            pull_limit: config.pull_limit,
            checkpoint: None,
            pushed_event_ids: Vec::new(),
            pushed_event_count: 0,
            accepted_event_count: 0,
            rejected_event_count: 0,
            pulled_event_count: 0,
            applied_event_count: 0,
            conflict_count: 0,
            auto_resolved_conflict_count: 0,
            server_checkpoint: None,
            phases,
        };
        (run, hello)
    }

    /// The server answered the greeting: the hello step is reported; a device without a token asks
    /// to be registered, one with a token reports its registration reused.
    pub fn hello_accepted(&mut self) -> (r: Option<DeviceRegistrationRequest>)
        ensures
            SyncRun::keeps_setup(*old(self), *final(self)),
            SyncRun::keeps_push(*old(self), *final(self)),
            SyncRun::keeps_pull(*old(self), *final(self)),
            SyncRun::keeps_apply(*old(self), *final(self)),
            old(self).settings.device_token is None ==> {
                &&& r matches Some(q) && q.protocol_version@ == PROTOCOL_VERSION@ && q.device_id
                    == old(self).device_id && q.device_name@ == old(self).settings.device_name@
                    && q.user_hint == old(self).settings.user_id
                &&& final(self).phases@ == old(self).phases@.push(final(self).phases@.last())
                &&& reported(final(self).phases@.last(), SyncPhase::Hello, "Server protocol is compatible."@)
            },
            old(self).settings.device_token is Some ==> {
                &&& r is None
                &&& final(self).phases@.len() == old(self).phases@.len() + 2
                &&& final(self).phases@.subrange(0, old(self).phases@.len() as int) == old(self).phases@
                &&& reported(
                    final(self).phases@[old(self).phases@.len() as int],
                    SyncPhase::Hello,
                    "Server protocol is compatible."@,
                )
                &&& reported(
                    final(self).phases@.last(),
                    SyncPhase::DeviceRegistration,
                    "Existing device registration reused."@,
                )
            },
    {
        self.phases.push(phase_ok(SyncPhase::Hello, "Server protocol is compatible."));
        if self.settings.device_token.is_none() {
            Some(registration_request(self.device_id.clone(), &self.settings))
        } else {
            self.phases.push(phase_ok(SyncPhase::DeviceRegistration, "Existing device registration reused."));
            assert(self.phases@.subrange(0, old(self).phases@.len() as int) =~= old(self).phases@);
            None
        }
    }

    /// The registration was saved: the run goes on with the saved settings and reports it.
    pub fn registration_saved(&mut self, settings: SyncSettings)
        ensures
            final(self).settings == settings,
            final(self).device_id == old(self).device_id,
            final(self).max_push_events == old(self).max_push_events,
            final(self).pull_limit == old(self).pull_limit,
            SyncRun::keeps_push(*old(self), *final(self)),
            SyncRun::keeps_pull(*old(self), *final(self)),
            SyncRun::keeps_apply(*old(self), *final(self)),
            final(self).phases@ == old(self).phases@.push(final(self).phases@.last()),
            reported(final(self).phases@.last(), SyncPhase::DeviceRegistration, "Device registered."@),
    {
        self.settings = settings;
        self.phases.push(phase_ok(SyncPhase::DeviceRegistration, "Device registered."));
    }

    /// The push to send: at most the configured number of the unsynced events, in order, after
    /// the stored checkpoint, with the run's credentials.
    pub fn push_request(&mut self, checkpoint: Option<String>, unsynced: Vec<SyncEvent>) -> (r: SyncPushRequest)
        ensures
            r.protocol_version@ == PROTOCOL_VERSION@,
            r.auth == run_auth(old(self).settings, old(self).device_id),
            r.base_checkpoint == checkpoint,
            r.events@ == unsynced@.take(
                if unsynced@.len() <= old(self).max_push_events { unsynced@.len() as int } else { old(self).max_push_events as int },
            ),
            final(self).checkpoint == checkpoint,
            final(self).pushed_event_count == r.events@.len(),
            final(self).pushed_event_ids@.len() == final(self).pushed_event_count,
            final(self).pushed_event_ids@.map_values(|s: String| s@) == r.events@.map_values(|e: SyncEvent| e.event_id@),
            SyncRun::keeps_setup(*old(self), *final(self)),
            final(self).accepted_event_count == old(self).accepted_event_count,
            final(self).rejected_event_count == old(self).rejected_event_count,
            SyncRun::keeps_pull(*old(self), *final(self)),
            SyncRun::keeps_apply(*old(self), *final(self)),
            final(self).phases == old(self).phases,
    {
        let mut events = unsynced;
        let ghost before = events@;
        events.truncate(self.max_push_events);
        let mut ids: Vec<String> = Vec::new();
        let mut i: usize = 0;
        while i < events.len()
            invariant
                i <= events@.len(),
                ids@.map_values(|s: String| s@) == events@.take(i as int).map_values(|e: SyncEvent| e.event_id@),
            decreases events@.len() - i,
        {
            let ghost old_ids = ids@;
            ids.push(events[i].event_id.clone());
            proof {
                assert(events@.take(i as int + 1) =~= events@.take(i as int).push(events@[i as int]));
                assert(ids@.map_values(|s: String| s@) =~= old_ids.map_values(|s: String| s@).push(events@[i as int].event_id@));
            }
            i = i + 1;
        }
        proof {
            assert(events@.take(events@.len() as int) =~= events@);
            if before.len() <= self.max_push_events {
                assert(before.take(before.len() as int) =~= before);
            }
        }
        self.pushed_event_count = events.len();
        self.pushed_event_ids = ids;
        self.checkpoint = crate::models::dup_opt_string(&checkpoint);
        SyncPushRequest {
            protocol_version: to_string(PROTOCOL_VERSION),
            auth: AuthContext {
                account_id: crate::models::dup_opt_string(&self.settings.account_id),
                user_id: crate::models::dup_opt_string(&self.settings.user_id),
                device_id: self.device_id.clone(),
                device_token: crate::models::dup_opt_string(&self.settings.device_token),
            },
            base_checkpoint: checkpoint,
            events,
        }
    }

    /// The server answered the push: the ids to mark as synced (those acknowledged that this run
    /// pushed, once each, in order); the push step is reported with its counts.
    pub fn pushed(&mut self, response: SyncPushResponse) -> (r: Vec<String>)
        ensures
            r@.map_values(|s: String| s@) == accepted_ids(
                old(self).pushed_event_ids@.map_values(|s: String| s@),
                response.accepted_event_ids@.map_values(|s: String| s@),
            ),
            final(self).accepted_event_count == r@.len(),
            old(self).pushed_event_ids@.len() == old(self).pushed_event_count
                ==> final(self).accepted_event_count <= final(self).pushed_event_count,
            final(self).rejected_event_count == response.rejected_events@.len(),
            final(self).phases@ == old(self).phases@.push(final(self).phases@.last()),
            reported(
                final(self).phases@.last(),
                SyncPhase::Push,
                push_message_text(final(self).accepted_event_count, final(self).rejected_event_count),
            ),
            SyncRun::keeps_setup(*old(self), *final(self)),
            final(self).checkpoint == old(self).checkpoint,
            final(self).pushed_event_ids == old(self).pushed_event_ids,
            final(self).pushed_event_count == old(self).pushed_event_count,
            SyncRun::keeps_pull(*old(self), *final(self)),
            SyncRun::keeps_apply(*old(self), *final(self)),
    {
        let rejected = response.rejected_events.len();
        let ids = filter_accepted_ids(&self.pushed_event_ids, response.accepted_event_ids);
        proof {
            lemma_accepted_within_pushed(
                self.pushed_event_ids@.map_values(|s: String| s@),
                response.accepted_event_ids@.map_values(|s: String| s@),
            );
        }
        self.accepted_event_count = ids.len();
        self.rejected_event_count = rejected;
        let message = push_message(ids.len(), rejected);
        self.phases.push(SyncPhaseResult::ok(SyncPhase::Push, Some(message)));
        ids
    }

    /// The pull to send: events after the checkpoint the run started from, at most the configured
    /// limit, with the run's credentials.
    pub fn pull_request(&self) -> (r: SyncPullRequest)
        ensures
            r.protocol_version@ == PROTOCOL_VERSION@,
            r.auth == run_auth(self.settings, self.device_id),
            r.after_checkpoint == self.checkpoint,
            r.limit == Some(self.pull_limit),
    {
        SyncPullRequest {
            protocol_version: to_string(PROTOCOL_VERSION),
            auth: AuthContext {
                account_id: crate::models::dup_opt_string(&self.settings.account_id),
                user_id: crate::models::dup_opt_string(&self.settings.user_id),
                device_id: self.device_id.clone(),
                device_token: crate::models::dup_opt_string(&self.settings.device_token),
            },
            after_checkpoint: crate::models::dup_opt_string(&self.checkpoint),
            limit: Some(self.pull_limit),
        }
    }

    /// The server answered the pull: the events to apply; the pull step is reported and the
    /// server's checkpoint kept, unless it is empty.
    pub fn pulled(&mut self, response: SyncPullResponse) -> (r: Vec<SyncEvent>)
        ensures
            r == response.events,
            final(self).pulled_event_count == response.events@.len(),
            response.server_checkpoint@.len() == 0 ==> final(self).server_checkpoint is None,
            response.server_checkpoint@.len() > 0 ==> final(self).server_checkpoint == Some(response.server_checkpoint),
            final(self).phases@ == old(self).phases@.push(final(self).phases@.last()),
            reported(
                final(self).phases@.last(),
                SyncPhase::Pull,
                "Pulled "@ + crate::text::int_text(response.events@.len() as int) + " server events."@,
            ),
            SyncRun::keeps_setup(*old(self), *final(self)),
            SyncRun::keeps_push(*old(self), *final(self)),
            SyncRun::keeps_apply(*old(self), *final(self)),
    {
        let n = response.events.len();
        self.pulled_event_count = n;
        self.server_checkpoint = next_checkpoint(response.server_checkpoint);
        self.phases.push(SyncPhaseResult::ok(SyncPhase::Pull, Some(pull_message(n))));
        response.events
    }

    /// The pulled events were applied: the checkpoint to store, if the server gave one; the
    /// remote-apply step is reported with the batch's counts.
    pub fn applied(&mut self, batch: &crate::sync::RemoteApplyBatchResult) -> (r: Option<String>)
        ensures
            r == old(self).server_checkpoint,
            final(self).server_checkpoint == old(self).server_checkpoint,
            final(self).applied_event_count == batch.applied_count,
            final(self).conflict_count == batch.conflict_count,
            final(self).auto_resolved_conflict_count == batch.auto_resolved_conflict_count,
            final(self).phases@ == old(self).phases@.push(final(self).phases@.last()),
            reported(
                final(self).phases@.last(),
                SyncPhase::RemoteApply,
                "Applied "@ + crate::text::int_text(batch.applied_count as int) + "; already applied "@
                    + crate::text::int_text(batch.already_applied_count as int) + "; skipped local echoes "@
                    + crate::text::int_text(batch.skipped_local_echo_count as int) + "."@,
            ),
            SyncRun::keeps_setup(*old(self), *final(self)),
            SyncRun::keeps_push(*old(self), *final(self)),
            final(self).pulled_event_count == old(self).pulled_event_count,
    {
        self.applied_event_count = batch.applied_count;
        self.conflict_count = batch.conflict_count;
        self.auto_resolved_conflict_count = batch.auto_resolved_conflict_count;
        let message = apply_message(batch.applied_count, batch.already_applied_count, batch.skipped_local_echo_count);
        self.phases.push(SyncPhaseResult::ok(SyncPhase::RemoteApply, Some(message)));
        crate::models::dup_opt_string(&self.server_checkpoint)
    }

    /// The success was recorded: the run's result, with the status step reported last.
    pub fn finish(self) -> (r: SyncOnceResult)
        ensures
            r.pushed_event_count == self.pushed_event_count,
            r.accepted_event_count == self.accepted_event_count,
            r.rejected_event_count == self.rejected_event_count,
            r.pulled_event_count == self.pulled_event_count,
            r.applied_event_count == self.applied_event_count,
            r.conflict_count == self.conflict_count,
            r.auto_resolved_conflict_count == self.auto_resolved_conflict_count,
            r.server_checkpoint == self.server_checkpoint,
            r.phases@ == self.phases@.push(r.phases@.last()),
            reported(r.phases@.last(), SyncPhase::StatusUpdate, "Sync status recorded as successful."@),
    {
        let mut phases = self.phases;
        phases.push(phase_ok(SyncPhase::StatusUpdate, "Sync status recorded as successful."));
        SyncOnceResult {
            pushed_event_count: self.pushed_event_count,
            accepted_event_count: self.accepted_event_count,
            rejected_event_count: self.rejected_event_count,
            pulled_event_count: self.pulled_event_count,
            applied_event_count: self.applied_event_count,
            conflict_count: self.conflict_count,
            auto_resolved_conflict_count: self.auto_resolved_conflict_count,
            server_checkpoint: self.server_checkpoint,
            phases,
        }
    }

    /// A step failed: the run ends with no checkpoint stored (only `applied` gives one), and
    /// the text returned is recorded as the sync's last error.
    pub fn failed(self, error: &SyncClientError) -> (r: String)
        ensures
            r@ == error.text(),
    {
        error.message()
    }
}

} // verus!
