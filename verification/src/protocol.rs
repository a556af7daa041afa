//! The OpenMGMT sync protocol: version, error shapes and messages, and the account-auth rules
//! shared by the sync server and the MCP transport.
use vstd::prelude::*;
use crate::crypto::{hex_text, sha256_digest, sha256_hex};
use crate::sync::SyncEvent;
use crate::text::{push_str, str_eq, to_string, trim_end_char, trim_end_matches_char};

verus! {

/// The protocol's name.
pub const PROTOCOL_NAME: &'static str = "OpenMGMT Protocol";
/// The protocol version this build speaks.
pub const PROTOCOL_VERSION: &'static str = "omgp/1";
/// The oldest protocol version this build accepts.
pub const MIN_COMPATIBLE_VERSION: &'static str = "omgp/1";
/// Events a pull returns when the request names no limit.
pub const DEFAULT_SYNC_EVENT_LIMIT: u32 = 500;
/// The most events one pull returns.
pub const MAX_SYNC_EVENT_LIMIT: u32 = 2000;

/// Whether a peer's protocol version is compatible: it must be exactly this build's version.
pub fn is_compatible_protocol_version(value: &str) -> (r: bool)
    ensures
        r == (value@ == PROTOCOL_VERSION@),
{
    str_eq(value, PROTOCOL_VERSION)
}

/// What went wrong with a sync protocol request.
#[derive(Clone, Copy, Debug, PartialEq, Eq, Structural)]
pub enum ProtocolErrorCode {
    IncompatibleVersion,
    InvalidRequest,
    Unauthorized,
    Forbidden,
    Conflict,
    PayloadTooLarge,
    RateLimited,
    ServerError,
}

/// An error answer of the sync protocol.
#[derive(Clone, Debug, PartialEq, Eq)]
pub struct ProtocolError {
    pub code: ProtocolErrorCode,
    pub message: String,
    pub retryable: bool,
}

impl ProtocolError {
    /// An error with the given code, message and retryability.
    pub fn new(code: ProtocolErrorCode, message: &str, retryable: bool) -> (e: Self)
        ensures
            e.code == code,
            e.message@ == message@,
            e.retryable == retryable,
    {
        ProtocolError { code, message: to_string(message), retryable }
    }

    /// A malformed request; retrying it will not help.
    pub fn invalid_request(message: &str) -> (e: Self)
        ensures
            e.code == ProtocolErrorCode::InvalidRequest,
            e.message@ == message@,
            !e.retryable,
    {
        Self::new(ProtocolErrorCode::InvalidRequest, message, false)
    }

    /// A peer speaking another protocol version; retrying will not help.
    pub fn incompatible_version(version: &str) -> (e: Self)
        ensures
            e.code == ProtocolErrorCode::IncompatibleVersion,
            e.message@ == "incompatible protocol version: "@ + version@,
            !e.retryable,
    {
        let mut m = to_string("incompatible protocol version: ");
        push_str(&mut m, version);
        ProtocolError { code: ProtocolErrorCode::IncompatibleVersion, message: m, retryable: false }
    }

    /// A failure on the server's side; the request may be retried.
    pub fn server_error(message: &str) -> (e: Self)
        ensures
            e.code == ProtocolErrorCode::ServerError,
            e.message@ == message@,
            e.retryable,
    {
        Self::new(ProtocolErrorCode::ServerError, message, true)
    }
}

/// Who a sync request speaks for.
#[derive(Clone, Debug, PartialEq, Eq)]
pub struct AuthContext {
    pub account_id: Option<String>,
    pub user_id: Option<String>,
    pub device_id: String,
    pub device_token: Option<String>,
}

/// A device asking to be registered.
#[derive(Clone, Debug, PartialEq, Eq)]
pub struct DeviceRegistrationRequest {
    pub protocol_version: String,
    pub device_id: String,
    pub device_name: String,
    pub user_hint: Option<String>,
}

/// The server's answer to a registration.
#[derive(Clone, Debug, PartialEq, Eq)]
pub struct DeviceRegistrationResponse {
    pub accepted: bool,
    pub account_id: Option<String>,
    pub user_id: Option<String>,
    pub device_token: Option<String>,
    pub error: Option<ProtocolError>,
}

/// A client's greeting.
#[derive(Clone, Debug, PartialEq, Eq)]
pub struct SyncHelloRequest {
    pub protocol_version: String,
    pub client_name: String,
    pub client_version: Option<String>,
    pub device_id: Option<String>,
}

/// The server's greeting.
#[derive(Clone, Debug, PartialEq, Eq)]
pub struct SyncHelloResponse {
    pub protocol_version: String,
    pub server_name: String,
    pub server_version: Option<String>,
    pub compatible: bool,
    pub error: Option<ProtocolError>,
}

/// Local events a client sends.
#[derive(Clone, Debug)]
pub struct SyncPushRequest {
    pub protocol_version: String,
    pub auth: AuthContext,
    pub base_checkpoint: Option<String>,
    pub events: Vec<SyncEvent>,
}

/// A pushed event the server refused, and why.
#[derive(Clone, Debug, PartialEq, Eq)]
pub struct RejectedSyncEvent {
    pub event_id: String,
    pub error: ProtocolError,
}

/// The server's answer to a push.
#[derive(Clone, Debug, PartialEq, Eq)]
pub struct SyncPushResponse {
    pub accepted_event_ids: Vec<String>,
    pub rejected_events: Vec<RejectedSyncEvent>,
    pub server_checkpoint: String,
    pub error: Option<ProtocolError>,
}

/// A client asking for events after a checkpoint.
#[derive(Clone, Debug, PartialEq, Eq)]
pub struct SyncPullRequest {
    pub protocol_version: String,
    pub auth: AuthContext,
    pub after_checkpoint: Option<String>,
    pub limit: Option<u32>,
}

/// The server's answer to a pull.
#[derive(Clone, Debug)]
pub struct SyncPullResponse {
    pub events: Vec<SyncEvent>,
    pub server_checkpoint: String,
    pub has_more: bool,
    pub error: Option<ProtocolError>,
}

/// Any message of the protocol, tagged by its kind.
#[derive(Clone, Debug)]
pub enum ProtocolMessage {
    HelloRequest(SyncHelloRequest),
    HelloResponse(SyncHelloResponse),
    DeviceRegistrationRequest(DeviceRegistrationRequest),
    DeviceRegistrationResponse(DeviceRegistrationResponse),
    SyncPushRequest(SyncPushRequest),
    SyncPushResponse(SyncPushResponse),
    SyncPullRequest(SyncPullRequest),
    SyncPullResponse(SyncPullResponse),
    Error(ProtocolError),
}

/// The default OAuth issuer of account auth.
pub const DEFAULT_AUTH_ISSUER: &'static str = "https://auth.blackcandletech.com";

/// How long a successful userinfo validation is cached, in seconds.
pub const USERINFO_CACHE_TTL_SECONDS: u64 = 300;

/// The scope assumed when the issuer reports none: the historical full-access scope.
pub const DEFAULT_SCOPE: &'static str = "identity";

/// A validated account.
#[derive(Clone, Debug, PartialEq, Eq)]
pub struct AccountIdentity {
    pub user_id: String,
    pub email: String,
    pub email_verified: bool,
    pub scope: String,
}

/// Why an access token was not accepted.
#[derive(Clone, Debug, PartialEq, Eq)]
pub enum AccountAuthError {
    InvalidToken,
    EmailUnverified,
    Issuer(String),
}

impl AccountAuthError {
    /// The error's message text.
    pub open spec fn text(self) -> Seq<char> {
        match self {
            AccountAuthError::InvalidToken => "invalid or expired access token"@,
            AccountAuthError::EmailUnverified => "account email is not verified"@,
            AccountAuthError::Issuer(m) => "account issuer error: "@ + m@,
        }
    }

    /// The error's message.
    pub fn message(&self) -> (s: String)
        ensures
            s@ == self.text(),
    {
        match self {
            AccountAuthError::InvalidToken => to_string("invalid or expired access token"),
            AccountAuthError::EmailUnverified => to_string("account email is not verified"),
            AccountAuthError::Issuer(m) => {
                let mut s = to_string("account issuer error: ");
                push_str(&mut s, m.as_str());
                s
            },
        }
    }
}

/// The userinfo endpoint of an issuer: its base URL without trailing slashes, then
/// `/oauth/userinfo`.
pub fn userinfo_url(issuer: &str) -> (s: String)
    ensures
        s@ == trim_end_char(issuer@, '/') + "/oauth/userinfo"@,
{
    let mut s = to_string(trim_end_matches_char(issuer, '/'));
    push_str(&mut s, "/oauth/userinfo");
    s
}

/// The key a validated token is cached under: the hex SHA-256 digest of the token, so the
/// token itself is never kept.
pub fn token_cache_key(bearer_token: &str) -> (s: String)
    ensures
        s@ == hex_text(sha256_digest(vstd::utf8::encode_utf8(bearer_token@))),
        s@.len() == 64,
{
    sha256_hex(bearer_token)
}

/// Whether a cached validation made `elapsed_seconds` ago still stands.
pub fn cache_entry_fresh(elapsed_seconds: u64) -> (r: bool)
    ensures
        r == (elapsed_seconds < USERINFO_CACHE_TTL_SECONDS),
{
    elapsed_seconds < USERINFO_CACHE_TTL_SECONDS
}

/// What the userinfo endpoint's HTTP status means.
#[derive(Clone, Copy, Debug, PartialEq, Eq, Structural)]
pub enum UserInfoStep {
    /// 200: read the identity from the body.
    ReadIdentity,
    /// 401: the token is invalid or expired.
    InvalidToken,
    /// 403: the account's email is not verified.
    EmailUnverified,
    /// Anything else: an issuer error.
    UnexpectedStatus,
}

/// What the userinfo endpoint's HTTP status means.
pub fn userinfo_step(status: u16) -> (s: UserInfoStep)
    ensures
        s == (if status == 200 {
            UserInfoStep::ReadIdentity
        } else if status == 401 {
            UserInfoStep::InvalidToken
        } else if status == 403 {
            UserInfoStep::EmailUnverified
        } else {
            UserInfoStep::UnexpectedStatus
        }),
{
    if status == 200 {
        UserInfoStep::ReadIdentity
    } else if status == 401 {
        UserInfoStep::InvalidToken
    } else if status == 403 {
        UserInfoStep::EmailUnverified
    } else {
        UserInfoStep::UnexpectedStatus
    }
}

/// The identity a userinfo body describes: refused unless the email is verified; the scope
/// defaults to `identity` when the issuer reports none.
pub fn identity_from_userinfo(
    id: String,
    email: String,
    email_verified: bool,
    scope: Option<String>,
) -> (r: Result<AccountIdentity, AccountAuthError>)
    ensures
        !email_verified ==> r == Err::<AccountIdentity, AccountAuthError>(
            AccountAuthError::EmailUnverified,
        ),
        email_verified ==> (r matches Ok(i) && i.user_id@ == id@ && i.email@ == email@
            && i.email_verified && i.scope@ == match scope {
            Some(s) => s@,
            None => DEFAULT_SCOPE@,
        }),
{
    if !email_verified {
        return Err(AccountAuthError::EmailUnverified);
    }
    Ok(
        AccountIdentity {
            user_id: id,
            email,
            email_verified: true,
            scope: match scope {
                Some(s) => s,
                None => to_string(DEFAULT_SCOPE),
            },
        },
    )
}

} // verus!
