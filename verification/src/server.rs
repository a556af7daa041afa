//! The sync server's rules: configuration, device registration and authentication, the
//! push and pull decisions, and the checkpoint format.
use vstd::prelude::*;
use crate::protocol::{
    is_compatible_protocol_version, AuthContext, DeviceRegistrationRequest,
    DeviceRegistrationResponse, ProtocolError, ProtocolErrorCode, RejectedSyncEvent,
    SyncHelloResponse, SyncPullResponse, SyncPushResponse, DEFAULT_AUTH_ISSUER,
    DEFAULT_SYNC_EVENT_LIMIT, MAX_SYNC_EVENT_LIMIT, PROTOCOL_VERSION,
};
use crate::sync::SyncEvent;
use crate::text::{
    find_char, first_index_of, push_str, slice, str_eq, to_string, trim, trim_spec,
};
use crate::time::{format_rfc3339_nanos, parse_rfc3339, rfc3339_instant, rfc3339_nanos_text, Timestamp};

verus! {

/// Where the server listens by default.
pub const DEFAULT_BIND_ADDR: &'static str = "127.0.0.1:8787";
/// The server's database file by default.
pub const DEFAULT_DATABASE_PATH: &'static str = "data/openmgmt-server.sqlite";
/// The server's name by default.
pub const DEFAULT_SERVER_NAME: &'static str = "OpenMgmt Sync Server";

/// The sync server's configuration.
#[derive(Clone, Debug)]
pub struct ServerConfig {
    pub bind_addr: String,
    pub database_path: String,
    pub server_name: String,
    pub server_version: Option<String>,
    /// The OAuth issuer of account auth; `None` disables account auth.
    pub auth_issuer: Option<String>,
}

impl ServerConfig {
    /// Account auth is required whenever an issuer is configured.
    pub fn account_auth_required(&self) -> (r: bool)
        ensures
            r == self.auth_issuer is Some,
    {
        self.auth_issuer.is_some()
    }
}

/// The configured issuer: unset means the default issuer, set but blank disables account
/// auth, and anything else is used trimmed.
pub fn auth_issuer_setting(value: Option<&str>) -> (r: Option<String>)
    ensures
        match value {
            None => r matches Some(s) && s@ == DEFAULT_AUTH_ISSUER@,
            Some(v) => if trim_spec(v@).len() == 0 {
                r is None
            } else {
                r matches Some(s) && s@ == trim_spec(v@)
            },
        },
{
    match value {
        None => Some(to_string(DEFAULT_AUTH_ISSUER)),
        Some(v) => {
            let t = trim(v);
            if t.unicode_len() == 0 {
                None
            } else {
                Some(to_string(t))
            }
        },
    }
}

/// The server's greeting to a client speaking `version`: compatible exactly when the versions
/// match, with an incompatible-version error otherwise.
pub fn hello_response(server_name: &str, server_version: Option<String>, version: &str) -> (r:
    SyncHelloResponse)
    ensures
        r.protocol_version@ == PROTOCOL_VERSION@,
        r.server_name@ == server_name@,
        r.server_version == server_version,
        r.compatible == (version@ == PROTOCOL_VERSION@),
        r.compatible ==> r.error is None,
        !r.compatible ==> (r.error matches Some(e) && e.code == ProtocolErrorCode::IncompatibleVersion
            && e.message@ == "incompatible protocol version: "@ + version@ && !e.retryable),
{
    let compatible = is_compatible_protocol_version(version);
    SyncHelloResponse {
        protocol_version: to_string(PROTOCOL_VERSION),
        server_name: to_string(server_name),
        server_version,
        compatible,
        error: if compatible {
            None
        } else {
            Some(ProtocolError::incompatible_version(version))
        },
    }
}

/// A device as the server registered it.
#[derive(Clone, Debug, PartialEq, Eq)]
pub struct RegisteredDevice {
    pub device_id: String,
    pub account_id: Option<String>,
    pub user_id: Option<String>,
    pub device_token: String,
}

/// The record of a (re-)registration: an existing device keeps its account, user and token
/// (a missing token is replaced by `fresh_token`); a new device gets none and `fresh_token`.
pub fn registered_device(
    device_id: &str,
    existing: Option<(Option<String>, Option<String>, Option<String>)>,
    fresh_token: String,
) -> (d: RegisteredDevice)
    ensures
        d.device_id@ == device_id@,
        match existing {
            Some((account_id, user_id, token)) => d.account_id == account_id && d.user_id
                == user_id && d.device_token == match token {
                Some(t) => t,
                None => fresh_token,
            },
            None => d.account_id is None && d.user_id is None && d.device_token == fresh_token,
        },
{
    match existing {
        Some((account_id, user_id, token)) => RegisteredDevice {
            device_id: to_string(device_id),
            account_id,
            user_id,
            device_token: match token {
                Some(t) => t,
                None => fresh_token,
            },
        },
        None => RegisteredDevice {
            device_id: to_string(device_id),
            account_id: None,
            user_id: None,
            device_token: fresh_token,
        },
    }
}

/// Register (or re-register) a device: the record of `registered_device`, with a fresh random
/// token where one is needed.
pub fn register_device_record(
    request: &DeviceRegistrationRequest,
    existing: Option<(Option<String>, Option<String>, Option<String>)>,
) -> (d: RegisteredDevice)
    ensures
        d.device_id@ == request.device_id@,
        match existing {
            Some((account_id, user_id, token)) => d.account_id == account_id && d.user_id
                == user_id && match token {
                Some(t) => d.device_token == t,
                None => d.device_token@.len() == 36,
            },
            None => d.account_id is None && d.user_id is None && d.device_token@.len() == 36,
        },
{
    let fresh = crate::crypto::new_uuid();
    registered_device(request.device_id.as_str(), existing, fresh)
}

/// The answer to a registration: refused with an incompatible-version error when the client
/// speaks another version, else accepted with the device's account, user and token.
pub fn registration_response(version: &str, device: Option<RegisteredDevice>) -> (r:
    DeviceRegistrationResponse)
    requires
        version@ == PROTOCOL_VERSION@ ==> device is Some,
    ensures
        version@ != PROTOCOL_VERSION@ ==> !r.accepted && r.account_id is None && r.user_id is None
            && r.device_token is None && (r.error matches Some(e) && e.code
            == ProtocolErrorCode::IncompatibleVersion),
        version@ == PROTOCOL_VERSION@ ==> (device matches Some(d) && r.accepted && r.account_id
            == d.account_id && r.user_id == d.user_id && r.device_token == Some(d.device_token)
            && r.error is None),
{
    if !is_compatible_protocol_version(version) {
        return DeviceRegistrationResponse {
            accepted: false,
            account_id: None,
            user_id: None,
            device_token: None,
            error: Some(ProtocolError::incompatible_version(version)),
        };
    }
    match device {
        Some(d) => DeviceRegistrationResponse {
            accepted: true,
            account_id: d.account_id,
            user_id: d.user_id,
            device_token: Some(d.device_token),
            error: None,
        },
        None => DeviceRegistrationResponse {
            accepted: false,
            account_id: None,
            user_id: None,
            device_token: None,
            error: None,
        },
    }
}

/// The characters of an optional string.
pub open spec fn opt_view(v: Option<String>) -> Option<Seq<char>> {
    match v {
        Some(s) => Some(s@),
        None => None,
    }
}

/// Whether a request's credentials match the server's record of the device: the device must
/// be registered, and the presented token must equal the stored one (both absent counts as
/// equal).
pub fn device_authenticated(stored: Option<Option<String>>, auth: &AuthContext) -> (r: bool)
    ensures
        r == match stored {
            None => false,
            Some(token) => opt_view(token) == opt_view(auth.device_token),
        },
{
    match stored {
        None => false,
        Some(token) => match (&token, &auth.device_token) {
            (Some(a), Some(b)) => str_eq(a.as_str(), b.as_str()),
            (None, None) => true,
            _ => false,
        },
    }
}

/// The error of a request from an unregistered device or with a wrong token.
pub fn unauthorized() -> (e: ProtocolError)
    ensures
        e.code == ProtocolErrorCode::Unauthorized,
        e.message@ == "device is not registered or token is invalid"@,
        !e.retryable,
{
    ProtocolError::new(
        ProtocolErrorCode::Unauthorized,
        "device is not registered or token is invalid",
        false,
    )
}

/// A push answer carrying only an error.
pub fn push_error(error: ProtocolError) -> (r: SyncPushResponse)
    ensures
        r.accepted_event_ids@.len() == 0,
        r.rejected_events@.len() == 0,
        r.server_checkpoint@.len() == 0,
        r.error == Some(error),
{
    SyncPushResponse {
        accepted_event_ids: Vec::new(),
        rejected_events: Vec::new(),
        server_checkpoint: String::new(),
        error: Some(error),
    }
}

/// A pull answer carrying only an error.
pub fn pull_error(error: ProtocolError) -> (r: SyncPullResponse)
    ensures
        r.events@.len() == 0,
        r.server_checkpoint@.len() == 0,
        !r.has_more,
        r.error == Some(error),
{
    SyncPullResponse {
        events: Vec::new(),
        server_checkpoint: String::new(),
        has_more: false,
        error: Some(error),
    }
}

/// The number of events a pull returns: the requested limit (500 when none) kept between 1 and
/// 2000.
pub fn pull_limit(requested: Option<u32>) -> (n: u32)
    ensures
        n == ({
            let v = match requested {
                Some(v) => v,
                None => DEFAULT_SYNC_EVENT_LIMIT,
            };
            if v < 1 {
                1
            } else if v > MAX_SYNC_EVENT_LIMIT {
                MAX_SYNC_EVENT_LIMIT
            } else {
                v
            }
        }),
        1 <= n <= MAX_SYNC_EVENT_LIMIT,
{
    let v = match requested {
        Some(v) => v,
        None => DEFAULT_SYNC_EVENT_LIMIT,
    };
    if v < 1 {
        1
    } else if v > MAX_SYNC_EVENT_LIMIT {
        MAX_SYNC_EVENT_LIMIT
    } else {
        v
    }
}

/// What the server does with one pushed event.
#[derive(Clone, Debug, PartialEq, Eq)]
pub enum PushVerdict {
    /// Already stored: acknowledged again, not stored twice.
    AlreadyStored,
    /// The device's sequence number belongs to another stored event: refused.
    Rejected(RejectedSyncEvent),
    /// New: stored and acknowledged.
    Store,
}

/// `device sequence already belongs to event {owner}`
pub open spec fn sequence_conflict_text(owner: Seq<char>) -> Seq<char> {
    "device sequence already belongs to event "@ + owner
}

/// Decide a pushed event, given whether its id is stored and which stored event, if any, holds
/// its device's sequence number.
pub fn push_verdict(event_id: &str, already_stored: bool, sequence_owner: Option<&str>) -> (v:
    PushVerdict)
    ensures
        already_stored ==> v == PushVerdict::AlreadyStored,
        !already_stored && sequence_owner is None ==> v == PushVerdict::Store,
        !already_stored ==> match sequence_owner {
            Some(owner) => v matches PushVerdict::Rejected(r) && r.event_id@ == event_id@
                && r.error.code == ProtocolErrorCode::Conflict && !r.error.retryable
                && r.error.message@ == sequence_conflict_text(owner@),
            None => true,
        },
{
    if already_stored {
        return PushVerdict::AlreadyStored;
    }
    match sequence_owner {
        Some(owner) => {
            let mut m = to_string("device sequence already belongs to event ");
            push_str(&mut m, owner);
            PushVerdict::Rejected(
                RejectedSyncEvent {
                    event_id: to_string(event_id),
                    error: ProtocolError { code: ProtocolErrorCode::Conflict, message: m, retryable: false },
                },
            )
        },
        None => PushVerdict::Store,
    }
}

/// What deciding a pushed batch has reached: the ids stored so far, each stored event's
/// (device, sequence, id), the acknowledged ids, the refused events with the event holding
/// their sequence, and the positions of the events to store.
pub struct PushState {
    pub ids: Seq<Seq<char>>,
    pub owners: Seq<(Seq<char>, i64, Seq<char>)>,
    pub accepted: Seq<Seq<char>>,
    pub rejected: Seq<(Seq<char>, Seq<char>)>,
    pub stored: Seq<int>,
}

/// The id of the first stored event of `device` with sequence number `sequence`.
pub open spec fn sequence_owner(owners: Seq<(Seq<char>, i64, Seq<char>)>, device: Seq<char>, sequence: i64) -> Option<
    Seq<char>,
>
    decreases owners.len(),
{
    if owners.len() == 0 {
        None
    } else if owners[0].0 == device && owners[0].1 == sequence {
        Some(owners[0].2)
    } else {
        sequence_owner(owners.drop_first(), device, sequence)
    }
}

/// Decide the event at position `k`: an id already stored is acknowledged again; a sequence
/// number another stored event holds is refused; otherwise the event is stored and
/// acknowledged, and later events of the batch see it.
pub open spec fn push_step(s: PushState, e: SyncEvent, k: int) -> PushState {
    if s.ids.contains(e.event_id@) {
        PushState { accepted: s.accepted.push(e.event_id@), ..s }
    } else {
        match sequence_owner(s.owners, e.device_id@, e.sequence) {
            Some(owner) => PushState { rejected: s.rejected.push((e.event_id@, owner)), ..s },
            None => PushState {
                ids: s.ids.push(e.event_id@),
                owners: s.owners.push((e.device_id@, e.sequence, e.event_id@)),
                accepted: s.accepted.push(e.event_id@),
                stored: s.stored.push(k),
                ..s
            },
        }
    }
}

/// Law: a stored event holds a sequence number only for its own device. The owner found for a
/// (device, sequence) pair is a stored event of that same device with that same sequence
/// number, and none is found exactly when no stored event of the device has that number.
pub proof fn lemma_sequence_owner_same_device(
    owners: Seq<(Seq<char>, i64, Seq<char>)>,
    device: Seq<char>,
    sequence: i64,
)
    ensures
        sequence_owner(owners, device, sequence) matches Some(o) ==> exists|i: int|
            0 <= i < owners.len() && #[trigger] owners[i] == (device, sequence, o),
        sequence_owner(owners, device, sequence) is None <==> forall|i: int|
            0 <= i < owners.len() ==> !((#[trigger] owners[i]).0 == device && owners[i].1 == sequence),
    decreases owners.len(),
{
    if owners.len() > 0 {
        let rest = owners.drop_first();
        lemma_sequence_owner_same_device(rest, device, sequence);
        if !(owners[0].0 == device && owners[0].1 == sequence) {
            if let Some(o) = sequence_owner(owners, device, sequence) {
                let i = choose|i: int| 0 <= i < rest.len() && #[trigger] rest[i] == (device, sequence, o);
                assert(owners[i + 1] == rest[i]);
            }
            assert forall|i: int| 0 < i < owners.len() implies owners[i] == rest[i - 1] by {}
        } else {
            assert(owners[0] == (device, sequence, owners[0].2));
        }
    }
}

/// Law: a pushed event whose id is new and whose sequence number no stored event of its own
/// device holds is stored and acknowledged, whatever other devices used that number; an event
/// is refused only for a stored event of its own device with its sequence number.
pub proof fn lemma_push_step_per_device(s: PushState, e: SyncEvent, k: int)
    ensures
        !s.ids.contains(e.event_id@) && (forall|i: int|
            0 <= i < s.owners.len() ==> !((#[trigger] s.owners[i]).0 == e.device_id@ && s.owners[i].1
                == e.sequence)) ==> {
            let r = push_step(s, e, k);
            &&& r.accepted == s.accepted.push(e.event_id@)
            &&& r.stored == s.stored.push(k)
            &&& r.rejected == s.rejected
        },
        push_step(s, e, k).rejected.len() > s.rejected.len() ==> exists|i: int|
            0 <= i < s.owners.len() && #[trigger] s.owners[i] == (
                e.device_id@,
                e.sequence,
                push_step(s, e, k).rejected.last().1,
            ),
{
    lemma_sequence_owner_same_device(s.owners, e.device_id@, e.sequence);
}

/// The decisions on the first `n` events of a batch, from what the store held before it.
pub open spec fn push_fold(
    events: Seq<SyncEvent>,
    ids: Seq<Seq<char>>,
    owners: Seq<(Seq<char>, i64, Seq<char>)>,
    n: nat,
) -> PushState
    decreases n,
{
    if n == 0 {
        PushState { ids, owners, accepted: Seq::empty(), rejected: Seq::empty(), stored: Seq::empty() }
    } else {
        push_step(push_fold(events, ids, owners, (n - 1) as nat), events[n - 1], n - 1)
    }
}

/// The decisions on a pushed batch: the acknowledged ids, the refused events and the positions
/// of the events to store, in the batch's order.
pub struct PushPlan {
    pub accepted_event_ids: Vec<String>,
    pub rejected_events: Vec<RejectedSyncEvent>,
    pub to_store: Vec<usize>,
}

fn holds_id(ids: &Vec<String>, id: &str) -> (r: bool)
    ensures
        r == ids@.map_values(|t: String| t@).contains(id@),
{
    let ghost m = ids@.map_values(|t: String| t@);
    let mut i: usize = 0;
    while i < ids.len()
        invariant
            i <= ids@.len(),
            m == ids@.map_values(|t: String| t@),
            forall|k: int| 0 <= k < i ==> m[k] != id@,
        decreases ids@.len() - i,
    {
        if str_eq(ids[i].as_str(), id) {
            assert(m[i as int] == id@);
            return true;
        }
        i = i + 1;
    }
    false
}

/// The view of the stored (device, sequence, id) triples.
pub open spec fn owner_views(owners: Seq<(String, i64, String)>) -> Seq<(Seq<char>, i64, Seq<char>)> {
    owners.map_values(|o: (String, i64, String)| (o.0@, o.1, o.2@))
}

fn find_owner<'a>(owners: &'a Vec<(String, i64, String)>, device: &str, sequence: i64) -> (r: Option<&'a str>)
    ensures
        match r {
            Some(o) => sequence_owner(owner_views(owners@), device@, sequence) == Some(o@),
            None => sequence_owner(owner_views(owners@), device@, sequence) is None,
        },
{
    let ghost m = owner_views(owners@);
    let mut i: usize = 0;
    proof {
        assert(m.skip(0) =~= m);
    }
    while i < owners.len()
        invariant
            i <= owners@.len(),
            m == owner_views(owners@),
            sequence_owner(m, device@, sequence) == sequence_owner(m.skip(i as int), device@, sequence),
        decreases owners@.len() - i,
    {
        proof {
            assert(m.skip(i as int).drop_first() =~= m.skip(i as int + 1));
            assert(m.skip(i as int)[0] == m[i as int]);
        }
        if str_eq(owners[i].0.as_str(), device) && owners[i].1 == sequence {
            return Some(owners[i].2.as_str());
        }
        i = i + 1;
    }
    None
}

/// Decide a pushed batch in order against what the store held: each event is acknowledged,
/// refused or stored as `push_step` says, and an event stored earlier in the batch counts as
/// stored for the later ones (so a repeated id is acknowledged twice and stored once).
pub fn plan_push(
    events: &[SyncEvent],
    stored_ids: Vec<String>,
    stored_owners: Vec<(String, i64, String)>,
) -> (plan: PushPlan)
    ensures
        ({
            let s = push_fold(
                events@,
                stored_ids@.map_values(|t: String| t@),
                owner_views(stored_owners@),
                events@.len(),
            );
            &&& plan.accepted_event_ids@.map_values(|t: String| t@) == s.accepted
            &&& plan.to_store@.map_values(|k: usize| k as int) == s.stored
            &&& plan.rejected_events@.len() == s.rejected.len()
            &&& forall|i: int|
                0 <= i < s.rejected.len() ==> {
                    let r = #[trigger] plan.rejected_events@[i];
                    &&& r.event_id@ == s.rejected[i].0
                    &&& r.error.code == ProtocolErrorCode::Conflict
                    &&& !r.error.retryable
                    &&& r.error.message@ == sequence_conflict_text(s.rejected[i].1)
                }
        }),
{
    let ghost ids0 = stored_ids@.map_values(|t: String| t@);
    let ghost owners0 = owner_views(stored_owners@);
    let mut ids = stored_ids;
    let mut owners = stored_owners;
    let mut accepted: Vec<String> = Vec::new();
    let mut rejected: Vec<RejectedSyncEvent> = Vec::new();
    let mut to_store: Vec<usize> = Vec::new();
    let mut k: usize = 0;
    proof {
        assert(accepted@.map_values(|t: String| t@) =~= Seq::<Seq<char>>::empty());
        assert(to_store@.map_values(|j: usize| j as int) =~= Seq::<int>::empty());
    }
    while k < events.len()
        invariant
            k <= events@.len(),
            ({
                let s = push_fold(events@, ids0, owners0, k as nat);
                &&& ids@.map_values(|t: String| t@) == s.ids
                &&& owner_views(owners@) == s.owners
                &&& accepted@.map_values(|t: String| t@) == s.accepted
                &&& to_store@.map_values(|j: usize| j as int) == s.stored
                &&& rejected@.len() == s.rejected.len()
                &&& forall|i: int|
                    0 <= i < s.rejected.len() ==> {
                        let r = #[trigger] rejected@[i];
                        &&& r.event_id@ == s.rejected[i].0
                        &&& r.error.code == ProtocolErrorCode::Conflict
                        &&& !r.error.retryable
                        &&& r.error.message@ == sequence_conflict_text(s.rejected[i].1)
                    }
            }),
        decreases events@.len() - k,
    {
        let ghost s = push_fold(events@, ids0, owners0, k as nat);
        let e = &events[k];
        let already = holds_id(&ids, e.event_id.as_str());
        let owner = find_owner(&owners, e.device_id.as_str(), e.sequence);
        let verdict = push_verdict(e.event_id.as_str(), already, owner);
        let ghost acc0 = accepted@;
        let ghost rej0 = rejected@;
        let ghost st0 = to_store@;
        let ghost ids_before = ids@;
        let ghost owners_before = owners@;
        match verdict {
            PushVerdict::AlreadyStored => {
                accepted.push(e.event_id.clone());
                proof {
                    assert(accepted@.map_values(|t: String| t@) =~= acc0.map_values(|t: String| t@).push(e.event_id@));
                }
            },
            PushVerdict::Rejected(r) => {
                rejected.push(r);
                proof {
                    assert forall|i: int| 0 <= i < rejected@.len() implies rejected@[i] == if i < rej0.len() {
                        rej0[i]
                    } else {
                        rejected@[i]
                    } by {}
                }
            },
            PushVerdict::Store => {
                accepted.push(e.event_id.clone());
                ids.push(e.event_id.clone());
                owners.push((e.device_id.clone(), e.sequence, e.event_id.clone()));
                to_store.push(k);
                proof {
                    assert(accepted@.map_values(|t: String| t@) =~= acc0.map_values(|t: String| t@).push(e.event_id@));
                    assert(ids@.map_values(|t: String| t@) =~= ids_before.map_values(|t: String| t@).push(e.event_id@));
                    assert(owner_views(owners@) =~= owner_views(owners_before).push((e.device_id@, e.sequence, e.event_id@)));
                    assert(to_store@.map_values(|j: usize| j as int) =~= st0.map_values(|j: usize| j as int).push(k as int));
                }
            },
        }
        k = k + 1;
    }
    PushPlan { accepted_event_ids: accepted, rejected_events: rejected, to_store }
}

/// The outcome of a push: acknowledged ids, refused events and the checkpoint after it.
#[derive(Clone, Debug, PartialEq, Eq)]
pub struct PushResult {
    pub accepted_event_ids: Vec<String>,
    pub rejected_events: Vec<RejectedSyncEvent>,
    pub server_checkpoint: String,
}

/// The checkpoint text of a stored event: its receipt time (RFC 3339 with nanoseconds) and id,
/// joined by `|`.
pub open spec fn checkpoint_text(received_at: Timestamp, event_id: Seq<char>) -> Seq<char> {
    rfc3339_nanos_text(received_at) + "|"@ + event_id
}

/// The checkpoint of a stored event.
/// Law (in the `ensures`): a checkpoint reads back as the receipt time and event id it was made
/// from, whenever the event id is not empty.
pub fn make_checkpoint(received_at: Timestamp, event_id: &str) -> (s: String)
    ensures
        s@ == checkpoint_text(received_at, event_id@),
        event_id@.len() > 0 ==> checkpoint_parts(s@) == Some((received_at, event_id@)),
{
    let mut s = format_rfc3339_nanos(received_at);
    push_str(&mut s, "|");
    push_str(&mut s, event_id);
    proof {
        if event_id@.len() > 0 {
            lemma_checkpoint_round_trip(received_at, event_id@);
        }
    }
    s
}

/// What a checkpoint text names: the text before its first `|` must be an RFC 3339 instant,
/// and the event id after it must not be empty.
pub open spec fn checkpoint_parts(s: Seq<char>) -> Option<(Timestamp, Seq<char>)> {
    let k = first_index_of(s, '|');
    if k < s.len() {
        let id = s.subrange(k + 1, s.len() as int);
        match rfc3339_instant(s.subrange(0, k)) {
            Some(t) => if id.len() > 0 {
                Some((t, id))
            } else {
                None
            },
            None => None,
        }
    } else {
        None
    }
}

/// Read a checkpoint: its receipt time and event id.
pub fn parse_checkpoint(value: &str) -> (r: Option<(Timestamp, String)>)
    ensures
        match (r, checkpoint_parts(value@)) {
            (Some((t, id)), Some((t2, id2))) => t == t2 && id@ == id2,
            (None, None) => true,
            _ => false,
        },
{
    let n = value.unicode_len();
    let k = find_char(value, '|');
    if k >= n {
        return None;
    }
    let at = slice(value, 0, k);
    let id = slice(value, k + 1, n);
    match parse_rfc3339(at) {
        Some(t) => if id.unicode_len() > 0 {
            Some((t, to_string(id)))
        } else {
            None
        },
        None => None,
    }
}

proof fn lemma_checkpoint_round_trip(received_at: Timestamp, event_id: Seq<char>)
    requires
        event_id.len() > 0,
        !rfc3339_nanos_text(received_at).contains('|'),
        rfc3339_instant(rfc3339_nanos_text(received_at)) == Some(received_at),
    ensures
        checkpoint_parts(checkpoint_text(received_at, event_id)) == Some((received_at, event_id)),
{
    reveal_strlit("|");
    let a = rfc3339_nanos_text(received_at);
    let s = checkpoint_text(received_at, event_id);
    assert(s[a.len() as int] == '|');
    crate::text::lemma_first_found(s, '|');
    assert forall|i: int| 0 <= i < a.len() implies s[i] != '|' by {
        assert(s[i] == a[i]);
        if a[i] == '|' {
            assert(a.contains('|'));
        }
    }
    crate::text::lemma_first_index_is(s, '|', a.len() as int);
    assert(s.subrange(0, a.len() as int) =~= a);
    assert(s.subrange(a.len() as int + 1, s.len() as int) =~= event_id);
}

/// How a fetched page of up to `limit + 1` events is cut: more remain when more than `limit`
/// were fetched, and only the first `limit` are returned.
pub fn page_cut(fetched: usize, limit: u32) -> (r: (usize, bool))
    ensures
        r.1 == (fetched > limit),
        r.0 == (if fetched > limit {
            limit as usize
        } else {
            fetched
        }),
{
    if fetched > limit as usize {
        (limit as usize, true)
    } else {
        (fetched, false)
    }
}

} // verus!
