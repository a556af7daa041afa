//! The GPT Actions bridge's rules: configuration, bearer auth with a constant-time compare,
//! write logging, request clean-up, task filters and the summary and today views.
use vstd::prelude::*;
use crate::error::CoreError;
use crate::mcp::list_items;
use crate::models::{BoardState, ScoredTask, TaskStatus, TaskWithContext};
use crate::review::{count_where, past_due};
use crate::text::{
    ascii_lower, char_utf8_width, eq_ignore_ascii_case, equals_ignore_ascii_case, push_str, slice,
    str_eq, strip_prefix, to_string, trim, trim_spec,
};
use crate::time::Timestamp;

verus! {

/// The most tasks one listing returns.
pub const MAX_TASK_LIMIT: usize = 200;
/// Where the bridge listens by default.
pub const DEFAULT_BRIDGE_BIND_ADDR: &'static str = "127.0.0.1:8790";

/// The bridge's configuration.
#[derive(Clone, Debug)]
pub struct GptBridgeConfig {
    pub api_token: String,
    pub write_enabled: bool,
    pub bind_addr: String,
    pub database_path: String,
    pub cors_origin: Option<String>,
}

/// The configured API token: required, and not blank.
pub fn check_api_token(value: Option<&str>) -> (r: Result<String, String>)
    ensures
        match value {
            None => r matches Err(m) && m@ == "OPENMGMT_GPT_API_TOKEN is required"@,
            Some(v) => if trim_spec(v@).len() == 0 {
                r matches Err(m) && m@ == "OPENMGMT_GPT_API_TOKEN cannot be empty"@
            } else {
                r matches Ok(t) && t@ == v@
            },
        },
{
    match value {
        None => Err(to_string("OPENMGMT_GPT_API_TOKEN is required")),
        Some(v) => if trim(v).unicode_len() == 0 {
            Err(to_string("OPENMGMT_GPT_API_TOKEN cannot be empty"))
        } else {
            Ok(to_string(v))
        },
    }
}

/// Whether a setting switches a flag on: `1`, `true`, `yes` or `on` in any ASCII case, ignoring
/// surrounding white space; an unset setting leaves `default`.
pub open spec fn flag_on(value: Option<Seq<char>>, default: bool) -> bool {
    match value {
        Some(v) => {
            let t = trim_spec(v);
            eq_ignore_ascii_case(t, "1"@) || eq_ignore_ascii_case(t, "true"@) || eq_ignore_ascii_case(
                t,
                "yes"@,
            ) || eq_ignore_ascii_case(t, "on"@)
        },
        None => default,
    }
}

/// Read a boolean setting.
pub fn env_bool(value: Option<&str>, default: bool) -> (r: bool)
    ensures
        r == flag_on(
            match value {
                Some(v) => Some(v@),
                None => None,
            },
            default,
        ),
{
    match value {
        Some(v) => {
            let t = trim(v);
            equals_ignore_ascii_case(t, "1") || equals_ignore_ascii_case(t, "true")
                || equals_ignore_ascii_case(t, "yes") || equals_ignore_ascii_case(t, "on")
        },
        None => default,
    }
}

/// A trimmed optional text, dropped when nothing is left.
pub fn clean_optional(value: Option<String>) -> (r: Option<String>)
    ensures
        match value {
            None => r is None,
            Some(v) => if trim_spec(v@).len() == 0 {
                r is None
            } else {
                r matches Some(s) && s@ == trim_spec(v@)
            },
        },
{
    match value {
        Some(v) => {
            let t = trim(v.as_str());
            if t.unicode_len() == 0 {
                None
            } else {
                Some(to_string(t))
            }
        },
        None => None,
    }
}

/// Why a bridge request failed.
#[derive(Debug)]
pub enum BridgeError {
    Unauthorized,
    WriteDisabled,
    Core(CoreError),
    BadRequest(String),
}

impl BridgeError {
    /// The HTTP status of the error: 401, 403, 400, 404 for a missing record, 400 for a
    /// refused input, 500 otherwise.
    pub fn status_code(&self) -> (c: u16)
        ensures
            c == match self {
                BridgeError::Unauthorized => 401u16,
                BridgeError::WriteDisabled => 403u16,
                BridgeError::BadRequest(_) => 400u16,
                BridgeError::Core(CoreError::NotFound(_)) => 404u16,
                BridgeError::Core(CoreError::Validation(_)) => 400u16,
                BridgeError::Core(_) => 500u16,
            },
    {
        match self {
            BridgeError::Unauthorized => 401,
            BridgeError::WriteDisabled => 403,
            BridgeError::BadRequest(_) => 400,
            BridgeError::Core(CoreError::NotFound(_)) => 404,
            BridgeError::Core(CoreError::Validation(_)) => 400,
            BridgeError::Core(_) => 500,
        }
    }

    /// The text the error displays.
    pub open spec fn text(self) -> Seq<char> {
        match self {
            BridgeError::Unauthorized => "missing or invalid bearer token"@,
            BridgeError::WriteDisabled => "GPT write mode is disabled"@,
            BridgeError::Core(e) => e.text(),
            BridgeError::BadRequest(m) => "invalid request: "@ + m@,
        }
    }

    /// The text the error displays.
    pub fn message(&self) -> (s: String)
        ensures
            s@ == self.text(),
    {
        match self {
            BridgeError::Unauthorized => to_string("missing or invalid bearer token"),
            BridgeError::WriteDisabled => to_string("GPT write mode is disabled"),
            BridgeError::Core(e) => e.message(),
            BridgeError::BadRequest(m) => {
                let mut s = to_string("invalid request: ");
                push_str(&mut s, m.as_str());
                s
            },
        }
    }
}

/// Compare two byte strings without stopping at the first difference or at a length mismatch:
/// every position up to the longer length is visited, so the time taken tells neither where
/// they differ nor that their lengths do.
pub fn constant_time_eq(a: &[u8], b: &[u8]) -> (r: bool)
    ensures
        r == (a@ == b@),
{
    let n = if a.len() >= b.len() { a.len() } else { b.len() };
    let mut diff: u8 = if a.len() == b.len() { 0 } else { 1 };
    let mut i: usize = 0;
    while i < n
        invariant
            n == (if a@.len() >= b@.len() { a@.len() } else { b@.len() }),
            i <= n,
            (diff == 0) <==> (a@.len() == b@.len() && forall|k: int| 0 <= k < i ==> a@[k] == b@[k]),
        decreases n - i,
    {
        let x: u8 = if i < a.len() { a[i] } else { 0 };
        let y: u8 = if i < b.len() { b[i] } else { 0 };
        let d2 = diff | (x ^ y);
        assert((d2 == 0) <==> (diff == 0 && x == y)) by (bit_vector)
            requires
                d2 == diff | (x ^ y),
        ;
        diff = d2;
        i = i + 1;
    }
    proof {
        if diff == 0 {
            assert(a@ =~= b@);
        }
    }
    diff == 0
}

/// The characters of an optional header value.
pub open spec fn header_text(header: Option<&str>) -> Option<Seq<char>> {
    match header {
        Some(h) => Some(h@),
        None => None,
    }
}

/// Whether an `Authorization` header is `Bearer ` followed by exactly the API token (compared
/// as UTF-8 bytes).
pub open spec fn authorized(header: Option<Seq<char>>, api_token: Seq<char>) -> bool {
    header matches Some(h) && h.len() >= 7 && h.subrange(0, 7) == "Bearer "@ && vstd::utf8::encode_utf8(
        h.subrange(7, h.len() as int),
    ) == vstd::utf8::encode_utf8(api_token)
}

/// Whether `out` is `input` trimmed, and absent when nothing is left.
pub open spec fn cleaned(out: Option<String>, input: Option<String>) -> bool {
    match input {
        None => out is None,
        Some(v) => if trim_spec(v@).len() == 0 {
            out is None
        } else {
            out matches Some(s) && s@ == trim_spec(v@)
        },
    }
}

/// Accept a request whose `Authorization` header is `Bearer ` followed by exactly the API token.
pub fn require_auth(header: Option<&str>, api_token: &str) -> (r: Result<(), BridgeError>)
    ensures
        r is Ok <==> authorized(header_text(header), api_token@),
        r matches Err(e) ==> e is Unauthorized,
{
    proof {
        reveal_strlit("Bearer ");
    }
    match header {
        Some(h) => match strip_prefix(h, "Bearer ") {
            Some(token) => if constant_time_eq(token.as_bytes(), api_token.as_bytes()) {
                Ok(())
            } else {
                Err(BridgeError::Unauthorized)
            },
            None => Err(BridgeError::Unauthorized),
        },
        None => Err(BridgeError::Unauthorized),
    }
}

/// An action-log row of a write request.
#[derive(Clone, Debug)]
pub struct NewGptActionLog {
    pub action: String,
    pub resource_type: String,
    pub resource_id: Option<String>,
    pub method: String,
    pub path: String,
    pub request_summary: String,
    pub success: bool,
    pub error_message: Option<String>,
}

/// What a write request is, for its action-log rows.
#[derive(Clone, Debug)]
pub struct WriteMeta {
    pub action: String,
    pub resource_type: String,
    pub resource_id: Option<String>,
    pub method: String,
    pub path: String,
    pub request_summary: String,
}

impl WriteMeta {
    /// A write of `action` on a resource, with an empty request summary.
    pub fn new(action: &str, resource_type: &str, resource_id: Option<String>, method: &str, path: String) -> (m:
        Self)
        ensures
            m.action@ == action@,
            m.resource_type@ == resource_type@,
            m.resource_id == resource_id,
            m.method@ == method@,
            m.path == path,
            m.request_summary@.len() == 0,
    {
        WriteMeta {
            action: to_string(action),
            resource_type: to_string(resource_type),
            resource_id,
            method: to_string(method),
            path,
            request_summary: String::new(),
        }
    }

    /// The same write with a request summary.
    pub fn summary(self, value: String) -> (m: Self)
        ensures
            m.request_summary == value,
            m.action == self.action,
            m.resource_type == self.resource_type,
            m.resource_id == self.resource_id,
            m.method == self.method,
            m.path == self.path,
    {
        WriteMeta { request_summary: value, ..self }
    }

    /// The same write naming the resource it touched.
    pub fn resource_id(self, value: String) -> (m: Self)
        ensures
            m.resource_id == Some(value),
            m.request_summary == self.request_summary,
            m.action == self.action,
            m.resource_type == self.resource_type,
            m.method == self.method,
            m.path == self.path,
    {
        WriteMeta { resource_id: Some(value), ..self }
    }

    /// The log row of the write with its outcome.
    pub fn log(&self, success: bool, error_message: Option<String>) -> (l: NewGptActionLog)
        ensures
            l.action == self.action,
            l.resource_type == self.resource_type,
            l.resource_id == self.resource_id,
            l.method == self.method,
            l.path == self.path,
            l.request_summary == self.request_summary,
            l.success == success,
            l.error_message == error_message,
    {
        NewGptActionLog {
            action: self.action.clone(),
            resource_type: self.resource_type.clone(),
            resource_id: crate::models::dup_opt_string(&self.resource_id),
            method: self.method.clone(),
            path: self.path.clone(),
            request_summary: self.request_summary.clone(),
            success,
            error_message,
        }
    }

    /// The log row of a successful write.
    pub fn success(&self) -> (l: NewGptActionLog)
        ensures
            l.action == self.action,
            l.resource_type == self.resource_type,
            l.resource_id == self.resource_id,
            l.method == self.method,
            l.path == self.path,
            l.request_summary == self.request_summary,
            l.success,
            l.error_message is None,
    {
        self.log(true, None)
    }

    /// The log row of a failed write.
    pub fn failure(&self, error: &str) -> (l: NewGptActionLog)
        ensures
            l.action == self.action,
            l.resource_type == self.resource_type,
            l.resource_id == self.resource_id,
            l.method == self.method,
            l.path == self.path,
            l.request_summary == self.request_summary,
            !l.success,
            l.error_message matches Some(e) && e@ == error@,
    {
        self.log(false, Some(to_string(error)))
    }
}

/// `l` is the failed action-log row of the write `meta`, with error `message`.
pub open spec fn refusal_logged(l: NewGptActionLog, meta: WriteMeta, message: Seq<char>) -> bool {
    &&& !l.success
    &&& (l.error_message matches Some(m) && m@ == message)
    &&& l.action == meta.action
    &&& l.resource_type == meta.resource_type
    &&& l.resource_id == meta.resource_id
    &&& l.method == meta.method
    &&& l.path == meta.path
    &&& l.request_summary == meta.request_summary
}

/// Gate a write: the caller must pass bearer auth and write mode must be on. A refused write
/// gives its error and the failed action-log row to record.
pub fn require_write(header: Option<&str>, api_token: &str, write_enabled: bool, meta: &WriteMeta) -> (r: Result<
    (),
    (BridgeError, NewGptActionLog),
>)
    ensures
        !authorized(header_text(header), api_token@) ==> (r matches Err((e, l)) && e is Unauthorized
            && refusal_logged(l, *meta, "unauthorized"@)),
        authorized(header_text(header), api_token@) && !write_enabled ==> (r matches Err((e, l))
            && e is WriteDisabled && refusal_logged(l, *meta, "write mode disabled"@)),
        authorized(header_text(header), api_token@) && write_enabled ==> r is Ok,
{
    match require_auth(header, api_token) {
        Err(e) => {
            return Err((e, meta.failure("unauthorized")));
        },
        Ok(()) => {},
    }
    if !write_enabled {
        return Err((BridgeError::WriteDisabled, meta.failure("write mode disabled")));
    }
    Ok(())
}

/// The query of a task listing, as the request gives it.
#[derive(Clone, Debug)]
pub struct TaskQuery {
    pub organization_id: Option<String>,
    pub project_id: Option<String>,
    pub status: Option<String>,
    pub priority: Option<i32>,
    pub tag: Option<String>,
    pub text: Option<String>,
    pub due_before: Option<Timestamp>,
    pub due_after: Option<Timestamp>,
    pub scheduled_before: Option<Timestamp>,
    pub scheduled_after: Option<Timestamp>,
    pub pinned: Option<bool>,
    pub blocked: Option<bool>,
    pub limit: Option<usize>,
}

/// The filter a task query runs with.
#[derive(Clone, Debug)]
pub struct TaskQueryFilter {
    pub organization_id: Option<String>,
    pub project_id: Option<String>,
    pub status: Option<Vec<TaskStatus>>,
    pub priority: Option<Vec<i32>>,
    pub due_from: Option<Timestamp>,
    pub due_to: Option<Timestamp>,
    pub scheduled_from: Option<Timestamp>,
    pub scheduled_to: Option<Timestamp>,
    pub pinned: Option<bool>,
    pub tags: Option<Vec<String>>,
    pub text: Option<String>,
    pub include_done: Option<bool>,
    pub include_canceled: Option<bool>,
}

/// The statuses a listing asks for: the one named; else, for `blocked=true`, the waiting ones;
/// for `blocked=false`, the open ones and done; else any.
pub open spec fn filter_statuses(status: Option<TaskStatus>, blocked: Option<bool>) -> Option<Seq<TaskStatus>> {
    match (status, blocked) {
        (Some(s), _) => Some(seq![s]),
        (None, Some(true)) => Some(seq![TaskStatus::Blocked, TaskStatus::Waiting]),
        (None, Some(false)) => Some(
            seq![
                TaskStatus::Inbox,
                TaskStatus::Backlog,
                TaskStatus::Scheduled,
                TaskStatus::Ready,
                TaskStatus::InProgress,
                TaskStatus::Done,
            ],
        ),
        (None, None) => None,
    }
}

/// The statuses of a filter, as a sequence.
pub open spec fn status_seq(v: Option<Vec<TaskStatus>>) -> Option<Seq<TaskStatus>> {
    match v {
        Some(s) => Some(s@),
        None => None,
    }
}

/// Whether a filter's statuses name `s`.
pub open spec fn names_status(v: Option<Seq<TaskStatus>>, s: TaskStatus) -> bool {
    v matches Some(list) && list.contains(s)
}

/// `invalid status: invalid TaskStatus: {value}`
pub open spec fn bad_status_text(value: Seq<char>) -> Seq<char> {
    "invalid status: invalid TaskStatus: "@ + value
}

fn contains_status(v: &Vec<TaskStatus>, s: TaskStatus) -> (r: bool)
    ensures
        r == v@.contains(s),
{
    let mut i: usize = 0;
    while i < v.len()
        invariant
            i <= v@.len(),
            forall|k: int| 0 <= k < i ==> v@[k] != s,
        decreases v@.len() - i,
    {
        if v[i] == s {
            return true;
        }
        i = i + 1;
    }
    false
}

/// `f` is the filter of `query`, whose status (if any) names a status.
pub open spec fn filter_of(f: TaskQueryFilter, query: TaskQuery) -> bool {
    let statuses = filter_statuses(
        match query.status {
            Some(v) => TaskStatus::from_text(v@),
            None => None,
        },
        query.blocked,
    );
    &&& status_seq(f.status) == statuses
    &&& f.include_done == Some(names_status(statuses, TaskStatus::Done))
    &&& f.include_canceled == Some(names_status(statuses, TaskStatus::Canceled))
    &&& (f.priority matches Some(p) ==> query.priority matches Some(q) && p@ == seq![q])
    &&& (f.priority is None <==> query.priority is None)
    &&& f.due_from == query.due_after && f.due_to == query.due_before
    &&& f.scheduled_from == query.scheduled_after && f.scheduled_to == query.scheduled_before
    &&& f.pinned == query.pinned
    &&& cleaned(f.organization_id, query.organization_id)
    &&& cleaned(f.project_id, query.project_id)
    &&& cleaned(f.text, query.text)
    &&& match f.tags {
        Some(t) => t@.len() == 1 && cleaned(Some(t@[0]), query.tag),
        None => cleaned(None, query.tag),
    }
}

/// The filter of a task listing: a status that names no status is refused; the statuses come
/// from `filter_statuses`, done and canceled work is included exactly when a status asked for
/// names it, and the texts are cleaned.
pub fn task_filter(query: &TaskQuery) -> (r: Result<TaskQueryFilter, BridgeError>)
    ensures
        match query.status {
            Some(v) => TaskStatus::from_text(v@) is None ==> (r matches Err(BridgeError::BadRequest(m))
                && m@ == bad_status_text(v@)),
            None => true,
        },
        (match query.status {
            Some(v) => TaskStatus::from_text(v@) is Some,
            None => true,
        }) ==> (r matches Ok(f) && filter_of(f, *query)),
{
    let parsed = match &query.status {
        Some(v) => match TaskStatus::parse(v.as_str()) {
            Some(s) => Some(s),
            None => {
                let mut m = to_string("invalid status: invalid TaskStatus: ");
                push_str(&mut m, v.as_str());
                return Err(BridgeError::BadRequest(m));
            },
        },
        None => None,
    };
    let status: Option<Vec<TaskStatus>> = match (parsed, query.blocked) {
        (Some(s), _) => Some(vec![s]),
        (None, Some(true)) => Some(vec![TaskStatus::Blocked, TaskStatus::Waiting]),
        (None, Some(false)) => Some(
            vec![
                TaskStatus::Inbox,
                TaskStatus::Backlog,
                TaskStatus::Scheduled,
                TaskStatus::Ready,
                TaskStatus::InProgress,
                TaskStatus::Done,
            ],
        ),
        (None, None) => None,
    };
    proof {
        let statuses = filter_statuses(parsed, query.blocked);
        assert(status_seq(status) =~= statuses) by {
            match statuses {
                Some(l) => assert(status matches Some(v) && v@ =~= l),
                None => {},
            }
        }
    }
    let (include_done, include_canceled) = match &status {
        Some(v) => (contains_status(v, TaskStatus::Done), contains_status(v, TaskStatus::Canceled)),
        None => (false, false),
    };
    let tags = match clean_optional(crate::models::dup_opt_string(&query.tag)) {
        Some(t) => Some(vec![t]),
        None => None,
    };
    let f = TaskQueryFilter {
        organization_id: clean_optional(crate::models::dup_opt_string(&query.organization_id)),
        project_id: clean_optional(crate::models::dup_opt_string(&query.project_id)),
        status,
        priority: match query.priority {
            Some(p) => Some(vec![p]),
            None => None,
        },
        due_from: query.due_after,
        due_to: query.due_before,
        scheduled_from: query.scheduled_after,
        scheduled_to: query.scheduled_before,
        pinned: query.pinned,
        tags,
        text: clean_optional(crate::models::dup_opt_string(&query.text)),
        include_done: Some(include_done),
        include_canceled: Some(include_canceled),
    };
    proof {
        let statuses = filter_statuses(parsed, query.blocked);
        assert(parsed == match query.status {
            Some(v) => TaskStatus::from_text(v@),
            None => None,
        });
        assert(status_seq(f.status) == statuses);
        assert(f.include_done == Some(names_status(statuses, TaskStatus::Done)));
        assert(f.include_canceled == Some(names_status(statuses, TaskStatus::Canceled)));
        assert(cleaned(f.organization_id, query.organization_id));
        assert(cleaned(f.text, query.text));
        assert(cleaned(f.project_id, query.project_id));
        assert(f.priority is None <==> query.priority is None);
        assert(f.priority matches Some(p) ==> query.priority matches Some(q) && p@ == seq![q]);
        assert(filter_of(f, *query));
        assert(match f.tags {
            Some(t) => t@.len() == 1 && cleaned(Some(t@[0]), query.tag),
            None => cleaned(None, query.tag),
        });
    }
    Ok(f)
}

/// The short name of a task action in its path: the action without a trailing `_task`.
pub fn action_name_suffix(action: &str) -> (r: &str)
    ensures
        r@ == if action@.len() >= 5 && action@.subrange(action@.len() - 5, action@.len() as int)
            == "_task"@ {
            action@.subrange(0, action@.len() - 5)
        } else {
            action@
        },
{
    proof {
        reveal_strlit("_task");
    }
    let n = action.unicode_len();
    if n >= 5 && str_eq(slice(action, n - 5, n), "_task") {
        slice(action, 0, n - 5)
    } else {
        action
    }
}

/// The path of a task transition: `/api/openmgmt/tasks/{id}/{short action}`.
pub fn transition_path(id: &str, action: &str) -> (s: String)
    ensures
        s@ == "/api/openmgmt/tasks/"@ + id@ + "/"@ + action_name_suffix_text(action@),
{
    let mut s = to_string("/api/openmgmt/tasks/");
    push_str(&mut s, id);
    push_str(&mut s, "/");
    push_str(&mut s, action_name_suffix(action));
    s
}

/// The short name of a task action.
pub open spec fn action_name_suffix_text(action: Seq<char>) -> Seq<char> {
    if action.len() >= 5 && action.subrange(action.len() - 5, action.len() as int) == "_task"@ {
        action.subrange(0, action.len() - 5)
    } else {
        action
    }
}

/// Whether a trimmed text of more than 80 UTF-8 bytes has a character boundary at byte 80.
pub open spec fn summary_cut_ok(value: Seq<char>) -> bool {
    let t = trim_spec(value);
    vstd::utf8::encode_utf8(t).len() <= 80 || exists|k: int|
        0 <= k <= t.len() && vstd::utf8::encode_utf8(#[trigger] t.take(k)).len() == 80
}

/// `s` summarizes `value`: the trimmed text when it has at most 80 UTF-8 bytes, else its
/// prefix of exactly 80 bytes followed by `...`.
pub open spec fn is_summary(value: Seq<char>, s: Seq<char>) -> bool {
    &&& vstd::utf8::encode_utf8(trim_spec(value)).len() <= 80 ==> s == trim_spec(value)
    &&& vstd::utf8::encode_utf8(trim_spec(value)).len() > 80 ==> exists|k: int|
        0 <= k <= trim_spec(value).len() && vstd::utf8::encode_utf8(#[trigger] trim_spec(value).take(k)).len()
            == 80 && s == trim_spec(value).take(k) + "..."@
}

/// A request summary of a text: trimmed, and cut to its first 80 UTF-8 bytes followed by `...`
/// when longer.
pub fn summarize_text(value: &str) -> (s: String)
    requires
        summary_cut_ok(value@),
    ensures
        is_summary(value@, s@),
{
    let t = trim(value);
    let total = t.as_bytes().len();
    if total <= 80 {
        return to_string(t);
    }
    let n = t.unicode_len();
    let mut bytes: usize = 0;
    let mut i: usize = 0;
    proof {
        assert(t@.take(0) =~= Seq::<char>::empty());
        assert(vstd::utf8::encode_utf8(Seq::<char>::empty()) =~= Seq::<u8>::empty());
    }
    while i < n && bytes < 80
        invariant
            n == t@.len(),
            t@ == trim_spec(value@),
            summary_cut_ok(value@),
            vstd::utf8::encode_utf8(t@).len() > 80,
            i <= n,
            bytes == vstd::utf8::encode_utf8(t@.take(i as int)).len(),
            bytes <= 80,
        decreases n - i,
    {
        let w = char_utf8_width(t.get_char(i));
        proof {
            assert(t@.take(i as int + 1) =~= t@.take(i as int) + seq![t@[i as int]]);
            crate::text::lemma_encode_utf8_concat(t@.take(i as int), seq![t@[i as int]]);
            if bytes + w > 80 {
                let k = choose|k: int| 0 <= k <= t@.len() && vstd::utf8::encode_utf8(#[trigger] t@.take(k)).len() == 80;
                lemma_prefix_widths(t@, i as int, k);
            }
        }
        bytes = bytes + w;
        i = i + 1;
    }
    proof {
        if bytes < 80 {
            assert(t@.take(n as int) =~= t@);
        }
    }
    let mut s = to_string(t.substring_char(0, i));
    push_str(&mut s, "...");
    s
}

/// When byte 80 falls inside the character at `i`, no prefix ends at byte 80.
proof fn lemma_prefix_widths(t: Seq<char>, i: int, k: int)
    requires
        0 <= i < t.len(),
        0 <= k <= t.len(),
        vstd::utf8::encode_utf8(t.take(i)).len() < 80,
        vstd::utf8::encode_utf8(t.take(i + 1)).len() > 80,
    ensures
        vstd::utf8::encode_utf8(t.take(k)).len() != 80,
{
    if k <= i {
        lemma_prefix_grows(t, k, i);
    } else {
        lemma_prefix_grows(t, i + 1, k);
    }
}

proof fn lemma_prefix_grows(t: Seq<char>, a: int, b: int)
    requires
        0 <= a <= b <= t.len(),
    ensures
        vstd::utf8::encode_utf8(t.take(a)).len() <= vstd::utf8::encode_utf8(t.take(b)).len(),
    decreases b - a,
{
    if a < b {
        lemma_prefix_grows(t, a, b - 1);
        assert(t.take(b) =~= t.take(b - 1) + t.subrange(b - 1, b));
        crate::text::lemma_encode_utf8_concat(t.take(b - 1), t.subrange(b - 1, b));
    }
}

/// The number of tasks a listing returns: the requested number (200 when none) kept between 1
/// and 200.
pub fn query_limit(value: Option<usize>) -> (n: usize)
    ensures
        n == ({
            let v = match value {
                Some(v) => v,
                None => MAX_TASK_LIMIT,
            };
            if v < 1 {
                1
            } else if v > MAX_TASK_LIMIT {
                MAX_TASK_LIMIT
            } else {
                v
            }
        }),
{
    let v = match value {
        Some(v) => v,
        None => MAX_TASK_LIMIT,
    };
    if v < 1 {
        1
    } else if v > MAX_TASK_LIMIT {
        MAX_TASK_LIMIT
    } else {
        v
    }
}

/// The counts of each board column.
#[derive(Clone, Copy, Debug, PartialEq, Eq, Structural)]
pub struct BoardSummary {
    pub now: usize,
    pub next_up: usize,
    pub overdue: usize,
    pub due_soon: usize,
    pub waiting_blocked: usize,
    pub later_today: usize,
    pub done_today: usize,
}

/// The counts of each board column.
pub fn board_summary(board: &BoardState) -> (s: BoardSummary)
    ensures
        s.now == board.now@.len(),
        s.next_up == board.next_up@.len(),
        s.overdue == board.overdue@.len(),
        s.due_soon == board.due_soon@.len(),
        s.waiting_blocked == board.waiting_blocked@.len(),
        s.later_today == board.later_today@.len(),
        s.done_today == board.done_today@.len(),
{
    BoardSummary {
        now: board.now.len(),
        next_up: board.next_up.len(),
        overdue: board.overdue.len(),
        due_soon: board.due_soon.len(),
        waiting_blocked: board.waiting_blocked.len(),
        later_today: board.later_today.len(),
        done_today: board.done_today.len(),
    }
}

/// The bridge's workspace summary.
#[derive(Clone, Copy, Debug, PartialEq, Eq, Structural)]
pub struct OpenMgmtSummary {
    pub organization_count: usize,
    pub project_count: usize,
    pub open_task_count: usize,
    pub blocked_task_count: usize,
    pub overdue_task_count: usize,
    pub due_soon_task_count: usize,
    pub in_progress_task_count: usize,
    pub done_today_count: usize,
    pub board: BoardSummary,
}

/// Whether a task is still open: neither done nor canceled.
pub open spec fn is_open(t: TaskWithContext) -> bool {
    t.task.status != TaskStatus::Done && t.task.status != TaskStatus::Canceled
}

/// The workspace summary at `now` from the organization and project counts, all tasks and the
/// board.
pub fn workspace_summary(
    organization_count: usize,
    project_count: usize,
    tasks: &[TaskWithContext],
    board: &BoardState,
    now: Timestamp,
) -> (s: OpenMgmtSummary)
    ensures
        s.organization_count == organization_count,
        s.project_count == project_count,
        s.open_task_count == count_where(tasks@, |t: TaskWithContext| is_open(t)),
        s.blocked_task_count == count_where(
            tasks@,
            |t: TaskWithContext| t.task.status == TaskStatus::Blocked || t.task.status == TaskStatus::Waiting,
        ),
        s.overdue_task_count == count_where(tasks@, |t: TaskWithContext| is_open(t) && past_due(t, now)),
        s.due_soon_task_count == board.due_soon@.len(),
        s.in_progress_task_count == count_where(tasks@, |t: TaskWithContext| t.task.status == TaskStatus::InProgress),
        s.done_today_count == board.done_today@.len(),
        s.board == board_summary_spec(*board),
{
    let ghost open_p = |t: TaskWithContext| is_open(t);
    let ghost blocked_p = |t: TaskWithContext| t.task.status == TaskStatus::Blocked || t.task.status == TaskStatus::Waiting;
    let ghost overdue_p = |t: TaskWithContext| is_open(t) && past_due(t, now);
    let ghost progress_p = |t: TaskWithContext| t.task.status == TaskStatus::InProgress;
    let mut open: usize = 0;
    let mut blocked: usize = 0;
    let mut overdue: usize = 0;
    let mut in_progress: usize = 0;
    let mut i: usize = 0;
    proof {
        assert(tasks@.subrange(0, 0) =~= Seq::<TaskWithContext>::empty());
    }
    while i < tasks.len()
        invariant
            i <= tasks@.len(),
            open_p == (|t: TaskWithContext| is_open(t)),
            blocked_p == (|t: TaskWithContext| t.task.status == TaskStatus::Blocked || t.task.status == TaskStatus::Waiting),
            overdue_p == (|t: TaskWithContext| is_open(t) && past_due(t, now)),
            progress_p == (|t: TaskWithContext| t.task.status == TaskStatus::InProgress),
            open == count_where(tasks@.subrange(0, i as int), open_p),
            blocked == count_where(tasks@.subrange(0, i as int), blocked_p),
            overdue == count_where(tasks@.subrange(0, i as int), overdue_p),
            in_progress == count_where(tasks@.subrange(0, i as int), progress_p),
            open <= i,
            blocked <= i,
            overdue <= i,
            in_progress <= i,
        decreases tasks@.len() - i,
    {
        let t = &tasks[i];
        proof {
            let pre = tasks@.subrange(0, i as int + 1);
            assert(pre.drop_last() =~= tasks@.subrange(0, i as int));
            assert(pre.last() == tasks@[i as int]);
        }
        let st = t.task.status;
        let is_open_task = st != TaskStatus::Done && st != TaskStatus::Canceled;
        if is_open_task {
            open = open + 1;
        }
        if st == TaskStatus::Blocked || st == TaskStatus::Waiting {
            blocked = blocked + 1;
        }
        let due_passed = match t.task.due_at {
            Some(d) => d < now,
            None => false,
        };
        if is_open_task && due_passed {
            overdue = overdue + 1;
        }
        if st == TaskStatus::InProgress {
            in_progress = in_progress + 1;
        }
        i = i + 1;
    }
    proof {
        assert(tasks@.subrange(0, tasks@.len() as int) =~= tasks@);
    }
    OpenMgmtSummary {
        organization_count,
        project_count,
        open_task_count: open,
        blocked_task_count: blocked,
        overdue_task_count: overdue,
        due_soon_task_count: board.due_soon.len(),
        in_progress_task_count: in_progress,
        done_today_count: board.done_today.len(),
        board: board_summary(board),
    }
}

/// The column counts of a board.
pub open spec fn board_summary_spec(b: BoardState) -> BoardSummary {
    BoardSummary {
        now: b.now@.len() as usize,
        next_up: b.next_up@.len() as usize,
        overdue: b.overdue@.len() as usize,
        due_soon: b.due_soon@.len() as usize,
        waiting_blocked: b.waiting_blocked@.len() as usize,
        later_today: b.later_today@.len() as usize,
        done_today: b.done_today@.len() as usize,
    }
}

/// The bridge's view of today.
#[derive(Clone, Debug)]
pub struct BridgeTodayPlan {
    pub now: Vec<ScoredTask>,
    pub next_up: Vec<ScoredTask>,
    pub overdue: Vec<ScoredTask>,
    pub due_soon: Vec<ScoredTask>,
    pub blocked: Vec<ScoredTask>,
    pub in_progress: Vec<TaskWithContext>,
    pub pinned: Vec<TaskWithContext>,
    pub done_today: Vec<ScoredTask>,
    pub recommended_next_task: Option<TaskWithContext>,
}

/// Today from the board, the in-progress and pinned tasks, and all open tasks by urgency: the
/// recommended next task is the first of those.
pub fn bridge_today_plan(
    board: BoardState,
    in_progress: Vec<TaskWithContext>,
    pinned: Vec<TaskWithContext>,
    by_urgency: Vec<TaskWithContext>,
) -> (p: BridgeTodayPlan)
    ensures
        p.now == board.now,
        p.next_up == board.next_up,
        p.overdue == board.overdue,
        p.due_soon == board.due_soon,
        p.blocked == board.waiting_blocked,
        p.in_progress == in_progress,
        p.pinned == pinned,
        p.done_today == board.done_today,
        p.recommended_next_task == if by_urgency@.len() > 0 {
            Some(by_urgency@[0])
        } else {
            None
        },
{
    let mut all = by_urgency;
    let recommended = if all.len() > 0 {
        Some(all.remove(0))
    } else {
        None
    };
    BridgeTodayPlan {
        now: board.now,
        next_up: board.next_up,
        overdue: board.overdue,
        due_soon: board.due_soon,
        blocked: board.waiting_blocked,
        in_progress,
        pinned,
        done_today: board.done_today,
        recommended_next_task: recommended,
    }
}

} // verus!
