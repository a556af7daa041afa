//! The MCP HTTP transport's rules: callers, token scopes, bearer headers, the names audited for
//! a JSON-RPC body, the bind-safety check, the per-address rate window, its settings, and the
//! operator's API-key command helpers.
use vstd::prelude::*;
use crate::ai::{ai_tool_metadata, ai_tool_table, denial_reason, enforce_ai_tool_permission, AiSettings, AiToolMetadata};
use crate::api_keys::ApiKeyScope;
use crate::models::AiToolAccess;
use crate::json::{json_of_bytes, member, member_text, Json};
use crate::text::{
    eq_ignore_ascii_case, equals_ignore_ascii_case, parse_u64, push_str, split_char, split_char_pieces,
    split_whitespace, starts_with, str_eq, strip_prefix, to_string, trim, trim_spec, unsigned_decimal, words,
};

verus! {

/// Where the MCP HTTP transport listens by default.
pub const DEFAULT_HTTP_BIND_ADDR: &'static str = "127.0.0.1:8788";
/// Requests one address may make per minute by default.
pub const DEFAULT_RATE_LIMIT_PER_MINUTE: u32 = 120;
/// The largest request or response body the transport reads.
pub const MAX_BODY_BYTES: usize = 8388608;

/// Who a validated request belongs to.
#[derive(Clone, Debug, PartialEq, Eq)]
pub enum Caller {
    /// An account: its stable user id and the token's granted scope.
    User { id: String, scope: String },
    Unauthenticated,
}

impl Caller {
    /// The name audit rows carry: the user id, or `unauthenticated`; never the token or scope.
    pub fn audit_name(&self) -> (s: String)
        ensures
            s@ == match self {
                Caller::User { id, .. } => id@,
                Caller::Unauthenticated => "unauthenticated"@,
            },
    {
        match self {
            Caller::User { id, .. } => id.clone(),
            Caller::Unauthenticated => to_string("unauthenticated"),
        }
    }

    /// The caller's granted scope; empty when unauthenticated.
    pub fn scope(&self) -> (s: &str)
        ensures
            s@ == match self {
                Caller::User { scope, .. } => scope@,
                Caller::Unauthenticated => Seq::<char>::empty(),
            },
    {
        proof {
            reveal_strlit("");
        }
        match self {
            Caller::User { scope, .. } => scope.as_str(),
            Caller::Unauthenticated => "",
        }
    }
}

/// Whether `name` is, by the AI tool registry (its first row of that name), a write tool.
pub open spec fn is_write_tool(name: Seq<char>) -> bool {
    exists|i: int|
        0 <= i < ai_tool_table().len() && (#[trigger] ai_tool_table()[i]).0 == name && (forall|j: int|
            0 <= j < i ==> (#[trigger] ai_tool_table()[j]).0 != name) && ai_tool_table()[i].2
            == AiToolAccess::Write
}

/// The tool an audited name calls, when it is a `tools/call:` entry.
pub open spec fn called_tool(entry: Seq<char>) -> Option<Seq<char>> {
    if entry.len() >= 11 && entry.subrange(0, 11) == "tools/call:"@ {
        Some(entry.subrange(11, entry.len() as int))
    } else {
        None
    }
}

/// Whether a token's scopes grant full access: none reported (a pre-scope issuer),
/// `identity`, or `openmgmt:tasks:write`.
pub open spec fn full_access(scopes: Seq<Seq<char>>) -> bool {
    scopes.len() == 0 || scopes.contains("identity"@) || scopes.contains("openmgmt:tasks:write"@)
}

/// The first tool call the scopes do not cover: a write tool, or any tool when the scopes do
/// not include `openmgmt:tasks:read`. Other MCP methods are always covered.
pub open spec fn first_uncovered(can_read: bool, names: Seq<Seq<char>>) -> Option<Seq<char>>
    decreases names.len(),
{
    if names.len() == 0 {
        None
    } else {
        match called_tool(names[0]) {
            Some(t) => if is_write_tool(t) || !can_read {
                Some(t)
            } else {
                first_uncovered(can_read, names.drop_first())
            },
            None => first_uncovered(can_read, names.drop_first()),
        }
    }
}

/// `token scope '{scope}' does not permit tool '{name}'`
pub open spec fn scope_denial_text(scope: Seq<char>, name: Seq<char>) -> Seq<char> {
    "token scope '"@ + scope + "' does not permit tool '"@ + name + "'"@
}

/// Why a token's scope does not permit a request's audited names, if it does not.
pub open spec fn scope_denial(scope: Seq<char>, names: Seq<Seq<char>>) -> Option<Seq<char>> {
    let scopes = words(scope);
    if full_access(scopes) {
        None
    } else {
        match first_uncovered(scopes.contains("openmgmt:tasks:read"@), names) {
            Some(t) => Some(scope_denial_text(scope, t)),
            None => None,
        }
    }
}

fn scope_contains(scopes: &Vec<&str>, wanted: &str) -> (r: bool)
    ensures
        r == scopes@.map_values(|s: &str| s@).contains(wanted@),
{
    let mut i: usize = 0;
    while i < scopes.len()
        invariant
            i <= scopes@.len(),
            forall|k: int| 0 <= k < i ==> (#[trigger] scopes@[k])@ != wanted@,
        decreases scopes@.len() - i,
    {
        if str_eq(scopes[i], wanted) {
            assert(scopes@.map_values(|s: &str| s@)[i as int] == wanted@);
            return true;
        }
        i = i + 1;
    }
    proof {
        let m = scopes@.map_values(|s: &str| s@);
        assert forall|k: int| 0 <= k < m.len() implies m[k] != wanted@ by {
            assert(m[k] == scopes@[k]@);
        }
    }
    false
}

fn write_tool_named(name: &str) -> (r: bool)
    ensures
        r == is_write_tool(name@),
{
    match ai_tool_metadata(name) {
        Some(t) => {
            let w = t.access == AiToolAccess::Write;
            proof {
                let table = ai_tool_table();
                let i = choose|i: int|
                    0 <= i < table.len() && (#[trigger] table[i]).0 == name@ && (forall|j: int|
                        0 <= j < i ==> (#[trigger] table[j]).0 != name@) && crate::ai::is_row(t, table[i]);
                if !w {
                    assert forall|i2: int|
                        0 <= i2 < table.len() && (#[trigger] table[i2]).0 == name@ && (forall|j: int|
                            0 <= j < i2 ==> (#[trigger] table[j]).0 != name@) implies table[i2].2
                        != AiToolAccess::Write by {
                        if i2 < i {
                            assert(table[i2].0 != name@);
                        } else if i < i2 {
                            assert(table[i].0 != name@);
                        }
                    }
                }
            }
            w
        },
        None => false,
    }
}

/// Check a token's scope against the names a request will be audited under: `Ok` when every
/// tool call is covered, else the denial message for the first one that is not.
pub fn check_token_scope(scope: &str, tool_names: &[String]) -> (r: Result<(), String>)
    ensures
        match scope_denial(scope@, tool_names@.map_values(|s: String| s@)) {
            None => r is Ok,
            Some(m) => r matches Err(e) && e@ == m,
        },
{
    proof {
        reveal_strlit("tools/call:");
    }
    let scopes = split_whitespace(scope);
    proof {
        assert(scopes@.map_values(|s: &str| s@) =~= words(scope@));
    }
    if scopes.len() == 0 || scope_contains(&scopes, "identity") {
        return Ok(());
    }
    if scope_contains(&scopes, "openmgmt:tasks:write") {
        return Ok(());
    }
    let can_read = scope_contains(&scopes, "openmgmt:tasks:read");
    let ghost names = tool_names@.map_values(|s: String| s@);
    let mut i: usize = 0;
    proof {
        assert(names.subrange(0, names.len() as int) =~= names);
    }
    while i < tool_names.len()
        invariant
            i <= tool_names@.len(),
            names == tool_names@.map_values(|s: String| s@),
            !full_access(words(scope@)),
            can_read == words(scope@).contains("openmgmt:tasks:read"@),
            first_uncovered(can_read, names) == first_uncovered(can_read, names.subrange(i as int, names.len() as int)),
        decreases tool_names@.len() - i,
    {
        let ghost rest = names.subrange(i as int, names.len() as int);
        proof {
            reveal_strlit("tools/call:");
            assert(rest[0] == tool_names@[i as int]@);
            assert(rest.drop_first() =~= names.subrange(i as int + 1, names.len() as int));
        }
        match strip_prefix(tool_names[i].as_str(), "tools/call:") {
            Some(name) => {
                proof {
                    assert(name@ =~= rest[0].subrange(11, rest[0].len() as int));
                }
                if write_tool_named(name) || !can_read {
                    let mut m = to_string("token scope '");
                    push_str(&mut m, scope);
                    push_str(&mut m, "' does not permit tool '");
                    push_str(&mut m, name);
                    push_str(&mut m, "'");
                    return Err(m);
                }
            },
            None => {},
        }
        i = i + 1;
    }
    Ok(())
}

/// Law: a token with full access (no scope reported, `identity`, or `openmgmt:tasks:write`)
/// may make any request.
pub proof fn lemma_full_access_permits_all(scope: Seq<char>, names: Seq<Seq<char>>)
    requires
        full_access(words(scope)),
    ensures
        scope_denial(scope, names) is None,
{
}

/// Law: a token with `openmgmt:tasks:read` may make any request that calls no write tool.
pub proof fn lemma_read_scope_permits_reads(scope: Seq<char>, names: Seq<Seq<char>>)
    requires
        words(scope).contains("openmgmt:tasks:read"@),
        forall|k: int| 0 <= k < names.len() ==> ((#[trigger] called_tool(names[k])) matches Some(t)
            ==> !is_write_tool(t)),
    ensures
        scope_denial(scope, names) is None,
    decreases names.len(),
{
    if names.len() > 0 {
        assert forall|k: int| 0 <= k < names.drop_first().len() implies ((#[trigger] called_tool(
            names.drop_first()[k],
        )) matches Some(t) ==> !is_write_tool(t)) by {
            assert(names.drop_first()[k] == names[k + 1]);
        }
        lemma_read_scope_permits_reads(scope, names.drop_first());
        assert(called_tool(names[0]) matches Some(t) ==> !is_write_tool(t));
    }
}

/// Law: a request that calls no tool (only MCP methods such as `initialize` or `tools/list`)
/// passes whatever the token's scope.
pub proof fn lemma_non_tool_requests_pass(scope: Seq<char>, names: Seq<Seq<char>>)
    requires
        forall|k: int| 0 <= k < names.len() ==> (#[trigger] called_tool(names[k])) is None,
    ensures
        scope_denial(scope, names) is None,
{
    lemma_no_tool_uncovered(words(scope).contains("openmgmt:tasks:read"@), names);
}

proof fn lemma_no_tool_uncovered(can_read: bool, names: Seq<Seq<char>>)
    requires
        forall|k: int| 0 <= k < names.len() ==> (#[trigger] called_tool(names[k])) is None,
    ensures
        first_uncovered(can_read, names) is None,
    decreases names.len(),
{
    if names.len() > 0 {
        assert forall|k: int| 0 <= k < names.drop_first().len() implies (#[trigger] called_tool(
            names.drop_first()[k],
        )) is None by {
            assert(names.drop_first()[k] == names[k + 1]);
        }
        lemma_no_tool_uncovered(can_read, names.drop_first());
        assert(called_tool(names[0]) is None);
    }
}

/// Law: without full access, a request that calls a write tool is refused, and without
/// `openmgmt:tasks:read` any tool call is refused.
pub proof fn lemma_uncovered_call_refused(scope: Seq<char>, names: Seq<Seq<char>>, k: int)
    requires
        !full_access(words(scope)),
        0 <= k < names.len(),
        called_tool(names[k]) matches Some(t) && (is_write_tool(t) || !words(scope).contains(
            "openmgmt:tasks:read"@,
        )),
    ensures
        scope_denial(scope, names) is Some,
    decreases k,
{
    let can_read = words(scope).contains("openmgmt:tasks:read"@);
    lemma_first_uncovered_some(can_read, names, k);
}

proof fn lemma_first_uncovered_some(can_read: bool, names: Seq<Seq<char>>, k: int)
    requires
        0 <= k < names.len(),
        called_tool(names[k]) matches Some(t) && (is_write_tool(t) || !can_read),
    ensures
        first_uncovered(can_read, names) is Some,
    decreases k,
{
    if k > 0 {
        assert(names.drop_first()[k - 1] == names[k]);
        lemma_first_uncovered_some(can_read, names.drop_first(), k - 1);
    }
}

/// The token of an `Authorization` header: exactly two words, the first `Bearer` in any ASCII
/// case; anything else (or no header) gives none.
pub open spec fn bearer_of(header: Option<Seq<char>>) -> Option<Seq<char>> {
    match header {
        None => None,
        Some(v) => {
            let w = words(v);
            if w.len() == 2 && eq_ignore_ascii_case(w[0], "bearer"@) {
                Some(w[1])
            } else {
                None
            }
        },
    }
}

/// Read the bearer token of an `Authorization` header value.
pub fn bearer_token(header: Option<&str>) -> (r: Option<String>)
    ensures
        match (r, bearer_of(match header {
            Some(h) => Some(h@),
            None => None,
        })) {
            (Some(t), Some(u)) => t@ == u,
            (None, None) => true,
            _ => false,
        },
{
    let value = match header {
        Some(v) => v,
        None => {
            return None;
        },
    };
    let parts = split_whitespace(value);
    if parts.len() != 2 || !equals_ignore_ascii_case(parts[0], "bearer") {
        return None;
    }
    Some(to_string(parts[1]))
}

/// The characters of an optional string.
pub open spec fn opt_chars(v: Option<String>) -> Option<Seq<char>> {
    match v {
        Some(s) => Some(s@),
        None => None,
    }
}

/// The name a JSON-RPC message with `method` (and, for a tool call, tool `tool`) is audited
/// under.
pub open spec fn audit_entry_spec(method: Option<Seq<char>>, tool: Option<Seq<char>>) -> Option<Seq<char>> {
    match method {
        None => None,
        Some(m) => if m.len() >= 14 && m.subrange(0, 14) == "notifications/"@ {
            None
        } else if m == "tools/call"@ {
            match tool {
                Some(t) => Some("tools/call:"@ + t),
                None => None,
            }
        } else {
            Some(m)
        },
    }
}

/// The audit names of a body's messages, given as (method, tool) pairs, in order, skipping
/// the messages that give none.
pub open spec fn audit_names_spec(entries: Seq<(Option<Seq<char>>, Option<Seq<char>>)>) -> Seq<Seq<char>>
    decreases entries.len(),
{
    if entries.len() == 0 {
        Seq::empty()
    } else {
        let before = audit_names_spec(entries.drop_last());
        match audit_entry_spec(entries.last().0, entries.last().1) {
            Some(n) => before.push(n),
            None => before,
        }
    }
}

/// The (method, tool) pair of a message as plain values.
pub open spec fn entry_chars(e: (Option<String>, Option<String>)) -> (Option<Seq<char>>, Option<Seq<char>>) {
    (opt_chars(e.0), opt_chars(e.1))
}

/// The names a body's messages are audited under, from their (method, tool) pairs.
pub fn audit_names(entries: &[(Option<String>, Option<String>)]) -> (r: Vec<String>)
    ensures
        r@.map_values(|s: String| s@) == audit_names_spec(entries@.map_values(|e: (Option<String>, Option<String>)| entry_chars(e))),
{
    let ghost es = entries@.map_values(|e: (Option<String>, Option<String>)| entry_chars(e));
    let mut out: Vec<String> = Vec::new();
    let mut i: usize = 0;
    proof {
        assert(es.subrange(0, 0) =~= Seq::<(Option<Seq<char>>, Option<Seq<char>>)>::empty());
        assert(out@.map_values(|s: String| s@) =~= Seq::<Seq<char>>::empty());
    }
    while i < entries.len()
        invariant
            i <= entries@.len(),
            es == entries@.map_values(|e: (Option<String>, Option<String>)| entry_chars(e)),
            out@.map_values(|s: String| s@) == audit_names_spec(es.subrange(0, i as int)),
        decreases entries@.len() - i,
    {
        let method: Option<&str> = match &entries[i].0 {
            Some(m) => Some(m.as_str()),
            None => None,
        };
        let tool: Option<&str> = match &entries[i].1 {
            Some(t) => Some(t.as_str()),
            None => None,
        };
        let ghost before = out@;
        proof {
            let pre = es.subrange(0, i as int + 1);
            assert(pre.drop_last() =~= es.subrange(0, i as int));
            assert(pre.last() == entry_chars(entries@[i as int]));
        }
        match audit_entry(method, tool) {
            Some(n) => {
                out.push(n);
                proof {
                    assert(out@.map_values(|s: String| s@) =~= before.map_values(|s: String| s@).push(out@.last()@));
                }
            },
            None => {},
        }
        i = i + 1;
    }
    proof {
        assert(es.subrange(0, es.len() as int) =~= es);
    }
    out
}

/// The name a JSON-RPC message is audited under: `tools/call:{tool}` for a tool call (none
/// when it names no tool), the method for other requests, none for notifications and for
/// messages without a method.
pub fn audit_entry(method: Option<&str>, tool: Option<&str>) -> (r: Option<String>)
    ensures
        opt_chars(r) == audit_entry_spec(
            match method {
                Some(m) => Some(m@),
                None => None,
            },
            match tool {
                Some(t) => Some(t@),
                None => None,
            },
        ),
{
    proof {
        reveal_strlit("notifications/");
    }
    let m = match method {
        Some(m) => m,
        None => {
            return None;
        },
    };
    if starts_with(m, "notifications/") {
        return None;
    }
    if str_eq(m, "tools/call") {
        return match tool {
            Some(t) => {
                let mut s = to_string("tools/call:");
                push_str(&mut s, t);
                Some(s)
            },
            None => None,
        };
    }
    Some(to_string(m))
}

/// The messages of a JSON-RPC document: the items of a batch, or the document itself.
pub open spec fn rpc_messages_spec(value: Json) -> Seq<Json> {
    match value {
        Json::Array(items) => items@,
        _ => seq![value],
    }
}

/// The (method, tool) entry a JSON-RPC message is audited from: its `method`, and the `name`
/// of its `params`, when JSON strings.
pub open spec fn rpc_entry(message: Json) -> (Option<Seq<char>>, Option<Seq<char>>) {
    (
        member_text(message, "method"@),
        match member(message, "params"@) {
            Some(p) => member_text(p, "name"@),
            None => None,
        },
    )
}

/// The messages of a JSON-RPC document: the items of a batch, or the document itself.
fn rpc_messages(value: &Json) -> (r: Vec<&Json>)
    ensures
        r@.map_values(|m: &Json| *m) == rpc_messages_spec(*value),
{
    let mut out: Vec<&Json> = Vec::new();
    match value {
        Json::Array(items) => {
            let mut i: usize = 0;
            while i < items.len()
                invariant
                    i <= items@.len(),
                    out@.map_values(|m: &Json| *m) == items@.take(i as int),
                decreases items@.len() - i,
            {
                let ghost before = out@;
                out.push(&items[i]);
                proof {
                    assert(out@ == before.push(&items@[i as int]));
                    assert(out@.map_values(|m: &Json| *m) =~= before.map_values(|m: &Json| *m).push(items@[i as int]));
                    assert(items@.take(i as int + 1) =~= items@.take(i as int).push(items@[i as int]));
                }
                i = i + 1;
            }
            proof {
                assert(items@.take(items@.len() as int) =~= items@);
            }
        },
        _ => {
            out.push(value);
            proof {
                assert(out@.map_values(|m: &Json| *m) =~= seq![*value]);
            }
        },
    }
    out
}

/// The names a JSON-RPC request body is audited under, message by message as `audit_entry`
/// gives them, from the document the body parses to; `["unparseable"]` when it is no JSON.
pub fn tool_names_of(body: Option<&Json>) -> (r: Vec<String>)
    ensures
        r@.map_values(|s: String| s@) == match body {
            None => seq!["unparseable"@],
            Some(v) => audit_names_spec(rpc_messages_spec(*v).map_values(|m: Json| rpc_entry(m))),
        },
{
    let value = match body {
        Some(v) => v,
        None => {
            let mut out: Vec<String> = Vec::new();
            out.push(to_string("unparseable"));
            proof {
                assert(out@.map_values(|s: String| s@) =~= seq!["unparseable"@]);
            }
            return out;
        },
    };
    let messages = rpc_messages(value);
    let ghost ms = rpc_messages_spec(*value);
    let mut entries: Vec<(Option<String>, Option<String>)> = Vec::new();
    let mut i: usize = 0;
    while i < messages.len()
        invariant
            i <= messages@.len(),
            messages@.map_values(|m: &Json| *m) == ms,
            entries@.map_values(|e: (Option<String>, Option<String>)| entry_chars(e)) == ms.take(i as int).map_values(
                |m: Json| rpc_entry(m),
            ),
        decreases messages@.len() - i,
    {
        let message = messages[i];
        assert(*message == ms[i as int]);
        let method = match crate::json::member_str(message, "method") {
            Some(m) => Some(to_string(m)),
            None => None,
        };
        let tool = match crate::json::get(message, "params") {
            Some(p) => match crate::json::member_str(p, "name") {
                Some(t) => Some(to_string(t)),
                None => None,
            },
            None => None,
        };
        let ghost before = entries@;
        let ghost e = (method, tool);
        assert(entry_chars(e) == rpc_entry(ms[i as int]));
        entries.push((method, tool));
        proof {
            assert(entries@ == before.push(e));
            assert(entries@.map_values(|e: (Option<String>, Option<String>)| entry_chars(e)) =~= before.map_values(
                |e: (Option<String>, Option<String>)| entry_chars(e),
            ).push(rpc_entry(ms[i as int])));
            assert(ms.take(i as int + 1) =~= ms.take(i as int).push(ms[i as int]));
            assert(entries@.map_values(|e: (Option<String>, Option<String>)| entry_chars(e)) =~= ms.take(
                i as int + 1,
            ).map_values(|m: Json| rpc_entry(m)));
        }
        i = i + 1;
    }
    proof {
        assert(ms.take(ms.len() as int) =~= ms);
    }
    audit_names(entries.as_slice())
}

/// Whether a JSON-RPC document has an `error` member in some message.
pub open spec fn has_error_member(value: Json) -> bool {
    exists|k: int| 0 <= k < rpc_messages_spec(value).len() && (#[trigger] member(rpc_messages_spec(value)[k], "error"@)) is Some
}

/// Whether a JSON-RPC response body carries an error object, alone or in a batch, from the
/// document the body parses to; a body that is no JSON does not.
pub fn has_error_reply(body: Option<&Json>) -> (r: bool)
    ensures
        r == match body {
            None => false,
            Some(v) => has_error_member(*v),
        },
{
    let value = match body {
        Some(v) => v,
        None => {
            return false;
        },
    };
    let messages = rpc_messages(value);
    let ghost ms = rpc_messages_spec(*value);
    let mut i: usize = 0;
    while i < messages.len()
        invariant
            i <= messages@.len(),
            messages@.map_values(|m: &Json| *m) == ms,
            ms == rpc_messages_spec(*value),
            body == Some(value),
            forall|k: int| 0 <= k < i ==> (#[trigger] member(ms[k], "error"@)) is None,
        decreases messages@.len() - i,
    {
        let message = messages[i];
        assert(*message == ms[i as int]);
        if crate::json::get(message, "error").is_some() {
            assert(member(ms[i as int], "error"@) is Some);
            assert(has_error_member(*value));
            return true;
        }
        i = i + 1;
    }
    false
}

/// The names a JSON-RPC request body is audited under: the body is parsed, and its messages
/// are read as `tool_names_of` says; `["unparseable"]` when it is no JSON.
pub fn extract_tool_names(body: &[u8]) -> (r: Vec<String>)
    ensures
        match json_of_bytes(body@) {
            None => r@.map_values(|s: String| s@) == seq!["unparseable"@],
            Some(v) => exists|j: Json|
                #[trigger] j.jv() == v && r@.map_values(|s: String| s@) == audit_names_spec(
                    rpc_messages_spec(j).map_values(|m: Json| rpc_entry(m)),
                ),
        },
{
    let doc = crate::json::parse_json_bytes(body);
    let r = tool_names_of(doc.as_ref());
    proof {
        if let Some(j) = doc {
            assert(j.jv() == json_of_bytes(body@)->0);
        }
    }
    r
}

/// Whether a JSON-RPC response body carries an error object, alone or in a batch: the body is
/// parsed and read as `has_error_reply` says; a body that is no JSON does not.
pub fn is_jsonrpc_error(body: &[u8]) -> (r: bool)
    ensures
        match json_of_bytes(body@) {
            None => !r,
            Some(v) => exists|j: Json| #[trigger] j.jv() == v && r == has_error_member(j),
        },
{
    let doc = crate::json::parse_json_bytes(body);
    let r = has_error_reply(doc.as_ref());
    proof {
        if let Some(j) = doc {
            assert(j.jv() == json_of_bytes(body@)->0);
        }
    }
    r
}

/// Whether the MCP server offers a tool: the AI permission model must allow it, and a server
/// for remote callers never offers a destructive tool.
pub open spec fn tool_offered(settings: AiSettings, tool: AiToolMetadata, writes_enabled: bool, remote: bool) -> bool {
    denial_reason(settings, tool, writes_enabled) is None && !(remote && tool.destructive)
}

/// The names of the tools offered, in registry order.
pub open spec fn offered_names(tools: Seq<AiToolMetadata>, settings: AiSettings, writes_enabled: bool, remote: bool) -> Seq<Seq<char>>
    decreases tools.len(),
{
    if tools.len() == 0 {
        Seq::empty()
    } else {
        let before = offered_names(tools.drop_last(), settings, writes_enabled, remote);
        if tool_offered(settings, tools.last(), writes_enabled, remote) {
            before.push(tools.last().name@)
        } else {
            before
        }
    }
}

/// The names of the tools an MCP server offers, from the tool registry.
pub fn offered_tool_names(tools: &[AiToolMetadata], settings: &AiSettings, writes_enabled: bool, remote: bool) -> (r: Vec<String>)
    ensures
        r@.map_values(|s: String| s@) == offered_names(tools@, *settings, writes_enabled, remote),
{
    let mut out: Vec<String> = Vec::new();
    let mut i: usize = 0;
    proof {
        assert(tools@.subrange(0, 0) =~= Seq::<AiToolMetadata>::empty());
        assert(out@.map_values(|s: String| s@) =~= Seq::<Seq<char>>::empty());
    }
    while i < tools.len()
        invariant
            i <= tools@.len(),
            out@.map_values(|s: String| s@) == offered_names(tools@.subrange(0, i as int), *settings, writes_enabled, remote),
        decreases tools@.len() - i,
    {
        let ghost before = out@;
        proof {
            let pre = tools@.subrange(0, i as int + 1);
            assert(pre.drop_last() =~= tools@.subrange(0, i as int));
            assert(pre.last() == tools@[i as int]);
        }
        let check = enforce_ai_tool_permission(settings, &tools[i], writes_enabled);
        if check.allowed && !(remote && tools[i].destructive) {
            out.push(tools[i].name.clone());
            proof {
                assert(out@.map_values(|s: String| s@) =~= before.map_values(|s: String| s@).push(tools@[i as int].name@));
            }
        }
        i = i + 1;
    }
    proof {
        assert(tools@.subrange(0, tools@.len() as int) =~= tools@);
    }
    out
}

/// Law: a server for remote callers offers exactly the tools a local one offers, less the
/// destructive ones.
pub proof fn lemma_remote_offers_no_destructive_tools(settings: AiSettings, tool: AiToolMetadata, writes_enabled: bool)
    ensures
        tool_offered(settings, tool, writes_enabled, true) == (tool_offered(settings, tool, writes_enabled, false)
            && !tool.destructive),
{
}

/// Law: writes are opt-in. With MCP writes off a server offers no write tool, and with AI
/// read access on it offers every non-destructive read tool, whether writes are on or off.
pub proof fn lemma_mcp_writes_opt_in(settings: AiSettings, tool: AiToolMetadata, writes_enabled: bool, remote: bool)
    ensures
        tool_offered(settings, tool, false, remote) ==> tool.access == AiToolAccess::Read,
        settings.read_enabled && tool.access == AiToolAccess::Read && !tool.destructive
            ==> tool_offered(settings, tool, writes_enabled, remote),
{
}

/// The instructions the MCP server gives its clients.
pub fn server_instructions(writes_enabled: bool) -> (s: &'static str)
    ensures
        s@ == if writes_enabled {
            "OpenMgmt local project management. Read and write tools are enabled."@
        } else {
            "OpenMgmt local project management. Write tools are disabled."@
        },
{
    if writes_enabled {
        "OpenMgmt local project management. Read and write tools are enabled."
    } else {
        "OpenMgmt local project management. Write tools are disabled."
    }
}

/// One row of the MCP audit log.
#[derive(Clone, Debug, PartialEq, Eq)]
pub struct McpAuditRecord {
    pub caller: String,
    pub transport: String,
    pub tool_name: String,
    pub success: bool,
    pub detail: Option<String>,
}

/// `r` is an HTTP audit row of `caller` for `tool`, with the given outcome and detail.
pub open spec fn audit_row(r: McpAuditRecord, caller: Seq<char>, tool: Seq<char>, success: bool, detail: Option<Seq<char>>) -> bool {
    &&& r.caller@ == caller
    &&& r.transport@ == "http"@
    &&& r.tool_name@ == tool
    &&& r.success == success
    &&& opt_chars(r.detail) == detail
}

fn audit_record(caller: &str, tool: &str, success: bool, detail: Option<String>) -> (r: McpAuditRecord)
    ensures
        audit_row(r, caller@, tool@, success, opt_chars(detail)),
{
    McpAuditRecord {
        caller: to_string(caller),
        transport: to_string("http"),
        tool_name: to_string(tool),
        success,
        detail,
    }
}

/// The row of a request refused at authentication.
pub fn auth_denied_record(detail: &str) -> (r: McpAuditRecord)
    ensures
        audit_row(r, "unauthenticated"@, "auth"@, false, Some(detail@)),
{
    audit_record("unauthenticated", "auth", false, Some(to_string(detail)))
}

/// The row of a request refused by the rate limit of address `ip`.
pub fn rate_limited_record(ip: &str) -> (r: McpAuditRecord)
    ensures
        audit_row(r, "unauthenticated"@, "rate_limit"@, false, Some("rate limit exceeded for "@ + ip@)),
{
    let mut d = to_string("rate limit exceeded for ");
    push_str(&mut d, ip);
    audit_record("unauthenticated", "rate_limit", false, Some(d))
}

/// One row per audited name, each for `caller` with the given outcome and detail.
pub open spec fn rows_for(
    rows: Seq<McpAuditRecord>,
    caller: Seq<char>,
    names: Seq<Seq<char>>,
    success: bool,
    detail: Option<Seq<char>>,
) -> bool {
    &&& rows.len() == names.len()
    &&& forall|k: int| 0 <= k < rows.len() ==> audit_row(#[trigger] rows[k], caller, names[k], success, detail)
}

fn records_for(caller: &str, tool_names: &[String], success: bool, detail: Option<&str>) -> (r: Vec<McpAuditRecord>)
    ensures
        rows_for(
            r@,
            caller@,
            tool_names@.map_values(|s: String| s@),
            success,
            match detail {
                Some(d) => Some(d@),
                None => None,
            },
        ),
{
    let mut out: Vec<McpAuditRecord> = Vec::new();
    let mut i: usize = 0;
    while i < tool_names.len()
        invariant
            i <= tool_names@.len(),
            out@.len() == i,
            forall|k: int| 0 <= k < i ==> audit_row(
                #[trigger] out@[k],
                caller@,
                tool_names@[k]@,
                success,
                match detail {
                    Some(d) => Some(d@),
                    None => None,
                },
            ),
        decreases tool_names@.len() - i,
    {
        let d = match detail {
            Some(d) => Some(to_string(d)),
            None => None,
        };
        out.push(audit_record(caller, tool_names[i].as_str(), success, d));
        i = i + 1;
    }
    out
}

/// The rows of a request refused for its token's scope: one failed row per name, with
/// `scope '{scope}' denied: {reason}`.
pub fn scope_denied_records(caller: &str, scope: &str, tool_names: &[String], reason: &str) -> (r: Vec<McpAuditRecord>)
    ensures
        rows_for(
            r@,
            caller@,
            tool_names@.map_values(|s: String| s@),
            false,
            Some("scope '"@ + scope@ + "' denied: "@ + reason@),
        ),
{
    let mut d = to_string("scope '");
    push_str(&mut d, scope);
    push_str(&mut d, "' denied: ");
    push_str(&mut d, reason);
    records_for(caller, tool_names, false, Some(d.as_str()))
}

/// Whether an answered call succeeded: a success status and, unless the answer is an event
/// stream (which is not read), no JSON-RPC error in the body.
pub fn call_succeeded(status_is_success: bool, is_event_stream: bool, body_has_error: bool) -> (r: bool)
    ensures
        r == (status_is_success && (is_event_stream || !body_has_error)),
{
    status_is_success && (is_event_stream || !body_has_error)
}

/// The rows of an answered request: one per name, with `HTTP {status}` when it failed.
pub fn call_records(caller: &str, tool_names: &[String], success: bool, status: &str) -> (r: Vec<McpAuditRecord>)
    ensures
        rows_for(
            r@,
            caller@,
            tool_names@.map_values(|s: String| s@),
            success,
            if success {
                None
            } else {
                Some("HTTP "@ + status@)
            },
        ),
{
    if success {
        records_for(caller, tool_names, true, None)
    } else {
        let mut d = to_string("HTTP ");
        push_str(&mut d, status);
        records_for(caller, tool_names, false, Some(d.as_str()))
    }
}

/// `refusing to serve MCP HTTP without Bearer <redacted> on non-loopback {addr}: set
/// OPENMGMT_MCP_AUTH_ISSUER or bind to 127.0.0.1`
pub open spec fn bind_refusal_text(addr: Seq<char>) -> Seq<char> {
    "refusing to serve MCP HTTP without Bearer <redacted> on non-loopback "@ + addr
        + ": set OPENMGMT_MCP_AUTH_ISSUER or bind to 127.0.0.1"@
}

/// Refuse to serve without bearer auth on an address other than loopback.
pub fn check_bind_safety(auth_enabled: bool, bind_is_loopback: bool, bind_addr: &str) -> (r: Result<
    (),
    String,
>)
    ensures
        (auth_enabled || bind_is_loopback) <==> r is Ok,
        r matches Err(m) ==> m@ == bind_refusal_text(bind_addr@),
{
    if !auth_enabled && !bind_is_loopback {
        let mut m = to_string("refusing to serve MCP HTTP without Bearer <redacted> on non-loopback ");
        push_str(&mut m, bind_addr);
        push_str(&mut m, ": set OPENMGMT_MCP_AUTH_ISSUER or bind to 127.0.0.1");
        return Err(m);
    }
    Ok(())
}

/// One address's current rate window: when it started (nanoseconds on a monotonic clock) and
/// how many requests it allowed.
#[derive(Clone, Copy, Debug, PartialEq, Eq, Structural)]
pub struct RateWindow {
    pub start: u64,
    pub count: u32,
}

/// The fixed-window rule: a missing window opens empty at `now`; a window at least
/// `window_len` old is replaced by a new one that allows this request; otherwise the request
/// is allowed while fewer than `limit` were, and refused (changing nothing) after.
pub open spec fn rate_check_spec(window: Option<RateWindow>, now: u64, limit: u32, window_len: u64) -> (
    bool,
    RateWindow,
) {
    let w = match window {
        Some(w) => w,
        None => RateWindow { start: now, count: 0 },
    };
    let elapsed = if now >= w.start {
        now - w.start
    } else {
        0
    };
    if elapsed >= window_len {
        (true, RateWindow { start: now, count: 1 })
    } else if w.count < limit {
        (true, RateWindow { start: w.start, count: (w.count + 1) as u32 })
    } else {
        (false, w)
    }
}

/// Allow or refuse one request of an address at `now`, giving the window to keep.
pub fn rate_check(window: Option<RateWindow>, now: u64, limit: u32, window_len: u64) -> (r: (
    bool,
    RateWindow,
))
    ensures
        r == rate_check_spec(window, now, limit, window_len),
{
    let w = match window {
        Some(w) => w,
        None => RateWindow { start: now, count: 0 },
    };
    let elapsed = if now >= w.start {
        now - w.start
    } else {
        0
    };
    if elapsed >= window_len {
        (true, RateWindow { start: now, count: 1 })
    } else if w.count < limit {
        (true, RateWindow { start: w.start, count: w.count + 1 })
    } else {
        (false, w)
    }
}

/// Law: with a limit of at least one, a window never counts more than `limit` requests, and a
/// request within a full, current window is refused.
pub proof fn lemma_rate_window_bounded(window: RateWindow, now: u64, limit: u32, window_len: u64)
    requires
        limit >= 1,
        window.count <= limit,
    ensures
        rate_check_spec(Some(window), now, limit, window_len).1.count <= limit,
        window.count == limit && (if now >= window.start {
            now - window.start
        } else {
            0
        }) < window_len ==> !rate_check_spec(Some(window), now, limit, window_len).0,
{
}

/// The MCP issuer setting: unset means the default issuer, set but blank disables auth, and
/// anything else is used as given.
pub fn mcp_auth_issuer_setting(value: Option<&str>) -> (r: Option<String>)
    ensures
        match value {
            None => r matches Some(s) && s@ == crate::protocol::DEFAULT_AUTH_ISSUER@,
            Some(v) => if trim_spec(v@).len() == 0 {
                r is None
            } else {
                r matches Some(s) && s@ == v@
            },
        },
{
    match value {
        None => Some(to_string(crate::protocol::DEFAULT_AUTH_ISSUER)),
        Some(v) => if trim(v).unicode_len() == 0 {
            None
        } else {
            Some(to_string(v))
        },
    }
}

/// The write setting: `true` in any ASCII case enables writes, any other value disables them,
/// and an unset variable leaves `default`.
pub fn writes_enabled_setting(value: Option<&str>, default: bool) -> (r: bool)
    ensures
        r == match value {
            Some(v) => eq_ignore_ascii_case(v@, "true"@),
            None => default,
        },
{
    match value {
        Some(v) => equals_ignore_ascii_case(v, "true"),
        None => default,
    }
}

/// The rate-limit setting: unset means `DEFAULT_RATE_LIMIT_PER_MINUTE`; a value must read as a
/// `u32`, or the configuration is refused.
pub fn rate_limit_setting(value: Option<&str>) -> (r: Result<u32, String>)
    ensures
        match value {
            None => r == Ok::<u32, String>(DEFAULT_RATE_LIMIT_PER_MINUTE),
            Some(v) => match unsigned_decimal(v@) {
                Some(n) => if n <= u32::MAX {
                    r == Ok::<u32, String>(n as u32)
                } else {
                    r matches Err(m) && m@ == "parse OPENMGMT_MCP_RATE_LIMIT_PER_MINUTE"@
                },
                None => r matches Err(m) && m@ == "parse OPENMGMT_MCP_RATE_LIMIT_PER_MINUTE"@,
            },
        },
{
    match value {
        None => Ok(DEFAULT_RATE_LIMIT_PER_MINUTE),
        Some(v) => match parse_u64(v) {
            Some(n) => if n <= 4294967295u64 {
                Ok(n as u32)
            } else {
                Err(to_string("parse OPENMGMT_MCP_RATE_LIMIT_PER_MINUTE"))
            },
            None => Err(to_string("parse OPENMGMT_MCP_RATE_LIMIT_PER_MINUTE")),
        },
    }
}

/// Seconds between publishes of the sync outbox by default.
pub const DEFAULT_SYNC_PUBLISH_INTERVAL_SECS: u64 = 15;

/// The publish interval setting: a positive `u64`, else `DEFAULT_SYNC_PUBLISH_INTERVAL_SECS`.
pub fn sync_publish_interval(value: Option<&str>) -> (r: u64)
    ensures
        r == match value {
            Some(v) => match unsigned_decimal(v@) {
                Some(n) => if 0 < n <= u64::MAX {
                    n as u64
                } else {
                    DEFAULT_SYNC_PUBLISH_INTERVAL_SECS
                },
                None => DEFAULT_SYNC_PUBLISH_INTERVAL_SECS,
            },
            None => DEFAULT_SYNC_PUBLISH_INTERVAL_SECS,
        },
{
    match value {
        Some(v) => match parse_u64(v) {
            Some(n) => if n > 0 {
                n
            } else {
                DEFAULT_SYNC_PUBLISH_INTERVAL_SECS
            },
            None => DEFAULT_SYNC_PUBLISH_INTERVAL_SECS,
        },
        None => DEFAULT_SYNC_PUBLISH_INTERVAL_SECS,
    }
}

/// The trimmed, non-empty pieces of a comma-separated list, in order.
pub open spec fn list_items(pieces: Seq<Seq<char>>) -> Seq<Seq<char>>
    decreases pieces.len(),
{
    if pieces.len() == 0 {
        Seq::empty()
    } else {
        let before = list_items(pieces.drop_last());
        let t = trim_spec(pieces.last());
        if t.len() == 0 {
            before
        } else {
            before.push(t)
        }
    }
}

/// The allowed-hosts setting: the trimmed, non-empty entries of a comma-separated list; none
/// when unset or when no entry is left.
pub fn allowed_hosts_setting(value: Option<&str>) -> (r: Option<Vec<String>>)
    ensures
        match value {
            None => r is None,
            Some(v) => {
                let items = list_items(split_char(v@, ','));
                if items.len() == 0 {
                    r is None
                } else {
                    r matches Some(hosts) && hosts@.map_values(|h: String| h@) == items
                }
            },
        },
{
    let v = match value {
        Some(v) => v,
        None => {
            return None;
        },
    };
    let pieces = split_char_pieces(v, ',');
    let ghost ps = pieces@.map_values(|p: &str| p@);
    let mut hosts: Vec<String> = Vec::new();
    let mut i: usize = 0;
    proof {
        assert(ps.subrange(0, 0) =~= Seq::<Seq<char>>::empty());
        assert(hosts@.map_values(|h: String| h@) =~= Seq::<Seq<char>>::empty());
    }
    while i < pieces.len()
        invariant
            i <= pieces@.len(),
            ps == pieces@.map_values(|p: &str| p@),
            hosts@.map_values(|h: String| h@) == list_items(ps.subrange(0, i as int)),
        decreases pieces@.len() - i,
    {
        let t = trim(pieces[i]);
        let ghost before = hosts@;
        proof {
            let pre = ps.subrange(0, i as int + 1);
            assert(pre.drop_last() =~= ps.subrange(0, i as int));
            assert(pre.last() == pieces@[i as int]@);
        }
        if t.unicode_len() > 0 {
            hosts.push(to_string(t));
            proof {
                assert(hosts@.map_values(|h: String| h@) =~= before.map_values(|h: String| h@).push(t@));
            }
        }
        i = i + 1;
    }
    proof {
        assert(ps.subrange(0, ps.len() as int) =~= ps);
        assert(split_char(v@, ',') == ps);
    }
    if hosts.len() == 0 {
        None
    } else {
        Some(hosts)
    }
}

/// `unknown scope '{part}'; valid scopes: tasks:read, tasks:write`
pub open spec fn unknown_scope_text(part: Seq<char>) -> Seq<char> {
    "unknown scope '"@ + part + "'; valid scopes: tasks:read, tasks:write"@
}

/// The refusal of an empty scope list.
pub open spec fn no_scope_text() -> Seq<char> {
    "at least one scope is required; valid scopes: tasks:read, tasks:write"@
}

/// What the operator's comma-separated scope list means: the scopes of its non-blank entries,
/// the first entry that names no scope, or nothing at all.
pub open spec fn scope_list(pieces: Seq<Seq<char>>) -> Result<Seq<ApiKeyScope>, Seq<char>>
    decreases pieces.len(),
{
    if pieces.len() == 0 {
        Ok(Seq::empty())
    } else {
        let p = pieces[0];
        if trim_spec(p).len() == 0 {
            scope_list(pieces.drop_first())
        } else {
            match ApiKeyScope::from_text(p) {
                None => Err(unknown_scope_text(p)),
                Some(s) => match scope_list(pieces.drop_first()) {
                    Ok(rest) => Ok(seq![s] + rest),
                    Err(m) => Err(m),
                },
            }
        }
    }
}

/// Read the operator's comma-separated scope list: every non-blank entry must name a scope,
/// and at least one must be given.
pub fn parse_scopes(raw: &str) -> (r: Result<Vec<ApiKeyScope>, String>)
    ensures
        match scope_list(split_char(raw@, ',')) {
            Err(m) => r matches Err(e) && e@ == m,
            Ok(s) => if s.len() == 0 {
                r matches Err(e) && e@ == no_scope_text()
            } else {
                r matches Ok(v) && v@ == s
            },
        },
{
    let pieces = split_char_pieces(raw, ',');
    let ghost ps = pieces@.map_values(|p: &str| p@);
    let mut scopes: Vec<ApiKeyScope> = Vec::new();
    let mut i: usize = 0;
    proof {
        assert(ps.subrange(0, ps.len() as int) =~= ps);
        assert(scopes@ + Seq::<ApiKeyScope>::empty() =~= scopes@);
    }
    while i < pieces.len()
        invariant
            i <= pieces@.len(),
            ps == pieces@.map_values(|p: &str| p@),
            ps == split_char(raw@, ','),
            scope_list(ps) == match scope_list(ps.subrange(i as int, ps.len() as int)) {
                Ok(rest) => Ok(scopes@ + rest),
                Err(m) => Err(m),
            },
        decreases pieces@.len() - i,
    {
        let part = pieces[i];
        let ghost rest = ps.subrange(i as int, ps.len() as int);
        let ghost before = scopes@;
        proof {
            assert(rest[0] == part@);
            assert(rest.drop_first() =~= ps.subrange(i as int + 1, ps.len() as int));
        }
        if trim(part).unicode_len() > 0 {
            match ApiKeyScope::parse(part) {
                Some(s) => {
                    scopes.push(s);
                    proof {
                        match scope_list(rest.drop_first()) {
                            Ok(r2) => {
                                assert(before + (seq![s] + r2) =~= scopes@ + r2);
                            },
                            Err(_) => {},
                        }
                    }
                },
                None => {
                    let mut m = to_string("unknown scope '");
                    push_str(&mut m, part);
                    push_str(&mut m, "'; valid scopes: tasks:read, tasks:write");
                    return Err(m);
                },
            }
        }
        i = i + 1;
    }
    proof {
        assert(ps.subrange(ps.len() as int, ps.len() as int) =~= Seq::<Seq<char>>::empty());
        assert(scopes@ + Seq::<ApiKeyScope>::empty() =~= scopes@);
    }
    if scopes.len() == 0 {
        return Err(to_string("at least one scope is required; valid scopes: tasks:read, tasks:write"));
    }
    Ok(scopes)
}

/// A text cut to at most `max` characters: unchanged when it fits, else its first `max - 1`
/// characters and `…`.
pub fn truncate(value: &str, max: usize) -> (s: String)
    requires
        max >= 1 || value@.len() == 0,
    ensures
        value@.len() <= max ==> s@ == value@,
        value@.len() > max ==> s@ == value@.subrange(0, max - 1) + seq!['…'],
{
    let n = value.unicode_len();
    if n <= max {
        to_string(value)
    } else {
        let mut s = to_string(value.substring_char(0, max - 1));
        s.push('…');
        s
    }
}

} // verus!
