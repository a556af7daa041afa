//! The AI tool registry and its permission gate.
use vstd::prelude::*;
use crate::models::{AiProviderKind, AiToolAccess, AiToolPermission};
use crate::text::{
    all_ascii_digits, find_char, find_delim, first_delim, first_index_of, is_all_ascii_digits,
    slice, str_eq, strip_prefix, to_string, trim, trim_spec,
};
use crate::time::Timestamp;

verus! {

/// Metadata of a tool the AI layer exposes; `input_schema` is compact JSON text.
#[derive(Debug)]
pub struct AiToolMetadata {
    pub name: String,
    pub description: String,
    pub access: AiToolAccess,
    pub destructive: bool,
    pub required_permission: AiToolPermission,
    pub input_schema: String,
}

impl AiToolMetadata {
    /// A copy of the metadata.
    pub fn duplicate(&self) -> (r: Self)
        ensures
            r == *self,
    {
        AiToolMetadata {
            name: self.name.clone(),
            description: self.description.clone(),
            access: self.access,
            destructive: self.destructive,
            required_permission: self.required_permission,
            input_schema: self.input_schema.clone(),
        }
    }
}

/// Global AI access settings.
#[derive(Clone, Debug)]
pub struct AiSettings {
    pub read_enabled: bool,
    pub write_enabled: bool,
    pub destructive_tools_enabled: bool,
    pub default_provider_id: Option<String>,
    pub default_model_id: Option<String>,
    pub local_only_mode: bool,
    pub created_at: Timestamp,
    pub updated_at: Timestamp,
}

/// A configured AI provider.
#[derive(Clone, Debug)]
pub struct AiProvider {
    pub id: String,
    pub name: String,
    pub kind: AiProviderKind,
    pub base_url: Option<String>,
    pub api_key_ref: Option<String>,
    pub default_model: Option<String>,
    pub enabled: bool,
    pub local_only: bool,
    pub created_at: Timestamp,
    pub updated_at: Timestamp,
}

/// The verdict of the permission gate for one tool.
#[derive(Debug)]
pub struct AiToolPermissionCheck {
    pub tool: AiToolMetadata,
    pub allowed: bool,
    pub reason: Option<String>,
}

/// The placeholder argument schema every registry tool carries, as compact JSON.
pub open spec fn placeholder_schema() -> Seq<char> {
    "{\"additionalProperties\":true,\"description\":\"placeholder schema; provider adapters will map concrete schemas later\",\"type\":\"object\"}"@
}

/// The registry as (name, description, access) rows, in order.
pub open spec fn ai_tool_table() -> Seq<(Seq<char>, Seq<char>, AiToolAccess)> {
    seq![
        ("list_organizations"@, "List active OpenMgmt organizations"@, AiToolAccess::Read),
        ("list_projects"@, "List active projects"@, AiToolAccess::Read),
        ("get_project"@, "Get one project by id"@, AiToolAccess::Read),
        ("query_tasks"@, "Query tasks with filters and sorting"@, AiToolAccess::Read),
        ("list_tasks"@, "List tasks with simple project/status filters"@, AiToolAccess::Read),
        ("get_task"@, "Get one task by id"@, AiToolAccess::Read),
        ("get_board_state"@, "Get the scored ER board"@, AiToolAccess::Read),
        ("get_today_plan"@, "Get today's deterministic focus plan"@, AiToolAccess::Read),
        ("list_saved_task_views"@, "List saved task views"@, AiToolAccess::Read),
        ("list_timer_sessions"@, "List timer sessions for a task"@, AiToolAccess::Read),
        ("get_scoring_settings"@, "Get task scoring settings"@, AiToolAccess::Read),
        ("create_task"@, "Create a task"@, AiToolAccess::Write),
        ("update_task"@, "Update a task"@, AiToolAccess::Write),
        ("complete_task"@, "Complete a task"@, AiToolAccess::Write),
        ("start_task_timer"@, "Start a task timer"@, AiToolAccess::Write),
        ("pause_task_timer"@, "Pause a task timer"@, AiToolAccess::Write),
        ("resume_task_timer"@, "Resume a task timer"@, AiToolAccess::Write),
        ("stop_task_timer"@, "Stop a task timer"@, AiToolAccess::Write),
        ("create_project"@, "Create a project"@, AiToolAccess::Write),
        ("summarize_project"@, "Summarize one project deterministically"@, AiToolAccess::Read),
        ("triage_backlog"@, "Group stale, blocked, and overdue tasks"@, AiToolAccess::Read),
        ("plan_today"@, "Plan today from board state"@, AiToolAccess::Read),
        ("suggest_next_task"@, "Suggest the highest urgency next task"@, AiToolAccess::Read)
    ]
}

/// Whether a metadata record is the registry row `row`: read rows require read permission,
/// write rows write permission, none is destructive.
pub open spec fn is_row(t: AiToolMetadata, row: (Seq<char>, Seq<char>, AiToolAccess)) -> bool {
    &&& t.name@ == row.0
    &&& t.description@ == row.1
    &&& t.access == row.2
    &&& !t.destructive
    &&& t.required_permission == (if row.2 == AiToolAccess::Read {
        AiToolPermission::ReadData
    } else {
        AiToolPermission::WriteData
    })
    &&& t.input_schema@ == placeholder_schema()
}

fn schema() -> (s: String)
    ensures
        s@ == placeholder_schema(),
{
    to_string(
        "{\"additionalProperties\":true,\"description\":\"placeholder schema; provider adapters will map concrete schemas later\",\"type\":\"object\"}",
    )
}

fn read_tool(name: &str, description: &str) -> (t: AiToolMetadata)
    ensures
        is_row(t, (name@, description@, AiToolAccess::Read)),
{
    AiToolMetadata {
        name: to_string(name),
        description: to_string(description),
        access: AiToolAccess::Read,
        destructive: false,
        required_permission: AiToolPermission::ReadData,
        input_schema: schema(),
    }
}

fn write_tool(name: &str, description: &str) -> (t: AiToolMetadata)
    ensures
        is_row(t, (name@, description@, AiToolAccess::Write)),
{
    AiToolMetadata {
        name: to_string(name),
        description: to_string(description),
        access: AiToolAccess::Write,
        destructive: false,
        required_permission: AiToolPermission::WriteData,
        input_schema: schema(),
    }
}

/// Every tool the AI layer knows, in registry order.
pub fn ai_tool_registry() -> (tools: Vec<AiToolMetadata>)
    ensures
        tools@.len() == ai_tool_table().len(),
        forall|i: int| 0 <= i < tools@.len() ==> is_row(#[trigger] tools@[i], ai_tool_table()[i]),
{
    let mut tools: Vec<AiToolMetadata> = Vec::new();
    tools.push(read_tool("list_organizations", "List active OpenMgmt organizations"));
    tools.push(read_tool("list_projects", "List active projects"));
    tools.push(read_tool("get_project", "Get one project by id"));
    tools.push(read_tool("query_tasks", "Query tasks with filters and sorting"));
    tools.push(read_tool("list_tasks", "List tasks with simple project/status filters"));
    tools.push(read_tool("get_task", "Get one task by id"));
    tools.push(read_tool("get_board_state", "Get the scored ER board"));
    tools.push(read_tool("get_today_plan", "Get today's deterministic focus plan"));
    tools.push(read_tool("list_saved_task_views", "List saved task views"));
    tools.push(read_tool("list_timer_sessions", "List timer sessions for a task"));
    tools.push(read_tool("get_scoring_settings", "Get task scoring settings"));
    tools.push(write_tool("create_task", "Create a task"));
    tools.push(write_tool("update_task", "Update a task"));
    tools.push(write_tool("complete_task", "Complete a task"));
    tools.push(write_tool("start_task_timer", "Start a task timer"));
    tools.push(write_tool("pause_task_timer", "Pause a task timer"));
    tools.push(write_tool("resume_task_timer", "Resume a task timer"));
    tools.push(write_tool("stop_task_timer", "Stop a task timer"));
    tools.push(write_tool("create_project", "Create a project"));
    tools.push(read_tool("summarize_project", "Summarize one project deterministically"));
    tools.push(read_tool("triage_backlog", "Group stale, blocked, and overdue tasks"));
    tools.push(read_tool("plan_today", "Plan today from board state"));
    tools.push(read_tool("suggest_next_task", "Suggest the highest urgency next task"));
    proof {
        assert(tools@.len() == ai_tool_table().len());
    }
    tools
}

/// Index of the first registry row named `name`, if any.
pub open spec fn tool_row_index(name: Seq<char>) -> Option<int> {
    let t = ai_tool_table();
    if exists|i: int| 0 <= i < t.len() && (#[trigger] t[i]).0 == name {
        Some(choose|i: int| 0 <= i < t.len() && (#[trigger] t[i]).0 == name && forall|j: int| 0 <= j < i ==> (#[trigger] t[j]).0 != name)
    } else {
        None
    }
}

/// The registry metadata of the tool called `name`.
pub fn ai_tool_metadata(name: &str) -> (r: Option<AiToolMetadata>)
    ensures
        match r {
            Some(t) => exists|i: int|
                0 <= i < ai_tool_table().len() && (#[trigger] ai_tool_table()[i]).0 == name@
                    && (forall|j: int| 0 <= j < i ==> (#[trigger] ai_tool_table()[j]).0 != name@)
                    && is_row(t, ai_tool_table()[i]),
            None => forall|i: int|
                0 <= i < ai_tool_table().len() ==> (#[trigger] ai_tool_table()[i]).0 != name@,
        },
{
    let mut tools = ai_tool_registry();
    let n = tools.len();
    let mut i: usize = 0;
    while i < n
        invariant
            n == tools@.len(),
            n == ai_tool_table().len(),
            i <= n,
            forall|k: int| 0 <= k < n ==> is_row(#[trigger] tools@[k], ai_tool_table()[k]),
            forall|j: int| 0 <= j < i ==> (#[trigger] ai_tool_table()[j]).0 != name@,
        decreases n - i,
    {
        if str_eq(tools[i].name.as_str(), name) {
            let t = tools.remove(i);
            return Some(t);
        }
        i = i + 1;
    }
    None
}

/// The permission gate's reason to refuse a tool, or `None` when it is allowed.
pub open spec fn denial_reason(settings: AiSettings, tool: AiToolMetadata, mcp_writes_enabled: bool) -> Option<Seq<char>> {
    if tool.destructive && !settings.destructive_tools_enabled {
        Some("destructive AI tools are disabled"@)
    } else if tool.access == AiToolAccess::Read && !settings.read_enabled {
        Some("AI read access is disabled"@)
    } else if tool.access == AiToolAccess::Write && !settings.write_enabled {
        Some("AI write access is disabled"@)
    } else if tool.access == AiToolAccess::Write && !mcp_writes_enabled {
        Some("MCP write access is disabled"@)
    } else {
        None
    }
}

fn denied(tool: &AiToolMetadata, reason: &str) -> (c: AiToolPermissionCheck)
    ensures
        c.tool == *tool,
        !c.allowed,
        c.reason matches Some(r) && r@ == reason@,
{
    AiToolPermissionCheck { tool: tool.duplicate(), allowed: false, reason: Some(to_string(reason)) }
}

/// Decide whether a tool may run under the AI settings: destructive tools need destructive
/// access, reads need read access, writes need both AI and MCP write access.
pub fn enforce_ai_tool_permission(
    settings: &AiSettings,
    tool: &AiToolMetadata,
    mcp_writes_enabled: bool,
) -> (c: AiToolPermissionCheck)
    ensures
        c.tool == *tool,
        c.allowed == (denial_reason(*settings, *tool, mcp_writes_enabled) is None),
        match denial_reason(*settings, *tool, mcp_writes_enabled) {
            Some(m) => c.reason matches Some(r) && r@ == m,
            None => c.reason is None,
        },
{
    if tool.destructive && !settings.destructive_tools_enabled {
        return denied(tool, "destructive AI tools are disabled");
    }
    match tool.access {
        AiToolAccess::Read => {
            if !settings.read_enabled {
                return denied(tool, "AI read access is disabled");
            }
        },
        AiToolAccess::Write => {
            if !settings.write_enabled {
                return denied(tool, "AI write access is disabled");
            }
            if !mcp_writes_enabled {
                return denied(tool, "MCP write access is disabled");
            }
        },
    }
    AiToolPermissionCheck { tool: tool.duplicate(), allowed: true, reason: None }
}

/// The authority part of a URL after its scheme: up to the first `/`, `?` or `#`, trimmed.
pub open spec fn authority_of(rest: Seq<char>) -> Seq<char> {
    trim_spec(rest.subrange(0, first_delim(rest)))
}

/// The host and optional port of an authority: a bracketed IPv6 host may be followed by
/// `:port`; otherwise the host runs to the first `:`. `None` for a malformed bracket.
pub open spec fn host_and_port(a: Seq<char>) -> Option<(Seq<char>, Option<Seq<char>>)> {
    if a.len() > 0 && a[0] == '[' {
        let b = a.drop_first();
        let end = first_index_of(b, ']');
        if end == b.len() {
            None
        } else {
            let rem = b.subrange(end + 1, b.len() as int);
            if rem.len() > 0 && rem[0] != ':' {
                None
            } else {
                Some((b.subrange(0, end), if rem.len() > 0 { Some(rem.drop_first()) } else { None }))
            }
        }
    } else {
        let k = first_index_of(a, ':');
        if k == a.len() {
            Some((a, None))
        } else {
            Some((a.subrange(0, k), Some(a.subrange(k + 1, a.len() as int))))
        }
    }
}

/// Whether a base URL is http(s) on exactly `localhost`, `127.0.0.1`, `::1` or `0.0.0.0`,
/// with no user info and a numeric port if any.
pub open spec fn local_base_url(s: Seq<char>) -> bool {
    let rest = if s.len() >= 7 && s.subrange(0, 7) == "http://"@ {
        Some(s.subrange(7, s.len() as int))
    } else if s.len() >= 8 && s.subrange(0, 8) == "https://"@ {
        Some(s.subrange(8, s.len() as int))
    } else {
        None
    };
    match rest {
        None => false,
        Some(r) => {
            let a = authority_of(r);
            if a.len() == 0 || a.contains('@') {
                false
            } else {
                match host_and_port(a) {
                    None => false,
                    Some((host, port)) => {
                        &&& (port matches Some(p) ==> p.len() > 0 && all_ascii_digits(p))
                        &&& (host == "localhost"@ || host == "127.0.0.1"@ || host == "::1"@ || host == "0.0.0.0"@)
                    },
                }
            }
        },
    }
}

/// Whether a base URL names this machine exactly (see [`local_base_url`]).
pub fn is_local_base_url(value: &str) -> (r: bool)
    ensures
        r == local_base_url(value@),
{
    let rest = match strip_prefix(value, "http://") {
        Some(r) => r,
        None => match strip_prefix(value, "https://") {
            Some(r) => r,
            None => {
                proof {
                    reveal_strlit("http://");
                    reveal_strlit("https://");
                }
                return false;
            },
        },
    };
    proof {
        reveal_strlit("http://");
        reveal_strlit("https://");
    }
    let d = find_delim(rest);
    let authority = trim(slice(rest, 0, d));
    if authority.unicode_len() == 0 || crate::text::contains_char(authority, '@') {
        return false;
    }
    let n = authority.unicode_len();
    let (host, port): (&str, Option<&str>) = if authority.get_char(0) == '[' {
        let bracketed = slice(authority, 1, n);
        assert(bracketed@ =~= authority@.drop_first());
        let end = find_char(bracketed, ']');
        let m = bracketed.unicode_len();
        if end == m {
            return false;
        }
        let remainder = slice(bracketed, end + 1, m);
        if remainder.unicode_len() > 0 && remainder.get_char(0) != ':' {
            return false;
        }
        let port = if remainder.unicode_len() > 0 {
            let p = slice(remainder, 1, remainder.unicode_len());
            assert(p@ =~= remainder@.drop_first());
            Some(p)
        } else {
            None
        };
        (slice(bracketed, 0, end), port)
    } else {
        let k = find_char(authority, ':');
        if k == n {
            assert(authority@.subrange(0, n as int) =~= authority@);
            (authority, None)
        } else {
            (slice(authority, 0, k), Some(slice(authority, k + 1, n)))
        }
    };
    match port {
        Some(p) => {
            if p.unicode_len() == 0 || !is_all_ascii_digits(p) {
                return false;
            }
        },
        None => {},
    }
    str_eq(host, "localhost") || str_eq(host, "127.0.0.1") || str_eq(host, "::1") || str_eq(
        host,
        "0.0.0.0",
    )
}

/// Whether a provider is local: flagged local-only, a local kind, or a local base URL.
pub open spec fn provider_local(p: AiProvider) -> bool {
    p.local_only || p.kind == AiProviderKind::LocalOpenAiCompatible || p.kind
        == AiProviderKind::Ollama || p.kind == AiProviderKind::LmStudio || (p.base_url matches Some(
        u,
    ) && local_base_url(u@))
}

/// Whether a provider runs on this machine.
pub fn provider_is_local(provider: &AiProvider) -> (r: bool)
    ensures
        r == provider_local(*provider),
{
    if provider.local_only {
        return true;
    }
    match provider.kind {
        AiProviderKind::LocalOpenAiCompatible | AiProviderKind::Ollama | AiProviderKind::LmStudio => {
            return true;
        },
        _ => {},
    }
    match &provider.base_url {
        Some(u) => is_local_base_url(u.as_str()),
        None => false,
    }
}

/// Whether the local-only setting admits a provider.
pub fn provider_allowed_by_local_only(settings: &AiSettings, provider: &AiProvider) -> (r: bool)
    ensures
        r == (!settings.local_only_mode || provider_local(*provider)),
{
    !settings.local_only_mode || provider_is_local(provider)
}

} // verus!
