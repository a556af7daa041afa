//! The local assistant's agent protocol: its tool registry and manifest, the system prompt and
//! seed messages of the agent loop, and the reading of the model's JSON replies.
use vstd::prelude::*;
use crate::local_ai::system_prompt_text;
use crate::models::{
    LocalAiAccessMode, LocalAiChatMessage, LocalAiChatMessageRecord, LocalAiChatRole,
    LocalAiToolDefinition,
};
use crate::text::{join_lines, push_str, str_eq, to_string, trim, trim_spec};
use crate::json::{first_member_spec, json_of_text, member, member_text, text_of, Json};

verus! {

/// A row of the tool registry: name, description, write, destructive, argument schema (compact
/// JSON) and examples.
pub open spec fn local_tool_row(
    name: Seq<char>,
    description: Seq<char>,
    write: bool,
    destructive: bool,
    schema: Seq<char>,
    examples: Seq<Seq<char>>,
) -> (Seq<char>, Seq<char>, bool, bool, Seq<char>, Seq<Seq<char>>) {
    (name, description, write, destructive, schema, examples)
}

/// The tools the local assistant may call, in registry order: fourteen reads, then the typed
/// writes; archive and reset writes are destructive. There is no shell, SQL, file or delete
/// tool.
pub open spec fn local_tool_table() -> Seq<(Seq<char>, Seq<char>, bool, bool, Seq<char>, Seq<Seq<char>>)> {
    seq![
        local_tool_row("get_workspace_summary"@, "Counts of organizations, projects, and active tasks."@, false, false, "{}"@, Seq::empty()),
        local_tool_row("list_organizations"@, "List active organizations."@, false, false, "{}"@, Seq::empty()),
        local_tool_row("list_projects"@, "List active projects."@, false, false, "{}"@, Seq::empty()),
        local_tool_row("list_tasks"@, "List active tasks."@, false, false, "{}"@, Seq::empty()),
        local_tool_row("get_board"@, "Current board state (Now/Next/etc)."@, false, false, "{}"@, Seq::empty()),
        local_tool_row("get_daily_operations"@, "Board plus overdue and unscheduled tasks."@, false, false, "{}"@, Seq::empty()),
        local_tool_row("get_schedule_today"@, "Today's scheduled tasks."@, false, false, "{}"@, Seq::empty()),
        local_tool_row("get_schedule_week"@, "This week's scheduled tasks."@, false, false, "{}"@, Seq::empty()),
        local_tool_row("get_unscheduled_tasks"@, "Active tasks with no schedule."@, false, false, "{}"@, Seq::empty()),
        local_tool_row("get_overdue_tasks"@, "Tasks past their due date."@, false, false, "{}"@, Seq::empty()),
        local_tool_row("get_task"@, "Get one task."@, false, false, "{\"task_id\":\"uuid\",\"task_selector\":\"title (fuzzy)\"}"@, Seq::empty()),
        local_tool_row("get_project"@, "Get one project."@, false, false, "{\"project_id\":\"uuid\",\"project_selector\":\"name (fuzzy)\"}"@, Seq::empty()),
        local_tool_row("get_scoring_settings"@, "Urgency scoring weights."@, false, false, "{}"@, Seq::empty()),
        local_tool_row("get_sync_status"@, "Local-first sync status."@, false, false, "{}"@, Seq::empty()),
        local_tool_row("create_organization"@, "Create an organization."@, true, false, "{\"description\":\"string\",\"name\":\"string (required)\"}"@, seq!["make an organization called Black Candle"@]),
        local_tool_row("update_organization"@, "Rename or re-describe an organization."@, true, false, "{\"description\":\"string\",\"name\":\"string\",\"organization_selector\":\"name or 'any'\"}"@, Seq::empty()),
        local_tool_row("archive_organization"@, "Archive (hide) an organization."@, true, true, "{\"organization_selector\":\"name\"}"@, Seq::empty()),
        local_tool_row("create_project"@, "Create a project under an organization."@, true, false, "{\"description\":\"string\",\"name\":\"string (required)\",\"organization_selector\":\"name or 'any'\",\"priority\":\"1-5\"}"@, seq!["create a project called Website under Black Candle"@]),
        local_tool_row("update_project"@, "Update a project's fields."@, true, false, "{\"name\":\"string\",\"priority\":\"1-5\",\"project_selector\":\"name\",\"status\":\"active|paused|completed\"}"@, Seq::empty()),
        local_tool_row("archive_project"@, "Archive (hide) a project."@, true, true, "{\"project_selector\":\"name\"}"@, Seq::empty()),
        local_tool_row("create_task"@, "Create a task in a project."@, true, false, "{\"description\":\"string\",\"priority\":\"1-5\",\"project_selector\":\"name or 'any'\",\"title\":\"string (required)\"}"@, seq!["add a task called do things to localtest"@]),
        local_tool_row("update_task"@, "Update a task's fields."@, true, false, "{\"description\":\"string\",\"priority\":\"1-5\",\"task_selector\":\"title\",\"title\":\"string\"}"@, Seq::empty()),
        local_tool_row("start_task"@, "Mark a task in progress."@, true, false, "{\"task_selector\":\"title\"}"@, Seq::empty()),
        local_tool_row("block_task"@, "Block a task with a reason."@, true, false, "{\"reason\":\"string\",\"task_selector\":\"title\"}"@, Seq::empty()),
        local_tool_row("unblock_task"@, "Return a blocked task to ready."@, true, false, "{\"task_selector\":\"title\"}"@, Seq::empty()),
        local_tool_row("complete_task"@, "Mark a task done."@, true, false, "{\"task_selector\":\"title\"}"@, Seq::empty()),
        local_tool_row("cancel_task"@, "Cancel a task."@, true, false, "{\"task_selector\":\"title\"}"@, Seq::empty()),
        local_tool_row("schedule_task"@, "Schedule a task into a time block (RFC3339 times)."@, true, false, "{\"end_at\":\"RFC3339\",\"start_at\":\"RFC3339\",\"task_selector\":\"title\"}"@, Seq::empty()),
        local_tool_row("reschedule_task"@, "Move a task's time block (RFC3339 times)."@, true, false, "{\"end_at\":\"RFC3339\",\"start_at\":\"RFC3339\",\"task_selector\":\"title\"}"@, Seq::empty()),
        local_tool_row("clear_task_schedule"@, "Remove a task's schedule."@, true, false, "{\"task_selector\":\"title\"}"@, Seq::empty()),
        local_tool_row("start_task_timer"@, "Start the work timer for a task."@, true, false, "{\"task_selector\":\"title\"}"@, Seq::empty()),
        local_tool_row("pause_task_timer"@, "Pause a task's timer."@, true, false, "{\"task_selector\":\"title\"}"@, Seq::empty()),
        local_tool_row("resume_task_timer"@, "Resume a task's timer."@, true, false, "{\"task_selector\":\"title\"}"@, Seq::empty()),
        local_tool_row("stop_task_timer"@, "Stop a task's timer."@, true, false, "{\"task_selector\":\"title\"}"@, Seq::empty()),
        local_tool_row("complete_task_with_timer"@, "Stop the timer and complete a task."@, true, false, "{\"task_selector\":\"title\"}"@, Seq::empty()),
        local_tool_row("update_scoring_settings"@, "Adjust urgency scoring weights."@, true, false, "{\"due_soon_boost\":\"int\",\"overdue_boost\":\"int\",\"priority_weight\":\"int\"}"@, Seq::empty()),
        local_tool_row("reset_scoring_settings"@, "Reset scoring weights to defaults."@, true, true, "{}"@, Seq::empty()),
    ]
}

/// The characters of each string.
pub open spec fn texts(v: Seq<String>) -> Seq<Seq<char>> {
    v.map_values(|s: String| s@)
}

/// Whether a tool definition is the registry row `row`, with no aliases.
pub open spec fn is_local_tool(
    t: LocalAiToolDefinition,
    row: (Seq<char>, Seq<char>, bool, bool, Seq<char>, Seq<Seq<char>>),
) -> bool {
    &&& t.name@ == row.0
    &&& t.description@ == row.1
    &&& t.write == row.2
    &&& t.destructive == row.3
    &&& t.input_schema@ == row.4
    &&& texts(t.examples@) == row.5
    &&& t.aliases@.len() == 0
}

fn read_tool(name: &str, description: &str, input_schema: &str) -> (t: LocalAiToolDefinition)
    ensures
        is_local_tool(t, local_tool_row(name@, description@, false, false, input_schema@, Seq::empty())),
{
    let t = LocalAiToolDefinition {
        name: to_string(name),
        description: to_string(description),
        write: false,
        destructive: false,
        input_schema: to_string(input_schema),
        examples: Vec::new(),
        aliases: Vec::new(),
    };
    assert(texts(t.examples@) =~= Seq::<Seq<char>>::empty());
    t
}

fn write_tool(name: &str, description: &str, input_schema: &str, destructive: bool) -> (t:
    LocalAiToolDefinition)
    ensures
        is_local_tool(t, local_tool_row(name@, description@, true, destructive, input_schema@, Seq::empty())),
{
    let t = LocalAiToolDefinition {
        name: to_string(name),
        description: to_string(description),
        write: true,
        destructive,
        input_schema: to_string(input_schema),
        examples: Vec::new(),
        aliases: Vec::new(),
    };
    assert(texts(t.examples@) =~= Seq::<Seq<char>>::empty());
    t
}

impl LocalAiToolDefinition {
    /// The same tool with one example request.
    fn with_example(self, example: &str) -> (t: Self)
        ensures
            t.name == self.name,
            t.description == self.description,
            t.write == self.write,
            t.destructive == self.destructive,
            t.input_schema == self.input_schema,
            t.aliases == self.aliases,
            texts(t.examples@) == seq![example@],
    {
        let mut out: Vec<String> = Vec::new();
        out.push(to_string(example));
        assert(texts(out@) =~= seq![example@]);
        LocalAiToolDefinition {
            name: self.name,
            description: self.description,
            write: self.write,
            destructive: self.destructive,
            input_schema: self.input_schema,
            examples: out,
            aliases: self.aliases,
        }
    }
}

/// Every tool the local assistant may call, in registry order.
#[verifier::rlimit(40)]
pub fn local_ai_tool_registry() -> (tools: Vec<LocalAiToolDefinition>)
    ensures
        tools@.len() == local_tool_table().len(),
        forall|i: int| 0 <= i < tools@.len() ==> is_local_tool(#[trigger] tools@[i], local_tool_table()[i]),
{
    let mut tools: Vec<LocalAiToolDefinition> = Vec::new();
    tools.push(read_tool("get_workspace_summary", "Counts of organizations, projects, and active tasks.", "{}"));
    tools.push(read_tool("list_organizations", "List active organizations.", "{}"));
    tools.push(read_tool("list_projects", "List active projects.", "{}"));
    tools.push(read_tool("list_tasks", "List active tasks.", "{}"));
    tools.push(read_tool("get_board", "Current board state (Now/Next/etc).", "{}"));
    tools.push(read_tool("get_daily_operations", "Board plus overdue and unscheduled tasks.", "{}"));
    tools.push(read_tool("get_schedule_today", "Today's scheduled tasks.", "{}"));
    tools.push(read_tool("get_schedule_week", "This week's scheduled tasks.", "{}"));
    tools.push(read_tool("get_unscheduled_tasks", "Active tasks with no schedule.", "{}"));
    tools.push(read_tool("get_overdue_tasks", "Tasks past their due date.", "{}"));
    tools.push(read_tool("get_task", "Get one task.", "{\"task_id\":\"uuid\",\"task_selector\":\"title (fuzzy)\"}"));
    tools.push(read_tool("get_project", "Get one project.", "{\"project_id\":\"uuid\",\"project_selector\":\"name (fuzzy)\"}"));
    tools.push(read_tool("get_scoring_settings", "Urgency scoring weights.", "{}"));
    tools.push(read_tool("get_sync_status", "Local-first sync status.", "{}"));
    tools.push(write_tool("create_organization", "Create an organization.", "{\"description\":\"string\",\"name\":\"string (required)\"}", false).with_example("make an organization called Black Candle"));
    tools.push(write_tool("update_organization", "Rename or re-describe an organization.", "{\"description\":\"string\",\"name\":\"string\",\"organization_selector\":\"name or 'any'\"}", false));
    tools.push(write_tool("archive_organization", "Archive (hide) an organization.", "{\"organization_selector\":\"name\"}", true));
    tools.push(write_tool("create_project", "Create a project under an organization.", "{\"description\":\"string\",\"name\":\"string (required)\",\"organization_selector\":\"name or 'any'\",\"priority\":\"1-5\"}", false).with_example("create a project called Website under Black Candle"));
    tools.push(write_tool("update_project", "Update a project's fields.", "{\"name\":\"string\",\"priority\":\"1-5\",\"project_selector\":\"name\",\"status\":\"active|paused|completed\"}", false));
    tools.push(write_tool("archive_project", "Archive (hide) a project.", "{\"project_selector\":\"name\"}", true));
    tools.push(write_tool("create_task", "Create a task in a project.", "{\"description\":\"string\",\"priority\":\"1-5\",\"project_selector\":\"name or 'any'\",\"title\":\"string (required)\"}", false).with_example("add a task called do things to localtest"));
    tools.push(write_tool("update_task", "Update a task's fields.", "{\"description\":\"string\",\"priority\":\"1-5\",\"task_selector\":\"title\",\"title\":\"string\"}", false));
    tools.push(write_tool("start_task", "Mark a task in progress.", "{\"task_selector\":\"title\"}", false));
    tools.push(write_tool("block_task", "Block a task with a reason.", "{\"reason\":\"string\",\"task_selector\":\"title\"}", false));
    tools.push(write_tool("unblock_task", "Return a blocked task to ready.", "{\"task_selector\":\"title\"}", false));
    tools.push(write_tool("complete_task", "Mark a task done.", "{\"task_selector\":\"title\"}", false));
    tools.push(write_tool("cancel_task", "Cancel a task.", "{\"task_selector\":\"title\"}", false));
    tools.push(write_tool("schedule_task", "Schedule a task into a time block (RFC3339 times).", "{\"end_at\":\"RFC3339\",\"start_at\":\"RFC3339\",\"task_selector\":\"title\"}", false));
    tools.push(write_tool("reschedule_task", "Move a task's time block (RFC3339 times).", "{\"end_at\":\"RFC3339\",\"start_at\":\"RFC3339\",\"task_selector\":\"title\"}", false));
    tools.push(write_tool("clear_task_schedule", "Remove a task's schedule.", "{\"task_selector\":\"title\"}", false));
    tools.push(write_tool("start_task_timer", "Start the work timer for a task.", "{\"task_selector\":\"title\"}", false));
    tools.push(write_tool("pause_task_timer", "Pause a task's timer.", "{\"task_selector\":\"title\"}", false));
    tools.push(write_tool("resume_task_timer", "Resume a task's timer.", "{\"task_selector\":\"title\"}", false));
    tools.push(write_tool("stop_task_timer", "Stop a task's timer.", "{\"task_selector\":\"title\"}", false));
    tools.push(write_tool("complete_task_with_timer", "Stop the timer and complete a task.", "{\"task_selector\":\"title\"}", false));
    tools.push(write_tool("update_scoring_settings", "Adjust urgency scoring weights.", "{\"due_soon_boost\":\"int\",\"overdue_boost\":\"int\",\"priority_weight\":\"int\"}", false));
    tools.push(write_tool("reset_scoring_settings", "Reset scoring weights to defaults.", "{}", true));
    tools
}

/// Look a tool up by name (or alias), ignoring surrounding white space.
pub fn local_ai_tool(name: &str) -> (r: Option<LocalAiToolDefinition>)
    ensures
        match r {
            Some(t) => exists|i: int|
                0 <= i < local_tool_table().len() && (#[trigger] local_tool_table()[i]).0
                    == trim_spec(name@) && (forall|j: int|
                    0 <= j < i ==> (#[trigger] local_tool_table()[j]).0 != trim_spec(name@))
                    && is_local_tool(t, local_tool_table()[i]),
            None => forall|i: int|
                0 <= i < local_tool_table().len() ==> (#[trigger] local_tool_table()[i]).0
                    != trim_spec(name@),
        },
{
    let needle = trim(name);
    let mut tools = local_ai_tool_registry();
    let n = tools.len();
    let mut i: usize = 0;
    while i < n
        invariant
            n == tools@.len(),
            n == local_tool_table().len(),
            i <= n,
            needle@ == trim_spec(name@),
            forall|k: int| 0 <= k < n ==> is_local_tool(#[trigger] tools@[k], local_tool_table()[k]),
            forall|j: int| 0 <= j < i ==> (#[trigger] local_tool_table()[j]).0 != needle@,
        decreases n - i,
    {
        let hit = str_eq(tools[i].name.as_str(), needle) || has_alias(&tools[i].aliases, needle);
        if hit {
            let t = tools.remove(i);
            return Some(t);
        }
        i = i + 1;
    }
    None
}

fn has_alias(aliases: &Vec<String>, needle: &str) -> (r: bool)
    ensures
        r == exists|k: int| 0 <= k < aliases@.len() && (#[trigger] aliases@[k])@ == needle@,
{
    let mut i: usize = 0;
    while i < aliases.len()
        invariant
            i <= aliases@.len(),
            forall|k: int| 0 <= k < i ==> (#[trigger] aliases@[k])@ != needle@,
        decreases aliases@.len() - i,
    {
        if str_eq(aliases[i].as_str(), needle) {
            return true;
        }
        i = i + 1;
    }
    false
}

/// The manifest line of a registry row: `- {name} [read|write]: {description} args={schema}`.
pub open spec fn manifest_line(
    row: (Seq<char>, Seq<char>, bool, bool, Seq<char>, Seq<Seq<char>>),
) -> Seq<char> {
    "- "@ + row.0 + " ["@ + (if row.2 {
        "write"@
    } else {
        "read"@
    }) + "]: "@ + row.1 + " args="@ + row.4
}

/// A compact, model-friendly listing of every tool and its argument shape, one line each.
#[verifier::rlimit(40)]
pub fn build_tool_manifest_text() -> (s: String)
    ensures
        s@ == join_lines(local_tool_table().map_values(|row| manifest_line(row))),
{
    let tools = local_ai_tool_registry();
    let n = tools.len();
    let ghost rows = local_tool_table();
    let mut out = String::new();
    let mut i: usize = 0;
    proof {
        assert(rows.subrange(0, 0).map_values(|row| manifest_line(row)) =~= Seq::<Seq<char>>::empty());
    }
    while i < n
        invariant
            n == tools@.len(),
            rows == local_tool_table(),
            n == rows.len(),
            i <= n,
            forall|k: int| 0 <= k < n ==> is_local_tool(#[trigger] tools@[k], rows[k]),
            out@ == join_lines(rows.subrange(0, i as int).map_values(|row| manifest_line(row))),
        decreases n - i,
    {
        let t = &tools[i];
        let ghost before = out@;
        if i > 0 {
            push_str(&mut out, "\n");
        }
        push_str(&mut out, "- ");
        push_str(&mut out, t.name.as_str());
        push_str(&mut out, " [");
        push_str(&mut out, if t.write { "write" } else { "read" });
        push_str(&mut out, "]: ");
        push_str(&mut out, t.description.as_str());
        push_str(&mut out, " args=");
        push_str(&mut out, t.input_schema.as_str());
        proof {
            let ls = rows.subrange(0, i as int + 1).map_values(|row| manifest_line(row));
            assert(ls.drop_last() =~= rows.subrange(0, i as int).map_values(|row| manifest_line(row)));
            assert(ls.last() == manifest_line(rows[i as int]));
            assert(is_local_tool(tools@[i as int], rows[i as int]));
            if i == 0 {
                assert(ls.len() == 1);
                assert(out@ =~= ls[0]);
            } else {
                assert(out@ =~= before + "\n"@ + ls.last());
            }
        }
        i = i + 1;
    }
    proof {
        assert(rows.subrange(0, n as int) =~= rows);
    }
    out
}

/// The rule line the system prompt gives for an access mode.
pub open spec fn access_mode_line(mode: LocalAiAccessMode) -> Seq<char> {
    match mode {
        LocalAiAccessMode::ReadOnly => "ACCESS MODE: READ ONLY. You may call read tools. Do NOT call write tools. If the user asks to change data, return a final message saying you need write access (ask them to switch to Ask First or Full Access)."@,
        LocalAiAccessMode::AskBeforeWrite => "ACCESS MODE: ASK FIRST. Read tools run automatically. Call write tools normally; the app will show the user a confirmation card before anything changes."@,
        LocalAiAccessMode::FullAccess => "ACCESS MODE: FULL ACCESS. Read and write tools run automatically without confirmation."@,
    }
}

/// The opening of the agent system prompt: persona and ground rules.
pub open spec fn agent_prompt_opening() -> Seq<char> {
    "You are OpenMgmt's local assistant, embedded in the app. Talk like a helpful agent in a terminal. P1 is the highest priority, P5 the lowest. You can read and manage OpenMgmt data ONLY through the tools below. Never say you changed data unless a tool actually ran.\n\n"@
}

/// The close of the agent system prompt: the strict JSON reply contract.
pub open spec fn agent_prompt_closing() -> Seq<char> {
    "\n\nReply with EXACTLY ONE JSON object and nothing else. Two shapes:\n1) {\"type\":\"final\",\"message\":\"...\"}\n2) {\"type\":\"tool_calls\",\"message\":\"short note\",\"tool_calls\":[{\"tool_name\":\"...\",\"arguments\":{...}}]}\n\nRules: prefer *_selector args (a name, or \"any\") over ids. To act on something by name, pass e.g. \"project_selector\":\"Website\". Create prerequisites first (a project before its task). After tools run you will see their results; then reply with a final message. Keep messages short."@
}

/// The agent system prompt: persona, the access-mode rule, the tool manifest and the JSON
/// reply contract.
pub fn agent_system_prompt(access_mode: LocalAiAccessMode, manifest: &str) -> (s: String)
    ensures
        s@ == agent_prompt_opening() + access_mode_line(access_mode) + "\n\nTOOLS:\n"@ + manifest@
            + agent_prompt_closing(),
{
    let mut s = to_string(
        "You are OpenMgmt's local assistant, embedded in the app. Talk like a helpful agent in a terminal. P1 is the highest priority, P5 the lowest. You can read and manage OpenMgmt data ONLY through the tools below. Never say you changed data unless a tool actually ran.\n\n",
    );
    let mode_line = match access_mode {
        LocalAiAccessMode::ReadOnly => "ACCESS MODE: READ ONLY. You may call read tools. Do NOT call write tools. If the user asks to change data, return a final message saying you need write access (ask them to switch to Ask First or Full Access).",
        LocalAiAccessMode::AskBeforeWrite => "ACCESS MODE: ASK FIRST. Read tools run automatically. Call write tools normally; the app will show the user a confirmation card before anything changes.",
        LocalAiAccessMode::FullAccess => "ACCESS MODE: FULL ACCESS. Read and write tools run automatically without confirmation.",
    };
    push_str(&mut s, mode_line);
    push_str(&mut s, "\n\nTOOLS:\n");
    push_str(&mut s, manifest);
    push_str(
        &mut s,
        "\n\nReply with EXACTLY ONE JSON object and nothing else. Two shapes:\n1) {\"type\":\"final\",\"message\":\"...\"}\n2) {\"type\":\"tool_calls\",\"message\":\"short note\",\"tool_calls\":[{\"tool_name\":\"...\",\"arguments\":{...}}]}\n\nRules: prefer *_selector args (a name, or \"any\") over ids. To act on something by name, pass e.g. \"project_selector\":\"Website\". Create prerequisites first (a project before its task). After tools run you will see their results; then reply with a final message. Keep messages short.",
    );
    s
}

/// The (role, content) of each chat message.
pub open spec fn message_pairs(ms: Seq<LocalAiChatMessage>) -> Seq<(Seq<char>, Seq<char>)> {
    ms.map_values(|m: LocalAiChatMessage| (m.role@, m.content@))
}

/// The turn a history record adds to the agent's messages: user and assistant messages as
/// they are, a tool result as a user turn prefixed `Tool result: `, a system record none.
pub open spec fn turn_of(r: LocalAiChatMessageRecord) -> Option<(Seq<char>, Seq<char>)> {
    match r.role {
        LocalAiChatRole::User => Some(("user"@, r.content@)),
        LocalAiChatRole::Assistant => Some(("assistant"@, r.content@)),
        LocalAiChatRole::Tool => Some(("user"@, "Tool result: "@ + r.content@)),
        LocalAiChatRole::System => None,
    }
}

/// The turns a run of history records adds, in order.
pub open spec fn history_turns(records: Seq<LocalAiChatMessageRecord>) -> Seq<(Seq<char>, Seq<char>)>
    decreases records.len(),
{
    if records.len() == 0 {
        Seq::empty()
    } else {
        let before = history_turns(records.drop_last());
        match turn_of(records.last()) {
            Some(p) => before.push(p),
            None => before,
        }
    }
}

fn history_message(record: &LocalAiChatMessageRecord) -> (r: Option<LocalAiChatMessage>)
    ensures
        match r {
            Some(m) => turn_of(*record) == Some((m.role@, m.content@)),
            None => turn_of(*record) is None,
        },
{
    match record.role {
        LocalAiChatRole::User => Some(
            LocalAiChatMessage { role: to_string("user"), content: to_string(record.content.as_str()) },
        ),
        LocalAiChatRole::Assistant => Some(
            LocalAiChatMessage {
                role: to_string("assistant"),
                content: to_string(record.content.as_str()),
            },
        ),
        LocalAiChatRole::Tool => {
            let mut c = to_string("Tool result: ");
            push_str(&mut c, record.content.as_str());
            Some(LocalAiChatMessage { role: to_string("user"), content: c })
        },
        LocalAiChatRole::System => None,
    }
}

/// The first history record the agent sees: the last `limit` records are kept.
pub open spec fn history_start(len: nat, limit: nat) -> int {
    if len > limit {
        len - limit
    } else {
        0
    }
}

/// The messages that seed the agent loop: the system prompt, a workspace-context turn, a
/// primed assistant reply, then the turns of the most recent `limit` history records.
pub fn build_agent_messages(
    system_prompt: String,
    context: &str,
    history: &[LocalAiChatMessageRecord],
    limit: usize,
) -> (r: Vec<LocalAiChatMessage>)
    ensures
        message_pairs(r@) == seq![
            ("system"@, system_prompt@),
            ("user"@, "Workspace context (for reference):\n"@ + context@),
            ("assistant"@, "{\"type\":\"final\",\"message\":\"Ready.\"}"@),
        ] + history_turns(
            history@.subrange(history_start(history@.len(), limit as nat), history@.len() as int),
        ),
{
    let mut messages: Vec<LocalAiChatMessage> = Vec::new();
    messages.push(LocalAiChatMessage { role: to_string("system"), content: system_prompt });
    let mut ctx = to_string("Workspace context (for reference):\n");
    push_str(&mut ctx, context);
    messages.push(LocalAiChatMessage { role: to_string("user"), content: ctx });
    messages.push(
        LocalAiChatMessage {
            role: to_string("assistant"),
            content: to_string("{\"type\":\"final\",\"message\":\"Ready.\"}"),
        },
    );
    let n = history.len();
    let start: usize = if n > limit {
        n - limit
    } else {
        0
    };
    let ghost head = message_pairs(messages@);
    let mut i: usize = start;
    proof {
        assert(history@.subrange(start as int, start as int) =~= Seq::<LocalAiChatMessageRecord>::empty());
        assert(message_pairs(messages@) =~= head + history_turns(
            history@.subrange(start as int, start as int),
        ));
    }
    while i < n
        invariant
            n == history@.len(),
            start <= i <= n,
            start == history_start(n as nat, limit as nat),
            message_pairs(messages@) == head + history_turns(history@.subrange(start as int, i as int)),
        decreases n - i,
    {
        let record = &history[i];
        let ghost before = messages@;
        proof {
            let sub = history@.subrange(start as int, i as int + 1);
            assert(sub.drop_last() =~= history@.subrange(start as int, i as int));
            assert(sub.last() == history@[i as int]);
        }
        match history_message(record) {
            Some(m) => {
                messages.push(m);
                proof {
                    assert(messages@ =~= before.push(m));
                    assert(message_pairs(messages@) =~= message_pairs(before).push((m.role@, m.content@)));
                }
            },
            None => {},
        }
        proof {
            assert(message_pairs(messages@) =~= head + history_turns(
                history@.subrange(start as int, i as int + 1),
            ));
        }
        i = i + 1;
    }
    messages
}

/// Where the object that opened at `i - 1` or earlier closes, scanning from `i` with `depth`
/// braces open and the given string state: braces inside JSON strings do not count, and a
/// backslash in a string escapes the next character. `None` when it never closes.
pub open spec fn object_end(s: Seq<char>, i: int, depth: nat, in_string: bool, escaped: bool) -> Option<
    int,
>
    decreases s.len() - i,
{
    if i < 0 || i >= s.len() {
        None
    } else {
        let c = s[i];
        if in_string {
            if escaped {
                object_end(s, i + 1, depth, true, false)
            } else if c == '\\' {
                object_end(s, i + 1, depth, true, true)
            } else if c == '"' {
                object_end(s, i + 1, depth, false, false)
            } else {
                object_end(s, i + 1, depth, true, false)
            }
        } else if c == '"' {
            object_end(s, i + 1, depth, true, false)
        } else if c == '{' {
            object_end(s, i + 1, depth + 1, false, false)
        } else if c == '}' {
            if depth <= 1 {
                Some(i)
            } else {
                object_end(s, i + 1, (depth - 1) as nat, false, false)
            }
        } else {
            object_end(s, i + 1, depth, false, false)
        }
    }
}

/// The first balanced `{ ... }` object in a text: from its first `{` to the `}` that closes
/// it, ignoring braces inside JSON strings; `None` when there is no `{` or it never closes.
pub open spec fn json_object_in(s: Seq<char>) -> Option<Seq<char>> {
    let start = crate::text::first_index_of(s, '{');
    if start < s.len() {
        match object_end(s, start, 0, false, false) {
            Some(end) => Some(s.subrange(start, end + 1)),
            None => None,
        }
    } else {
        None
    }
}

proof fn lemma_object_end_range(s: Seq<char>, i: int, depth: nat, in_string: bool, escaped: bool)
    ensures
        object_end(s, i, depth, in_string, escaped) matches Some(e) ==> i <= e < s.len(),
    decreases s.len() - i,
{
    if 0 <= i < s.len() {
        lemma_object_end_range(s, i + 1, depth, true, false);
        lemma_object_end_range(s, i + 1, depth, true, true);
        lemma_object_end_range(s, i + 1, depth, false, false);
        lemma_object_end_range(s, i + 1, depth + 1, false, false);
        if depth > 1 {
            lemma_object_end_range(s, i + 1, (depth - 1) as nat, false, false);
        }
    }
}

/// Find the first balanced `{ ... }` object in arbitrary text: pure JSON, JSON in a fenced
/// block, or JSON inside prose.
pub fn extract_json_object(content: &str) -> (r: Option<String>)
    ensures
        opt_string_text(r) == json_object_in(content@),
{
    let n = content.unicode_len();
    let start = crate::text::find_char(content, '{');
    if start >= n {
        return None;
    }
    proof {
        crate::text::lemma_first_found(content@, '{');
    }
    let mut depth: usize = 0;
    let mut in_string = false;
    let mut escaped = false;
    let mut i: usize = start;
    while i < n
        invariant
            n == content@.len(),
            start < n,
            start == crate::text::first_index_of(content@, '{'),
            content@[start as int] == '{',
            start <= i <= n,
            i == start ==> depth == 0 && !in_string && !escaped,
            !in_string ==> !escaped,
            depth <= i - start,
            i > start ==> depth >= 1,
            object_end(content@, start as int, 0, false, false) == object_end(
                content@,
                i as int,
                depth as nat,
                in_string,
                escaped,
            ),
        decreases n - i,
    {
        let c = content.get_char(i);
        let ghost (d0, s0, e0) = (depth as nat, in_string, escaped);
        if in_string {
            if escaped {
                escaped = false;
            } else if c == '\\' {
                escaped = true;
            } else if c == '"' {
                in_string = false;
            }
        } else if c == '"' {
            in_string = true;
        } else if c == '{' {
            depth = depth + 1;
        } else if c == '}' {
            if depth <= 1 {
                proof {
                    lemma_object_end_range(content@, start as int, 0, false, false);
                }
                return Some(crate::text::to_string(content.substring_char(start, i + 1)));
            }
            depth = depth - 1;
        }
        proof {
            assert(c == content@[i as int]);
            assert(object_end(content@, i as int, d0, s0, e0) == object_end(
                content@,
                i as int + 1,
                depth as nat,
                in_string,
                escaped,
            ));
        }
        i = i + 1;
    }
    None
}

/// The characters of an optional owned string.
pub open spec fn opt_string_text(v: Option<String>) -> Option<Seq<char>> {
    match v {
        Some(s) => Some(s@),
        None => None,
    }
}

/// The characters of an optional borrowed string.
pub open spec fn opt_str_text(v: Option<&str>) -> Option<Seq<char>> {
    match v {
        Some(s) => Some(s@),
        None => None,
    }
}

/// One tool the model asked to run: its name and its arguments.
#[derive(Debug, PartialEq, Eq)]
pub struct ParsedToolCall {
    pub tool_name: String,
    pub arguments: Json,
}

/// What the model decided this turn: a final answer, or tools to run (with an optional note).
#[derive(Debug, PartialEq, Eq)]
pub enum AgentDecision {
    Final { message: String },
    ToolCalls { message: Option<String>, calls: Vec<ParsedToolCall> },
}

/// A message that says something: present and not only white space.
pub open spec fn said(m: Option<Seq<char>>) -> Option<Seq<char>> {
    match m {
        Some(t) => if trim_spec(t).len() == 0 {
            None
        } else {
            Some(t)
        },
        None => None,
    }
}

/// The decision a reply of type `kind` with the given message and usable tool calls stands
/// for: `final` is a final answer (with an empty text when nothing was said); otherwise tool
/// calls when there are any, else whatever was said as a final answer, else nothing usable.
pub open spec fn decision_for(
    kind: Seq<char>,
    message: Option<Seq<char>>,
    calls: Seq<ParsedToolCall>,
    d: Option<AgentDecision>,
) -> bool {
    if kind == "final"@ {
        d matches Some(AgentDecision::Final { message: t }) && t@ == match said(message) {
            Some(x) => x,
            None => Seq::empty(),
        }
    } else if calls.len() > 0 {
        d matches Some(AgentDecision::ToolCalls { message: m, calls: cs }) && opt_string_text(m)
            == said(message) && cs@ == calls
    } else {
        match said(message) {
            Some(x) => d matches Some(AgentDecision::Final { message: t }) && t@ == x,
            None => d is None,
        }
    }
}

/// The decision a read reply stands for, from its `type`, its `message` and its usable tool
/// calls.
pub fn agent_decision(kind: &str, message: Option<&str>, calls: Vec<ParsedToolCall>) -> (r: Option<
    AgentDecision,
>)
    ensures
        decision_for(kind@, opt_str_text(message), calls@, r),
{
    let said_text: Option<String> = match message {
        Some(t) => if trim(t).unicode_len() == 0 {
            None
        } else {
            Some(to_string(t))
        },
        None => None,
    };
    if str_eq(kind, "final") {
        return Some(
            AgentDecision::Final {
                message: match said_text {
                    Some(t) => t,
                    None => String::new(),
                },
            },
        );
    }
    if calls.len() > 0 {
        return Some(AgentDecision::ToolCalls { message: said_text, calls });
    }
    match said_text {
        Some(t) => Some(AgentDecision::Final { message: t }),
        None => None,
    }
}

/// Whether a value is the empty JSON object.
pub open spec fn empty_object(v: Json) -> bool {
    v matches Json::Object(members) && members@.len() == 0
}

/// The name a tool-call entry gives: `tool_name`, else `name`, else `tool`, when a JSON string.
pub open spec fn call_name(item: Json) -> Option<Seq<char>> {
    text_of(first_member_spec(item, seq!["tool_name"@, "name"@, "tool"@]))
}

/// The arguments a tool-call entry gives: `arguments`, else `args`, else `parameters`.
pub open spec fn call_arguments(item: Json) -> Option<Json> {
    first_member_spec(item, seq!["arguments"@, "args"@, "parameters"@])
}

/// Whether a tool-call entry names a tool (a name that is not only white space).
pub open spec fn usable_item(item: Json) -> bool {
    call_name(item) matches Some(n) && trim_spec(n).len() > 0
}

/// `c` is the call a usable entry asks for: the trimmed name, and the arguments given, else `{}`.
pub open spec fn call_from(item: Json, c: ParsedToolCall) -> bool {
    &&& call_name(item) matches Some(n) && c.tool_name@ == trim_spec(n)
    &&& match call_arguments(item) {
        Some(a) => c.arguments.jv() == a.jv(),
        None => empty_object(c.arguments),
    }
}

/// A tool call from its name (when it was a JSON string) and its arguments (when present):
/// the name is trimmed and must not be empty; absent arguments are `{}`.
pub fn tool_call_from(name: Option<&str>, arguments: Option<Json>) -> (r: Option<ParsedToolCall>)
    ensures
        match name {
            None => r is None,
            Some(n) => if trim_spec(n@).len() == 0 {
                r is None
            } else {
                r matches Some(c) && c.tool_name@ == trim_spec(n@) && match arguments {
                    Some(a) => c.arguments == a,
                    None => empty_object(c.arguments),
                }
            },
        },
{
    let n = match name {
        Some(n) => trim(n),
        None => {
            return None;
        },
    };
    if n.unicode_len() == 0 {
        return None;
    }
    Some(
        ParsedToolCall {
            tool_name: to_string(n),
            arguments: match arguments {
                Some(a) => a,
                None => Json::Object(Vec::new()),
            },
        },
    )
}

/// A usable tool call: its name is trimmed and not empty.
pub open spec fn usable_tool_call(c: ParsedToolCall) -> bool {
    c.tool_name@.len() > 0 && trim_spec(c.tool_name@) == c.tool_name@
}

fn parse_one_tool_call(value: &Json) -> (r: Option<ParsedToolCall>)
    ensures
        usable_item(*value) ==> (r matches Some(c) && call_from(*value, c) && usable_tool_call(c)),
        !usable_item(*value) ==> r is None,
{
    let name_keys: Vec<&str> = vec!["tool_name", "name", "tool"];
    let argument_keys: Vec<&str> = vec!["arguments", "args", "parameters"];
    proof {
        assert(name_keys@.map_values(|k: &str| k@) =~= seq!["tool_name"@, "name"@, "tool"@]);
        assert(argument_keys@.map_values(|k: &str| k@) =~= seq!["arguments"@, "args"@, "parameters"@]);
    }
    let name = crate::json::as_text(crate::json::first_member(value, name_keys.as_slice()));
    let arguments = match crate::json::first_member(value, argument_keys.as_slice()) {
        Some(v) => Some(v.duplicate()),
        None => None,
    };
    let r = tool_call_from(name, arguments);
    proof {
        if let Some(n) = name {
            crate::text::lemma_trim_idempotent(n@);
        }
    }
    r
}

/// The entries of `tool_calls` in a reply, or none when it is no array.
pub open spec fn call_items(reply: Json) -> Seq<Json> {
    match member(reply, "tool_calls"@) {
        Some(Json::Array(items)) => items@,
        _ => Seq::empty(),
    }
}

/// The usable entries, in order.
pub open spec fn usable_items(items: Seq<Json>) -> Seq<Json>
    decreases items.len(),
{
    if items.len() == 0 {
        Seq::empty()
    } else {
        let before = usable_items(items.drop_last());
        if usable_item(items.last()) {
            before.push(items.last())
        } else {
            before
        }
    }
}

/// The `type` of a reply, empty when it has none.
pub open spec fn reply_kind(reply: Json) -> Seq<char> {
    match member_text(reply, "type"@) {
        Some(k) => k,
        None => Seq::empty(),
    }
}

/// `r` is the decision a parsed reply object stands for: its `type`, its `message` and the
/// calls its usable `tool_calls` entries ask for decide as `agent_decision` says.
pub open spec fn reply_decides(v: Json, r: Option<AgentDecision>) -> bool {
    exists|calls: Seq<ParsedToolCall>|
        calls.len() == usable_items(call_items(v)).len() && (forall|i: int|
            0 <= i < calls.len() ==> call_from(usable_items(call_items(v))[i], #[trigger] calls[i]))
            && #[trigger] decision_for(reply_kind(v), member_text(v, "message"@), calls, r)
}

/// The decision of the model's reply, given the first JSON object in it (`None` when there is
/// none or it is no JSON).
pub fn decision_from_reply(reply: Option<&Json>) -> (r: Option<AgentDecision>)
    ensures
        reply is None ==> r is None,
        reply matches Some(v) ==> reply_decides(*v, r),
{
    let value = match reply {
        Some(v) => v,
        None => {
            return None;
        },
    };
    let kind = match crate::json::member_str(value, "type") {
        Some(k) => k,
        None => "",
    };
    let message = crate::json::member_str(value, "message");
    let mut calls: Vec<ParsedToolCall> = Vec::new();
    let ghost items: Seq<Json> = call_items(*value);
    match crate::json::get(value, "tool_calls") {
        Some(Json::Array(list)) => {
            assert(list@ == items);
            let mut i: usize = 0;
            proof {
                assert(items.take(0) =~= Seq::<Json>::empty());
            }
            while i < list.len()
                invariant
                    i <= list@.len(),
                    list@ == items,
                    calls@.len() == usable_items(items.take(i as int)).len(),
                    forall|j: int|
                        0 <= j < calls@.len() ==> call_from(usable_items(items.take(i as int))[j], #[trigger] calls@[j]),
                decreases list@.len() - i,
            {
                proof {
                    assert(items.take(i as int + 1).drop_last() =~= items.take(i as int));
                    assert(items.take(i as int + 1).last() == list@[i as int]);
                }
                let ghost before = calls@;
                match parse_one_tool_call(&list[i]) {
                    Some(c) => calls.push(c),
                    None => {},
                }
                proof {
                    assert forall|j: int| 0 <= j < calls@.len() implies call_from(
                        usable_items(items.take(i as int + 1))[j],
                        #[trigger] calls@[j],
                    ) by {
                        if j < before.len() {
                            assert(calls@[j] == before[j]);
                        }
                    }
                }
                i = i + 1;
            }
            proof {
                assert(items.take(items.len() as int) =~= items);
            }
        },
        _ => {
            proof {
                assert(items.len() == 0);
                assert(usable_items(items) =~= Seq::<Json>::empty());
            }
        },
    }
    proof {
        reveal_strlit("");
    }
    let ghost cs = calls@;
    let r = agent_decision(kind, message, calls);
    proof {
        assert(kind@ == reply_kind(*value));
        assert(decision_for(reply_kind(*value), member_text(*value, "message"@), cs, r));
    }
    r
}


/// Read the model's reply into a decision: the first JSON object in it is parsed and decides
/// as `decision_from_reply` says; `None` when there is no object or it is no JSON.
pub fn parse_agent_response(content: &str) -> (r: Option<AgentDecision>)
    ensures
        match json_object_in(content@) {
            None => r is None,
            Some(o) => match json_of_text(o) {
                None => r is None,
                Some(v) => exists|j: Json| #[trigger] j.jv() == v && reply_decides(j, r),
            },
        },
{
    let object = match extract_json_object(content) {
        Some(o) => o,
        None => {
            return None;
        },
    };
    let doc = crate::json::parse_json_text(object.as_str());
    let r = decision_from_reply(doc.as_ref());
    proof {
        if let Some(j) = doc {
            assert(j.jv() == json_of_text(object@)->0);
        }
    }
    r
}

} // verus!
