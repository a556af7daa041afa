//! The local (Ollama) assistant: URL policy, prompts, slash commands and the agent protocol.
use vstd::prelude::*;
use crate::error::CoreError;
use crate::models::{
    LocalAiAccessMode, LocalAiChatMessage, LocalAiChatResponse, LocalAiConnectionResult, LocalAiModel,
    LocalAiWorkflowResponse, TaskWithContext,
};
use crate::time::{rfc3339_instant, Timestamp};
use crate::json::{first_member_spec, member, member_int, member_text, opt_jv, text_of, Json};
use crate::text::{
    all_ascii_digits, digits_value, find_char, first_index_of, contains_char, find_delim, first_delim, is_all_ascii_digits, join_spaced,
    join_words, last_index_of, push_str, rfind_char, slice, split_whitespace, starts_with,
    str_eq, strip_prefix, to_string, trim, trim_end_char, trim_end_matches_char, trim_spec,
    trim_start_char, trim_start_matches_char, words, join_lines,
};

verus! {

/// Where a local Ollama server listens by default.
pub const DEFAULT_OLLAMA_BASE_URL: &'static str = "http://127.0.0.1:11434";

/// The model used when none is configured.
pub const DEFAULT_OLLAMA_MODEL: &'static str = "qwen3:1.7b";

/// How long Ollama keeps a model loaded by default.
pub const DEFAULT_OLLAMA_KEEP_ALIVE: &'static str = "5m";

/// Hard cap on the agent's tool/think iterations per user turn.
pub const MAX_AGENT_STEPS: usize = 4;

/// The system prompt of one-shot local AI workflows.
pub open spec fn system_prompt_text() -> Seq<char> {
    "You are OpenMgmt's local command assistant. P1 is highest priority. Use OpenMgmt context. Be concise and operational. Never claim to have changed data unless a tool was executed. For writes, propose an action instead of pretending to perform it. Prefer known tool names."@
}

fn system_prompt() -> (s: String)
    ensures
        s@ == system_prompt_text(),
{
    to_string(
        "You are OpenMgmt's local command assistant. P1 is highest priority. Use OpenMgmt context. Be concise and operational. Never claim to have changed data unless a tool was executed. For writes, propose an action instead of pretending to perform it. Prefer known tool names.",
    )
}

/// One field of a dotted-quad address: one to three ASCII digits, no leading zero unless the
/// field is `0` itself, and a value of at most 255.
pub open spec fn octet_field(p: Seq<char>) -> Option<u8> {
    if 1 <= p.len() <= 3 && all_ascii_digits(p) && !(p.len() > 1 && p[0] == '0')
        && digits_value(p) <= 255 {
        Some(digits_value(p) as u8)
    } else {
        None
    }
}

/// `s` cut at its first `.`: the text before it, and the text after it when there is one.
pub open spec fn split_dot(s: Seq<char>) -> (Seq<char>, Option<Seq<char>>) {
    let i = first_index_of(s, '.');
    if i < s.len() {
        (s.subrange(0, i), Some(s.subrange(i + 1, s.len() as int)))
    } else {
        (s, None)
    }
}

/// The four octets of a dotted-quad IPv4 address (`a.b.c.d`, each an `octet_field`), or
/// `None` when `s` is not one.
pub open spec fn ipv4_octets(s: Seq<char>) -> Option<(u8, u8, u8, u8)> {
    let (a, r1) = split_dot(s);
    match r1 {
        None => None,
        Some(r1) => {
            let (b, r2) = split_dot(r1);
            match r2 {
                None => None,
                Some(r2) => {
                    let (c, r3) = split_dot(r2);
                    match r3 {
                        None => None,
                        Some(d) => {
                            if d.contains('.') {
                                None
                            } else {
                                match (octet_field(a), octet_field(b), octet_field(c), octet_field(d)) {
                                    (Some(x), Some(y), Some(z), Some(w)) => Some((x, y, z, w)),
                                    _ => None,
                                }
                            }
                        },
                    }
                },
            }
        },
    }
}

/// Read one dotted-quad field.
fn parse_octet(p: &str) -> (r: Option<u8>)
    ensures
        r == octet_field(p@),
{
    let n = p.unicode_len();
    if n == 0 || n > 3 || !is_all_ascii_digits(p) {
        return None;
    }
    if n > 1 && p.get_char(0) == '0' {
        return None;
    }
    let mut v: u32 = 0;
    let mut i: usize = 0;
    while i < n
        invariant
            n == p@.len(),
            1 <= n <= 3,
            all_ascii_digits(p@),
            i <= n,
            v == digits_value(p@.subrange(0, i as int)),
            v < 1000,
        decreases n - i,
    {
        let c = p.get_char(i);
        proof {
            let q = p@.subrange(0, i as int + 1);
            assert(q.drop_last() =~= p@.subrange(0, i as int));
            assert(q.last() == c);
            assert('0' <= p@[i as int] <= '9');
            assert(v < 100) by {
                lemma_digits_bound(p@.subrange(0, i as int));
            }
        }
        v = v * 10 + ((c as u32) - ('0' as u32));
        i = i + 1;
    }
    assert(p@.subrange(0, n as int) =~= p@);
    if v > 255 {
        None
    } else {
        Some(v as u8)
    }
}

proof fn lemma_digits_bound(p: Seq<char>)
    requires
        all_ascii_digits(p),
        p.len() <= 2,
    ensures
        digits_value(p) < 100,
        p.len() <= 1 ==> digits_value(p) < 10,
    decreases p.len(),
{
    if p.len() > 0 {
        let q = p.drop_last();
        assert forall|k: int| 0 <= k < q.len() implies '0' <= #[trigger] q[k] <= '9' by {
            assert(q[k] == p[k]);
        }
        assert('0' <= p[p.len() - 1] <= '9');
        lemma_digits_bound(q);
    }
}

/// Cut `s` at its first `.`.
fn cut_dot(s: &str) -> (r: (&str, Option<&str>))
    ensures
        r.0@ == split_dot(s@).0,
        match (r.1, split_dot(s@).1) {
            (Some(x), Some(y)) => x@ == y,
            (None, None) => true,
            _ => false,
        },
{
    let n = s.unicode_len();
    let i = find_char(s, '.');
    if i < n {
        (slice(s, 0, i), Some(slice(s, i + 1, n)))
    } else {
        (s, None)
    }
}

/// Read a dotted-quad IPv4 address into its four octets.
pub fn parse_ipv4(host: &str) -> (r: Option<(u8, u8, u8, u8)>)
    ensures
        r == ipv4_octets(host@),
{
    let (a, r1) = cut_dot(host);
    let r1 = match r1 {
        Some(x) => x,
        None => {
            return None;
        },
    };
    let (b, r2) = cut_dot(r1);
    let r2 = match r2 {
        Some(x) => x,
        None => {
            return None;
        },
    };
    let (c, r3) = cut_dot(r2);
    let d = match r3 {
        Some(x) => x,
        None => {
            return None;
        },
    };
    if contains_char(d, '.') {
        return None;
    }
    match (parse_octet(a), parse_octet(b), parse_octet(c), parse_octet(d)) {
        (Some(x), Some(y), Some(z), Some(w)) => Some((x, y, z, w)),
        _ => None,
    }
}

/// Private (10/8, 172.16/12, 192.168/16), loopback (127/8) or link-local (169.254/16).
pub open spec fn private_octets(o: (u8, u8, u8, u8)) -> bool {
    o.0 == 10 || (o.0 == 172 && 16 <= o.1 <= 31) || (o.0 == 192 && o.1 == 168) || o.0 == 127 || (
    o.0 == 169 && o.1 == 254)
}

/// Whether `host` is a private, loopback or link-local IPv4 address.
pub fn is_private_ipv4(host: &str) -> (r: bool)
    ensures
        r == (ipv4_octets(host@) matches Some(o) && private_octets(o)),
{
    match parse_ipv4(host) {
        Some(o) => o.0 == 10 || (o.0 == 172 && 16 <= o.1 && o.1 <= 31) || (o.0 == 192 && o.1 == 168)
            || o.0 == 127 || (o.0 == 169 && o.1 == 254),
        None => false,
    }
}

/// Why a local AI base URL is refused, or `None` when it is accepted: it must be `http://`,
/// have a non-empty authority without user info and a numeric port if any, and name
/// `localhost`/`127.0.0.1` — or, when local-network access is on, a private IPv4 address.
pub open spec fn local_ai_url_refusal(value: Seq<char>, allow_local_network: bool) -> Option<Seq<char>> {
    let trimmed = trim_end_char(trim_spec(value), '/');
    if !(trimmed.len() >= 7 && trimmed.subrange(0, 7) == "http://"@) {
        Some("Ollama base URL must be an http:// local URL"@)
    } else {
        let rest = trimmed.subrange(7, trimmed.len() as int);
        let authority = trim_spec(rest.subrange(0, first_delim(rest)));
        if authority.len() == 0 || authority.contains('@') {
            Some("invalid Ollama base URL"@)
        } else {
            let k = last_index_of(authority, ':');
            let host = if k >= 0 { authority.subrange(0, k) } else { authority };
            let port_ok = k < 0 || {
                let p = authority.subrange(k + 1, authority.len() as int);
                p.len() > 0 && all_ascii_digits(p)
            };
            if !port_ok {
                Some("invalid Ollama base URL port"@)
            } else if host == "localhost"@ || host == "127.0.0.1"@ {
                None
            } else if allow_local_network && (ipv4_octets(host) matches Some(o) && private_octets(o)) {
                None
            } else {
                Some("Ollama base URL must point to localhost unless local-network access is enabled"@)
            }
        }
    }
}

fn refuse(message: &str) -> (r: Result<(), CoreError>)
    ensures
        r matches Err(CoreError::Validation(m)) && m@ == message@,
{
    Err(CoreError::Validation(to_string(message)))
}

/// The base URL an Ollama client uses: the settings' URL, once it is accepted, without its
/// trailing slashes.
pub fn ollama_base_url(base_url: &str, allow_local_network: bool) -> (r: Result<String, CoreError>)
    ensures
        match local_ai_url_refusal(base_url@, allow_local_network) {
            None => r matches Ok(u) && u@ == trim_end_char(base_url@, '/'),
            Some(m) => r matches Err(CoreError::Validation(e)) && e@ == m,
        },
{
    match validate_local_ai_base_url(base_url, allow_local_network) {
        Ok(()) => Ok(to_string(trim_end_matches_char(base_url, '/'))),
        Err(e) => Err(e),
    }
}

/// The URL of an Ollama API path under a base URL: `{base}/{path without leading slashes}`.
pub fn ollama_endpoint(base_url: &str, path: &str) -> (r: String)
    ensures
        r@ == base_url@ + "/"@ + trim_start_char(path@, '/'),
{
    let mut s = to_string(base_url);
    push_str(&mut s, "/");
    push_str(&mut s, trim_start_matches_char(path, '/'));
    s
}

/// The model a chat uses: the one asked for, else the settings' default, else
/// `DEFAULT_OLLAMA_MODEL`.
pub fn chat_model(model: Option<String>, default_model: Option<String>) -> (r: String)
    ensures
        match (model, default_model) {
            (Some(m), _) => r == m,
            (None, Some(d)) => r == d,
            (None, None) => r@ == DEFAULT_OLLAMA_MODEL@,
        },
{
    match model {
        Some(m) => m,
        None => match default_model {
            Some(d) => d,
            None => to_string(DEFAULT_OLLAMA_MODEL),
        },
    }
}

/// How long Ollama keeps the model loaded: the settings' value, else `DEFAULT_OLLAMA_KEEP_ALIVE`.
pub fn chat_keep_alive(keep_alive: Option<&str>) -> (r: String)
    ensures
        match keep_alive {
            Some(k) => r@ == k@,
            None => r@ == DEFAULT_OLLAMA_KEEP_ALIVE@,
        },
{
    match keep_alive {
        Some(k) => to_string(k),
        None => to_string(DEFAULT_OLLAMA_KEEP_ALIVE),
    }
}

/// Accept a local AI base URL only when it points at this machine (or, when allowed, at a
/// private network address).
pub fn validate_local_ai_base_url(value: &str, allow_local_network: bool) -> (r: Result<(), CoreError>)
    ensures
        match local_ai_url_refusal(value@, allow_local_network) {
            None => r is Ok,
            Some(m) => r matches Err(CoreError::Validation(e)) && e@ == m,
        },
{
    proof {
        reveal_strlit("http://");
    }
    let trimmed = trim_end_matches_char(trim(value), '/');
    let rest = match strip_prefix(trimmed, "http://") {
        Some(r) => r,
        None => {
            return refuse("Ollama base URL must be an http:// local URL");
        },
    };
    let d = find_delim(rest);
    let authority = trim(slice(rest, 0, d));
    if authority.unicode_len() == 0 || contains_char(authority, '@') {
        return refuse("invalid Ollama base URL");
    }
    let n = authority.unicode_len();
    let (host, port): (&str, Option<&str>) = match rfind_char(authority, ':') {
        Some(k) => (slice(authority, 0, k), Some(slice(authority, k + 1, n))),
        None => (authority, None),
    };
    match port {
        Some(p) => {
            if p.unicode_len() == 0 || !is_all_ascii_digits(p) {
                return refuse("invalid Ollama base URL port");
            }
        },
        None => {},
    }
    if str_eq(host, "localhost") || str_eq(host, "127.0.0.1") {
        return Ok(());
    }
    if allow_local_network && is_private_ipv4(host) {
        return Ok(());
    }
    refuse("Ollama base URL must point to localhost unless local-network access is enabled")
}

/// A chat message with the given role and content.
pub open spec fn chat_message(m: LocalAiChatMessage, role: Seq<char>, content: Seq<char>) -> bool {
    m.role@ == role && m.content@ == content
}

/// The two messages of a one-shot local AI workflow: the system prompt, then the prompt.
pub fn prompt_messages(prompt: String) -> (r: Vec<LocalAiChatMessage>)
    ensures
        r@.len() == 2,
        chat_message(r@[0], "system"@, system_prompt_text()),
        chat_message(r@[1], "user"@, prompt@),
{
    let mut r = Vec::new();
    r.push(LocalAiChatMessage { role: to_string("system"), content: system_prompt() });
    r.push(LocalAiChatMessage { role: to_string("user"), content: prompt });
    r
}

/// The messages of a chat turn: the system prompt, then the workspace context followed by the
/// user's message.
pub fn chat_prompt_messages(context: String, user_message: String) -> (r: Vec<LocalAiChatMessage>)
    ensures
        r@.len() == 2,
        chat_message(r@[0], "system"@, system_prompt_text()),
        chat_message(r@[1], "user"@, context@ + "\n\nUser:\n"@ + user_message@),
{
    let mut content = context;
    push_str(&mut content, "\n\nUser:\n");
    push_str(&mut content, user_message.as_str());
    let mut r = Vec::new();
    r.push(LocalAiChatMessage { role: to_string("system"), content: system_prompt() });
    r.push(LocalAiChatMessage { role: to_string("user"), content });
    r
}

/// What the access mode allows for a single tool.
#[derive(Clone, Copy, Debug, PartialEq, Eq, Structural)]
pub enum ToolDecision {
    Execute,
    Propose,
    Blocked,
}

/// The access gate: read tools always run; a write tool is blocked in read-only mode,
/// proposed for confirmation in ask-first mode, and run in full-access mode.
pub open spec fn spec_tool_decision(mode: LocalAiAccessMode, write: bool) -> ToolDecision {
    if !write {
        ToolDecision::Execute
    } else {
        match mode {
            LocalAiAccessMode::ReadOnly => ToolDecision::Blocked,
            LocalAiAccessMode::AskBeforeWrite => ToolDecision::Propose,
            LocalAiAccessMode::FullAccess => ToolDecision::Execute,
        }
    }
}

/// What the access mode allows for a tool.
pub fn tool_decision(access_mode: LocalAiAccessMode, write: bool) -> (d: ToolDecision)
    ensures
        d == spec_tool_decision(access_mode, write),
{
    if !write {
        return ToolDecision::Execute;
    }
    match access_mode {
        LocalAiAccessMode::ReadOnly => ToolDecision::Blocked,
        LocalAiAccessMode::AskBeforeWrite => ToolDecision::Propose,
        LocalAiAccessMode::FullAccess => ToolDecision::Execute,
    }
}

/// A slash command typed into the local assistant.
#[derive(Clone, Debug, PartialEq, Eq)]
pub enum SlashCommand {
    Help,
    Plan,
    Board,
    Tasks(Option<String>),
    ScheduleToday,
    ScheduleWeek,
    Unscheduled,
    Models,
    UseModel(String),
    CreateTask(String),
    CompleteTask(String),
    StartTask(String),
}

/// A parsed slash command as plain values: its tag and text argument.
pub open spec fn command_is(c: SlashCommand, tag: int, arg: Option<Seq<char>>) -> bool {
    match c {
        SlashCommand::Help => tag == 0 && arg is None,
        SlashCommand::Plan => tag == 1 && arg is None,
        SlashCommand::Board => tag == 2 && arg is None,
        SlashCommand::Tasks(a) => tag == 3 && match a {
            Some(s) => arg == Some(s@),
            None => arg is None,
        },
        SlashCommand::ScheduleToday => tag == 4 && arg is None,
        SlashCommand::ScheduleWeek => tag == 5 && arg is None,
        SlashCommand::Unscheduled => tag == 6 && arg is None,
        SlashCommand::Models => tag == 7 && arg is None,
        SlashCommand::UseModel(s) => tag == 8 && arg == Some(s@),
        SlashCommand::CreateTask(s) => tag == 9 && arg == Some(s@),
        SlashCommand::CompleteTask(s) => tag == 10 && arg == Some(s@),
        SlashCommand::StartTask(s) => tag == 11 && arg == Some(s@),
    }
}

/// What a slash command input means.
pub enum SlashVerdict {
    /// Not a slash command.
    NotCommand,
    /// The command with this tag and argument.
    Command(int, Option<Seq<char>>),
    /// Refused with this message.
    Refused(Seq<char>),
}

/// Whether `rest` begins with `task `.
pub open spec fn has_task_prefix(rest: Seq<char>) -> bool {
    rest.len() >= 5 && rest.subrange(0, 5) == "task "@
}

/// The argument of `task <arg>` forms: the one `task ` keyword removed, then trimmed.
pub open spec fn task_argument(rest: Seq<char>) -> Seq<char> {
    trim_spec(rest.subrange(5, rest.len() as int))
}

/// How the local assistant reads an input line: a line not starting with `/` (after trimming)
/// is no command; `/` alone is help; otherwise the first word picks the command and the other
/// words, joined by single spaces, are its argument.
pub open spec fn slash_verdict(input: Seq<char>) -> SlashVerdict {
    let t = trim_spec(input);
    if !(t.len() > 0 && t[0] == '/') {
        SlashVerdict::NotCommand
    } else {
        let body = trim_spec(trim_start_char(t, '/'));
        let ws = words(body);
        if body.len() == 0 {
            SlashVerdict::Command(0, None)
        } else {
            let command = ws[0];
            let rest = join_spaced(ws.drop_first());
            if command == "help"@ {
                SlashVerdict::Command(0, None)
            } else if command == "plan"@ {
                SlashVerdict::Command(1, None)
            } else if command == "board"@ {
                SlashVerdict::Command(2, None)
            } else if command == "tasks"@ {
                SlashVerdict::Command(3, if rest.len() > 0 { Some(rest) } else { None })
            } else if command == "schedule"@ && rest == "today"@ {
                SlashVerdict::Command(4, None)
            } else if command == "schedule"@ && rest == "week"@ {
                SlashVerdict::Command(5, None)
            } else if command == "unscheduled"@ {
                SlashVerdict::Command(6, None)
            } else if command == "models"@ {
                SlashVerdict::Command(7, None)
            } else if command == "use"@ && rest.len() > 0 {
                SlashVerdict::Command(8, Some(rest))
            } else if command == "create"@ && has_task_prefix(rest) {
                if task_argument(rest).len() == 0 {
                    SlashVerdict::Refused("task title is required"@)
                } else {
                    SlashVerdict::Command(9, Some(task_argument(rest)))
                }
            } else if command == "complete"@ && has_task_prefix(rest) {
                SlashVerdict::Command(10, Some(task_argument(rest)))
            } else if command == "start"@ && has_task_prefix(rest) {
                SlashVerdict::Command(11, Some(task_argument(rest)))
            } else {
                SlashVerdict::Refused("unknown local AI slash command: /"@ + body)
            }
        }
    }
}

/// The command lines the help text lists, after its header.
pub open spec fn help_lines() -> Seq<Seq<char>> {
    seq!["/help"@, "/plan"@, "/board"@, "/tasks"@, "/tasks blocked"@, "/tasks overdue"@, "/schedule today"@, "/schedule week"@, "/unscheduled"@, "/models"@, "/use <model>"@, "/create task <title>"@, "/complete task <id>"@, "/start task <id>"@]
}

proof fn lemma_help_line_0()
    ensures
        slash_verdict("/help"@) is Command,
{
    reveal_strlit("/help");
    reveal_strlit("board");
    reveal_strlit("complete");
    reveal_strlit("create");
    reveal_strlit("help");
    reveal_strlit("models");
    reveal_strlit("plan");
    reveal_strlit("schedule");
    reveal_strlit("start");
    reveal_strlit("task ");
    reveal_strlit("tasks");
    reveal_strlit("unscheduled");
    reveal_strlit("use");
    let body = "help"@;
    assert("/help"@ =~= seq!['/'] + body);
    crate::text::lemma_trim_fixed("/help"@);
    assert("/help"@.drop_first() =~= body);
    assert(trim_start_char(body, '/') == body);
    crate::text::lemma_trim_fixed(body);
    assert(crate::text::no_ws("help"@));
    crate::text::lemma_words_single("help"@);
    assert(body =~= "help"@);
    assert(words(body) =~= seq!["help"@]);
}

proof fn lemma_help_line_1()
    ensures
        slash_verdict("/plan"@) is Command,
{
    reveal_strlit("/plan");
    reveal_strlit("board");
    reveal_strlit("complete");
    reveal_strlit("create");
    reveal_strlit("help");
    reveal_strlit("models");
    reveal_strlit("plan");
    reveal_strlit("schedule");
    reveal_strlit("start");
    reveal_strlit("task ");
    reveal_strlit("tasks");
    reveal_strlit("unscheduled");
    reveal_strlit("use");
    let body = "plan"@;
    assert("/plan"@ =~= seq!['/'] + body);
    crate::text::lemma_trim_fixed("/plan"@);
    assert("/plan"@.drop_first() =~= body);
    assert(trim_start_char(body, '/') == body);
    crate::text::lemma_trim_fixed(body);
    assert(crate::text::no_ws("plan"@));
    crate::text::lemma_words_single("plan"@);
    assert(body =~= "plan"@);
    assert(words(body) =~= seq!["plan"@]);
    assert("plan"@[0] != "help"@[0]);
}

proof fn lemma_help_line_2()
    ensures
        slash_verdict("/board"@) is Command,
{
    reveal_strlit("/board");
    reveal_strlit("board");
    reveal_strlit("complete");
    reveal_strlit("create");
    reveal_strlit("help");
    reveal_strlit("models");
    reveal_strlit("plan");
    reveal_strlit("schedule");
    reveal_strlit("start");
    reveal_strlit("task ");
    reveal_strlit("tasks");
    reveal_strlit("unscheduled");
    reveal_strlit("use");
    let body = "board"@;
    assert("/board"@ =~= seq!['/'] + body);
    crate::text::lemma_trim_fixed("/board"@);
    assert("/board"@.drop_first() =~= body);
    assert(trim_start_char(body, '/') == body);
    crate::text::lemma_trim_fixed(body);
    assert(crate::text::no_ws("board"@));
    crate::text::lemma_words_single("board"@);
    assert(body =~= "board"@);
    assert(words(body) =~= seq!["board"@]);
    assert("board"@.len() != "help"@.len());
    assert("board"@.len() != "plan"@.len());
}

proof fn lemma_help_line_3()
    ensures
        slash_verdict("/tasks"@) is Command,
{
    reveal_strlit("/tasks");
    reveal_strlit("board");
    reveal_strlit("complete");
    reveal_strlit("create");
    reveal_strlit("help");
    reveal_strlit("models");
    reveal_strlit("plan");
    reveal_strlit("schedule");
    reveal_strlit("start");
    reveal_strlit("task ");
    reveal_strlit("tasks");
    reveal_strlit("unscheduled");
    reveal_strlit("use");
    let body = "tasks"@;
    assert("/tasks"@ =~= seq!['/'] + body);
    crate::text::lemma_trim_fixed("/tasks"@);
    assert("/tasks"@.drop_first() =~= body);
    assert(trim_start_char(body, '/') == body);
    crate::text::lemma_trim_fixed(body);
    assert(crate::text::no_ws("tasks"@));
    crate::text::lemma_words_single("tasks"@);
    assert(body =~= "tasks"@);
    assert(words(body) =~= seq!["tasks"@]);
    assert("tasks"@.len() != "help"@.len());
    assert("tasks"@.len() != "plan"@.len());
    assert("tasks"@[0] != "board"@[0]);
}

proof fn lemma_help_line_4()
    ensures
        slash_verdict("/tasks blocked"@) is Command,
{
    reveal_strlit("/tasks blocked");
    reveal_strlit("blocked");
    reveal_strlit("board");
    reveal_strlit("complete");
    reveal_strlit("create");
    reveal_strlit("help");
    reveal_strlit("models");
    reveal_strlit("plan");
    reveal_strlit("schedule");
    reveal_strlit("start");
    reveal_strlit("task ");
    reveal_strlit("tasks");
    reveal_strlit("unscheduled");
    reveal_strlit("use");
    let body = "tasks"@ + seq![' '] + "blocked"@;
    assert("/tasks blocked"@ =~= seq!['/'] + body);
    crate::text::lemma_trim_fixed("/tasks blocked"@);
    assert("/tasks blocked"@.drop_first() =~= body);
    assert(trim_start_char(body, '/') == body);
    crate::text::lemma_trim_fixed(body);
    assert(crate::text::no_ws("tasks"@));
    assert(crate::text::no_ws("blocked"@));
    crate::text::lemma_words_single("blocked"@);
    crate::text::lemma_words_cons("tasks"@, "blocked"@);
    assert(body =~= ("tasks"@ + seq![' '] + "blocked"@));
    assert(words(body) =~= seq!["tasks"@, "blocked"@]);
    assert("tasks"@.len() != "help"@.len());
    assert("tasks"@.len() != "plan"@.len());
    assert("tasks"@[0] != "board"@[0]);
    assert(join_spaced(seq!["blocked"@]) == "blocked"@);
    assert(seq!["tasks"@, "blocked"@].drop_first() =~= seq!["blocked"@]);
}

proof fn lemma_help_line_5()
    ensures
        slash_verdict("/tasks overdue"@) is Command,
{
    reveal_strlit("/tasks overdue");
    reveal_strlit("board");
    reveal_strlit("complete");
    reveal_strlit("create");
    reveal_strlit("help");
    reveal_strlit("models");
    reveal_strlit("overdue");
    reveal_strlit("plan");
    reveal_strlit("schedule");
    reveal_strlit("start");
    reveal_strlit("task ");
    reveal_strlit("tasks");
    reveal_strlit("unscheduled");
    reveal_strlit("use");
    let body = "tasks"@ + seq![' '] + "overdue"@;
    assert("/tasks overdue"@ =~= seq!['/'] + body);
    crate::text::lemma_trim_fixed("/tasks overdue"@);
    assert("/tasks overdue"@.drop_first() =~= body);
    assert(trim_start_char(body, '/') == body);
    crate::text::lemma_trim_fixed(body);
    assert(crate::text::no_ws("tasks"@));
    assert(crate::text::no_ws("overdue"@));
    crate::text::lemma_words_single("overdue"@);
    crate::text::lemma_words_cons("tasks"@, "overdue"@);
    assert(body =~= ("tasks"@ + seq![' '] + "overdue"@));
    assert(words(body) =~= seq!["tasks"@, "overdue"@]);
    assert("tasks"@.len() != "help"@.len());
    assert("tasks"@.len() != "plan"@.len());
    assert("tasks"@[0] != "board"@[0]);
    assert(join_spaced(seq!["overdue"@]) == "overdue"@);
    assert(seq!["tasks"@, "overdue"@].drop_first() =~= seq!["overdue"@]);
}

proof fn lemma_help_line_6()
    ensures
        slash_verdict("/schedule today"@) is Command,
{
    reveal_strlit("/schedule today");
    reveal_strlit("board");
    reveal_strlit("complete");
    reveal_strlit("create");
    reveal_strlit("help");
    reveal_strlit("models");
    reveal_strlit("plan");
    reveal_strlit("schedule");
    reveal_strlit("start");
    reveal_strlit("task ");
    reveal_strlit("tasks");
    reveal_strlit("today");
    reveal_strlit("unscheduled");
    reveal_strlit("use");
    let body = "schedule"@ + seq![' '] + "today"@;
    assert("/schedule today"@ =~= seq!['/'] + body);
    crate::text::lemma_trim_fixed("/schedule today"@);
    assert("/schedule today"@.drop_first() =~= body);
    assert(trim_start_char(body, '/') == body);
    crate::text::lemma_trim_fixed(body);
    assert(crate::text::no_ws("schedule"@));
    assert(crate::text::no_ws("today"@));
    crate::text::lemma_words_single("today"@);
    crate::text::lemma_words_cons("schedule"@, "today"@);
    assert(body =~= ("schedule"@ + seq![' '] + "today"@));
    assert(words(body) =~= seq!["schedule"@, "today"@]);
    assert("schedule"@.len() != "help"@.len());
    assert("schedule"@.len() != "plan"@.len());
    assert("schedule"@.len() != "board"@.len());
    assert("schedule"@.len() != "tasks"@.len());
    assert(join_spaced(seq!["today"@]) == "today"@);
    assert(seq!["schedule"@, "today"@].drop_first() =~= seq!["today"@]);
}

proof fn lemma_help_line_7()
    ensures
        slash_verdict("/schedule week"@) is Command,
{
    reveal_strlit("/schedule week");
    reveal_strlit("board");
    reveal_strlit("complete");
    reveal_strlit("create");
    reveal_strlit("help");
    reveal_strlit("models");
    reveal_strlit("plan");
    reveal_strlit("schedule");
    reveal_strlit("start");
    reveal_strlit("task ");
    reveal_strlit("tasks");
    reveal_strlit("unscheduled");
    reveal_strlit("use");
    reveal_strlit("week");
    let body = "schedule"@ + seq![' '] + "week"@;
    assert("/schedule week"@ =~= seq!['/'] + body);
    crate::text::lemma_trim_fixed("/schedule week"@);
    assert("/schedule week"@.drop_first() =~= body);
    assert(trim_start_char(body, '/') == body);
    crate::text::lemma_trim_fixed(body);
    assert(crate::text::no_ws("schedule"@));
    assert(crate::text::no_ws("week"@));
    crate::text::lemma_words_single("week"@);
    crate::text::lemma_words_cons("schedule"@, "week"@);
    assert(body =~= ("schedule"@ + seq![' '] + "week"@));
    assert(words(body) =~= seq!["schedule"@, "week"@]);
    assert("schedule"@.len() != "help"@.len());
    assert("schedule"@.len() != "plan"@.len());
    assert("schedule"@.len() != "board"@.len());
    assert("schedule"@.len() != "tasks"@.len());
    assert(join_spaced(seq!["week"@]) == "week"@);
    assert(seq!["schedule"@, "week"@].drop_first() =~= seq!["week"@]);
    reveal_strlit("today");
    assert("week"@.len() != "today"@.len());
}

proof fn lemma_help_line_8()
    ensures
        slash_verdict("/unscheduled"@) is Command,
{
    reveal_strlit("/unscheduled");
    reveal_strlit("board");
    reveal_strlit("complete");
    reveal_strlit("create");
    reveal_strlit("help");
    reveal_strlit("models");
    reveal_strlit("plan");
    reveal_strlit("schedule");
    reveal_strlit("start");
    reveal_strlit("task ");
    reveal_strlit("tasks");
    reveal_strlit("unscheduled");
    reveal_strlit("use");
    let body = "unscheduled"@;
    assert("/unscheduled"@ =~= seq!['/'] + body);
    crate::text::lemma_trim_fixed("/unscheduled"@);
    assert("/unscheduled"@.drop_first() =~= body);
    assert(trim_start_char(body, '/') == body);
    crate::text::lemma_trim_fixed(body);
    assert(crate::text::no_ws("unscheduled"@));
    crate::text::lemma_words_single("unscheduled"@);
    assert(body =~= "unscheduled"@);
    assert(words(body) =~= seq!["unscheduled"@]);
    assert("unscheduled"@.len() != "help"@.len());
    assert("unscheduled"@.len() != "plan"@.len());
    assert("unscheduled"@.len() != "board"@.len());
    assert("unscheduled"@.len() != "tasks"@.len());
    assert("unscheduled"@.len() != "schedule"@.len());
}

proof fn lemma_help_line_9()
    ensures
        slash_verdict("/models"@) is Command,
{
    reveal_strlit("/models");
    reveal_strlit("board");
    reveal_strlit("complete");
    reveal_strlit("create");
    reveal_strlit("help");
    reveal_strlit("models");
    reveal_strlit("plan");
    reveal_strlit("schedule");
    reveal_strlit("start");
    reveal_strlit("task ");
    reveal_strlit("tasks");
    reveal_strlit("unscheduled");
    reveal_strlit("use");
    let body = "models"@;
    assert("/models"@ =~= seq!['/'] + body);
    crate::text::lemma_trim_fixed("/models"@);
    assert("/models"@.drop_first() =~= body);
    assert(trim_start_char(body, '/') == body);
    crate::text::lemma_trim_fixed(body);
    assert(crate::text::no_ws("models"@));
    crate::text::lemma_words_single("models"@);
    assert(body =~= "models"@);
    assert(words(body) =~= seq!["models"@]);
    assert("models"@.len() != "help"@.len());
    assert("models"@.len() != "plan"@.len());
    assert("models"@.len() != "board"@.len());
    assert("models"@.len() != "tasks"@.len());
    assert("models"@.len() != "schedule"@.len());
    assert("models"@.len() != "unscheduled"@.len());
}

proof fn lemma_help_line_10()
    ensures
        slash_verdict("/use <model>"@) is Command,
{
    reveal_strlit("/use <model>");
    reveal_strlit("<model>");
    reveal_strlit("board");
    reveal_strlit("complete");
    reveal_strlit("create");
    reveal_strlit("help");
    reveal_strlit("models");
    reveal_strlit("plan");
    reveal_strlit("schedule");
    reveal_strlit("start");
    reveal_strlit("task ");
    reveal_strlit("tasks");
    reveal_strlit("unscheduled");
    reveal_strlit("use");
    let body = "use"@ + seq![' '] + "<model>"@;
    assert("/use <model>"@ =~= seq!['/'] + body);
    crate::text::lemma_trim_fixed("/use <model>"@);
    assert("/use <model>"@.drop_first() =~= body);
    assert(trim_start_char(body, '/') == body);
    crate::text::lemma_trim_fixed(body);
    assert(crate::text::no_ws("use"@));
    assert(crate::text::no_ws("<model>"@));
    crate::text::lemma_words_single("<model>"@);
    crate::text::lemma_words_cons("use"@, "<model>"@);
    assert(body =~= ("use"@ + seq![' '] + "<model>"@));
    assert(words(body) =~= seq!["use"@, "<model>"@]);
    assert("use"@.len() != "help"@.len());
    assert("use"@.len() != "plan"@.len());
    assert("use"@.len() != "board"@.len());
    assert("use"@.len() != "tasks"@.len());
    assert("use"@.len() != "schedule"@.len());
    assert("use"@.len() != "unscheduled"@.len());
    assert("use"@.len() != "models"@.len());
    assert(join_spaced(seq!["<model>"@]) == "<model>"@);
    assert(seq!["use"@, "<model>"@].drop_first() =~= seq!["<model>"@]);
}

proof fn lemma_help_line_11()
    ensures
        slash_verdict("/create task <title>"@) is Command,
{
    reveal_strlit("/create task <title>");
    reveal_strlit("<title>");
    reveal_strlit("board");
    reveal_strlit("complete");
    reveal_strlit("create");
    reveal_strlit("help");
    reveal_strlit("models");
    reveal_strlit("plan");
    reveal_strlit("schedule");
    reveal_strlit("start");
    reveal_strlit("task");
    reveal_strlit("task ");
    reveal_strlit("tasks");
    reveal_strlit("unscheduled");
    reveal_strlit("use");
    let body = "create"@ + seq![' '] + "task"@ + seq![' '] + "<title>"@;
    assert("/create task <title>"@ =~= seq!['/'] + body);
    crate::text::lemma_trim_fixed("/create task <title>"@);
    assert("/create task <title>"@.drop_first() =~= body);
    assert(trim_start_char(body, '/') == body);
    crate::text::lemma_trim_fixed(body);
    assert(crate::text::no_ws("create"@));
    assert(crate::text::no_ws("task"@));
    assert(crate::text::no_ws("<title>"@));
    crate::text::lemma_words_single("<title>"@);
    crate::text::lemma_words_cons("task"@, "<title>"@);
    crate::text::lemma_words_cons("create"@, ("task"@ + seq![' '] + "<title>"@));
    assert(body =~= ("create"@ + seq![' '] + ("task"@ + seq![' '] + "<title>"@)));
    assert(words(body) =~= seq!["create"@, "task"@, "<title>"@]);
    assert("create"@.len() != "help"@.len());
    assert("create"@.len() != "plan"@.len());
    assert("create"@.len() != "board"@.len());
    assert("create"@.len() != "tasks"@.len());
    assert("create"@.len() != "schedule"@.len());
    assert("create"@.len() != "unscheduled"@.len());
    assert("create"@[0] != "models"@[0]);
    assert("create"@.len() != "use"@.len());
    assert(seq!["create"@, "task"@, "<title>"@].drop_first() =~= seq!["task"@, "<title>"@]);
    let rest = "task"@ + seq![' '] + "<title>"@;
    assert(join_spaced(seq!["task"@, "<title>"@]) =~= rest) by {
        assert(seq!["task"@, "<title>"@].drop_last() =~= seq!["task"@]);
        assert(join_spaced(seq!["task"@]) == "task"@);
        assert(seq!["task"@, "<title>"@].last() == "<title>"@);
    }
    assert(rest.subrange(0, 5) =~= "task "@);
    assert(rest.subrange(5, rest.len() as int) =~= "<title>"@);
    crate::text::lemma_trim_fixed("<title>"@);
}

proof fn lemma_help_line_12()
    ensures
        slash_verdict("/complete task <id>"@) is Command,
{
    reveal_strlit("/complete task <id>");
    reveal_strlit("<id>");
    reveal_strlit("board");
    reveal_strlit("complete");
    reveal_strlit("create");
    reveal_strlit("help");
    reveal_strlit("models");
    reveal_strlit("plan");
    reveal_strlit("schedule");
    reveal_strlit("start");
    reveal_strlit("task");
    reveal_strlit("task ");
    reveal_strlit("tasks");
    reveal_strlit("unscheduled");
    reveal_strlit("use");
    let body = "complete"@ + seq![' '] + "task"@ + seq![' '] + "<id>"@;
    assert("/complete task <id>"@ =~= seq!['/'] + body);
    crate::text::lemma_trim_fixed("/complete task <id>"@);
    assert("/complete task <id>"@.drop_first() =~= body);
    assert(trim_start_char(body, '/') == body);
    crate::text::lemma_trim_fixed(body);
    assert(crate::text::no_ws("complete"@));
    assert(crate::text::no_ws("task"@));
    assert(crate::text::no_ws("<id>"@));
    crate::text::lemma_words_single("<id>"@);
    crate::text::lemma_words_cons("task"@, "<id>"@);
    crate::text::lemma_words_cons("complete"@, ("task"@ + seq![' '] + "<id>"@));
    assert(body =~= ("complete"@ + seq![' '] + ("task"@ + seq![' '] + "<id>"@)));
    assert(words(body) =~= seq!["complete"@, "task"@, "<id>"@]);
    assert("complete"@.len() != "help"@.len());
    assert("complete"@.len() != "plan"@.len());
    assert("complete"@.len() != "board"@.len());
    assert("complete"@.len() != "tasks"@.len());
    assert("complete"@[0] != "schedule"@[0]);
    assert("complete"@.len() != "unscheduled"@.len());
    assert("complete"@.len() != "models"@.len());
    assert("complete"@.len() != "use"@.len());
    assert("complete"@.len() != "create"@.len());
    assert(seq!["complete"@, "task"@, "<id>"@].drop_first() =~= seq!["task"@, "<id>"@]);
    let rest = "task"@ + seq![' '] + "<id>"@;
    assert(join_spaced(seq!["task"@, "<id>"@]) =~= rest) by {
        assert(seq!["task"@, "<id>"@].drop_last() =~= seq!["task"@]);
        assert(join_spaced(seq!["task"@]) == "task"@);
        assert(seq!["task"@, "<id>"@].last() == "<id>"@);
    }
    assert(rest.subrange(0, 5) =~= "task "@);
    assert(rest.subrange(5, rest.len() as int) =~= "<id>"@);
    crate::text::lemma_trim_fixed("<id>"@);
}

proof fn lemma_help_line_13()
    ensures
        slash_verdict("/start task <id>"@) is Command,
{
    reveal_strlit("/start task <id>");
    reveal_strlit("<id>");
    reveal_strlit("board");
    reveal_strlit("complete");
    reveal_strlit("create");
    reveal_strlit("help");
    reveal_strlit("models");
    reveal_strlit("plan");
    reveal_strlit("schedule");
    reveal_strlit("start");
    reveal_strlit("task");
    reveal_strlit("task ");
    reveal_strlit("tasks");
    reveal_strlit("unscheduled");
    reveal_strlit("use");
    let body = "start"@ + seq![' '] + "task"@ + seq![' '] + "<id>"@;
    assert("/start task <id>"@ =~= seq!['/'] + body);
    crate::text::lemma_trim_fixed("/start task <id>"@);
    assert("/start task <id>"@.drop_first() =~= body);
    assert(trim_start_char(body, '/') == body);
    crate::text::lemma_trim_fixed(body);
    assert(crate::text::no_ws("start"@));
    assert(crate::text::no_ws("task"@));
    assert(crate::text::no_ws("<id>"@));
    crate::text::lemma_words_single("<id>"@);
    crate::text::lemma_words_cons("task"@, "<id>"@);
    crate::text::lemma_words_cons("start"@, ("task"@ + seq![' '] + "<id>"@));
    assert(body =~= ("start"@ + seq![' '] + ("task"@ + seq![' '] + "<id>"@)));
    assert(words(body) =~= seq!["start"@, "task"@, "<id>"@]);
    assert("start"@.len() != "help"@.len());
    assert("start"@.len() != "plan"@.len());
    assert("start"@[0] != "board"@[0]);
    assert("start"@[0] != "tasks"@[0]);
    assert("start"@.len() != "schedule"@.len());
    assert("start"@.len() != "unscheduled"@.len());
    assert("start"@.len() != "models"@.len());
    assert("start"@.len() != "use"@.len());
    assert("start"@.len() != "create"@.len());
    assert("start"@.len() != "complete"@.len());
    assert(seq!["start"@, "task"@, "<id>"@].drop_first() =~= seq!["task"@, "<id>"@]);
    let rest = "task"@ + seq![' '] + "<id>"@;
    assert(join_spaced(seq!["task"@, "<id>"@]) =~= rest) by {
        assert(seq!["task"@, "<id>"@].drop_last() =~= seq!["task"@]);
        assert(join_spaced(seq!["task"@]) == "task"@);
        assert(seq!["task"@, "<id>"@].last() == "<id>"@);
    }
    assert(rest.subrange(0, 5) =~= "task "@);
    assert(rest.subrange(5, rest.len() as int) =~= "<id>"@);
    crate::text::lemma_trim_fixed("<id>"@);
}

/// The command word of a slash-command line: the first word after the `/`, when there is one.
pub open spec fn slash_word(input: Seq<char>) -> Option<Seq<char>> {
    let t = trim_spec(input);
    let body = trim_spec(trim_start_char(t, '/'));
    if t.len() > 0 && t[0] == '/' && body.len() > 0 {
        Some(words(body)[0])
    } else {
        None
    }
}

/// Law: each command word gives its own command, and each command comes from its own word
/// (a bare `/` is help), so distinct command words never parse to the same command.
pub proof fn lemma_command_words(input: Seq<char>, c: SlashCommand)
    requires
        slash_verdict(input) matches SlashVerdict::Command(tag, arg) && command_is(c, tag, arg),
    ensures
        slash_word(input) is None ==> c == SlashCommand::Help,
        slash_word(input) == Some("help"@) ==> c == SlashCommand::Help,
        slash_word(input) == Some("plan"@) ==> c == SlashCommand::Plan,
        slash_word(input) == Some("board"@) ==> c == SlashCommand::Board,
        slash_word(input) == Some("tasks"@) ==> c is Tasks,
        slash_word(input) == Some("schedule"@) ==> c == SlashCommand::ScheduleToday || c
            == SlashCommand::ScheduleWeek,
        slash_word(input) == Some("unscheduled"@) ==> c == SlashCommand::Unscheduled,
        slash_word(input) == Some("models"@) ==> c == SlashCommand::Models,
        slash_word(input) == Some("use"@) ==> c is UseModel,
        slash_word(input) == Some("create"@) ==> c is CreateTask,
        slash_word(input) == Some("complete"@) ==> c is CompleteTask,
        slash_word(input) == Some("start"@) ==> c is StartTask,
        c == SlashCommand::Help ==> slash_word(input) is None || slash_word(input) == Some("help"@),
        c == SlashCommand::Plan ==> slash_word(input) == Some("plan"@),
        c == SlashCommand::Board ==> slash_word(input) == Some("board"@),
        c is Tasks ==> slash_word(input) == Some("tasks"@),
        (c == SlashCommand::ScheduleToday || c == SlashCommand::ScheduleWeek) ==> slash_word(input) == Some(
            "schedule"@,
        ),
        c == SlashCommand::Unscheduled ==> slash_word(input) == Some("unscheduled"@),
        c == SlashCommand::Models ==> slash_word(input) == Some("models"@),
        c is UseModel ==> slash_word(input) == Some("use"@),
        c is CreateTask ==> slash_word(input) == Some("create"@),
        c is CompleteTask ==> slash_word(input) == Some("complete"@),
        c is StartTask ==> slash_word(input) == Some("start"@),
{
    reveal_strlit("board");
    reveal_strlit("complete");
    reveal_strlit("create");
    reveal_strlit("help");
    reveal_strlit("models");
    reveal_strlit("plan");
    reveal_strlit("schedule");
    reveal_strlit("start");
    reveal_strlit("tasks");
    reveal_strlit("unscheduled");
    reveal_strlit("use");
    assert("use"@.len() == 3 && "help"@.len() == 4 && "plan"@.len() == 4 && "board"@.len() == 5);
    assert("tasks"@.len() == 5 && "start"@.len() == 5 && "models"@.len() == 6 && "create"@.len() == 6);
    assert("schedule"@.len() == 8 && "complete"@.len() == 8 && "unscheduled"@.len() == 11);
    assert("plan"@[0] != "help"@[0]);
    assert("tasks"@[0] != "board"@[0]);
    assert("start"@[0] != "board"@[0] && "start"@[1] != "tasks"@[1]);
    assert("create"@[0] != "models"@[0]);
    assert("complete"@[0] != "schedule"@[0]);
}

/// Law: every command the help text advertises parses as a command.
pub proof fn lemma_help_lines_parse()
    ensures
        forall|k: int| 0 <= k < help_lines().len() ==> (#[trigger] slash_verdict(help_lines()[k])) is Command,
{
    lemma_help_line_0();
    lemma_help_line_1();
    lemma_help_line_2();
    lemma_help_line_3();
    lemma_help_line_4();
    lemma_help_line_5();
    lemma_help_line_6();
    lemma_help_line_7();
    lemma_help_line_8();
    lemma_help_line_9();
    lemma_help_line_10();
    lemma_help_line_11();
    lemma_help_line_12();
    lemma_help_line_13();
    assert forall|k: int| 0 <= k < help_lines().len() implies (#[trigger] slash_verdict(help_lines()[k])) is Command by {
        if k == 0 {
            assert(help_lines()[k] == "/help"@);
        } else if k == 1 {
            assert(help_lines()[k] == "/plan"@);
        } else if k == 2 {
            assert(help_lines()[k] == "/board"@);
        } else if k == 3 {
            assert(help_lines()[k] == "/tasks"@);
        } else if k == 4 {
            assert(help_lines()[k] == "/tasks blocked"@);
        } else if k == 5 {
            assert(help_lines()[k] == "/tasks overdue"@);
        } else if k == 6 {
            assert(help_lines()[k] == "/schedule today"@);
        } else if k == 7 {
            assert(help_lines()[k] == "/schedule week"@);
        } else if k == 8 {
            assert(help_lines()[k] == "/unscheduled"@);
        } else if k == 9 {
            assert(help_lines()[k] == "/models"@);
        } else if k == 10 {
            assert(help_lines()[k] == "/use <model>"@);
        } else if k == 11 {
            assert(help_lines()[k] == "/create task <title>"@);
        } else if k == 12 {
            assert(help_lines()[k] == "/complete task <id>"@);
        } else if k == 13 {
            assert(help_lines()[k] == "/start task <id>"@);
        }
    }
}

/// Parse a slash command of the local assistant; `Ok(None)` for ordinary chat input.
pub fn parse_slash_command(input: &str) -> (r: Result<Option<SlashCommand>, CoreError>)
    ensures
        match slash_verdict(input@) {
            SlashVerdict::NotCommand => r matches Ok(None),
            SlashVerdict::Command(tag, arg) => r matches Ok(Some(c)) && command_is(c, tag, arg),
            SlashVerdict::Refused(m) => r matches Err(CoreError::Validation(e)) && e@ == m,
        },
{
    proof {
        reveal_strlit("task ");
    }
    let trimmed = trim(input);
    if !(trimmed.unicode_len() > 0 && trimmed.get_char(0) == '/') {
        return Ok(None);
    }
    let without_slash = trim(trim_start_matches_char(trimmed, '/'));
    if without_slash.unicode_len() == 0 {
        return Ok(Some(SlashCommand::Help));
    }
    let parts = split_whitespace(without_slash);
    proof {
        crate::text::lemma_words_nonempty(without_slash@);
    }
    let command = parts[0];
    let rest_words = slice_tail(&parts);
    let rest = join_words(rest_words.as_slice());
    proof {
        assert(rest_words@.map_values(|w: &str| w@) =~= words(without_slash@).drop_first());
    }
    let rest_str = rest.as_str();
    let parsed = if str_eq(command, "help") {
        SlashCommand::Help
    } else if str_eq(command, "plan") {
        SlashCommand::Plan
    } else if str_eq(command, "board") {
        SlashCommand::Board
    } else if str_eq(command, "tasks") {
        SlashCommand::Tasks(if rest_str.unicode_len() > 0 { Some(to_string(rest_str)) } else { None })
    } else if str_eq(command, "schedule") && str_eq(rest_str, "today") {
        SlashCommand::ScheduleToday
    } else if str_eq(command, "schedule") && str_eq(rest_str, "week") {
        SlashCommand::ScheduleWeek
    } else if str_eq(command, "unscheduled") {
        SlashCommand::Unscheduled
    } else if str_eq(command, "models") {
        SlashCommand::Models
    } else if str_eq(command, "use") && rest_str.unicode_len() > 0 {
        SlashCommand::UseModel(to_string(rest_str))
    } else if str_eq(command, "create") && starts_with(rest_str, "task ") {
        let title = trim(slice(rest_str, 5, rest_str.unicode_len()));
        if title.unicode_len() == 0 {
            return Err(CoreError::Validation(to_string("task title is required")));
        }
        SlashCommand::CreateTask(to_string(title))
    } else if str_eq(command, "complete") && starts_with(rest_str, "task ") {
        SlashCommand::CompleteTask(to_string(trim(slice(rest_str, 5, rest_str.unicode_len()))))
    } else if str_eq(command, "start") && starts_with(rest_str, "task ") {
        SlashCommand::StartTask(to_string(trim(slice(rest_str, 5, rest_str.unicode_len()))))
    } else {
        let mut message = to_string("unknown local AI slash command: /");
        push_str(&mut message, without_slash);
        return Err(CoreError::Validation(message));
    };
    Ok(Some(parsed))
}

/// All but the first element of a non-empty list.
fn slice_tail<'a>(v: &Vec<&'a str>) -> (r: Vec<&'a str>)
    requires
        v@.len() > 0,
    ensures
        r@ == v@.drop_first(),
{
    let mut r: Vec<&'a str> = Vec::new();
    let mut i: usize = 1;
    while i < v.len()
        invariant
            1 <= i <= v@.len(),
            r@ == v@.subrange(1, i as int),
        decreases v@.len() - i,
    {
        r.push(v[i]);
        assert(r@ =~= v@.subrange(1, i + 1));
        i = i + 1;
    }
    assert(v@.subrange(1, v@.len() as int) =~= v@.drop_first());
    r
}

/// The help text listing the slash commands.
pub open spec fn slash_help_text() -> Seq<char> {
    join_lines(seq!["Available commands:"@] + help_lines())
}

/// The help text listing the slash commands, one per line.
pub fn slash_help() -> (s: String)
    ensures
        s@ == slash_help_text(),
{
    let lines: Vec<&str> = vec![
        "Available commands:",
        "/help",
        "/plan",
        "/board",
        "/tasks",
        "/tasks blocked",
        "/tasks overdue",
        "/schedule today",
        "/schedule week",
        "/unscheduled",
        "/models",
        "/use <model>",
        "/create task <title>",
        "/complete task <id>",
        "/start task <id>",
    ];
    let ghost all = seq!["Available commands:"@] + help_lines();
    proof {
        assert(lines@.map_values(|l: &str| l@) =~= all);
    }
    let mut s = to_string(lines[0]);
    let mut i: usize = 1;
    proof {
        assert(all.take(1).len() == 1);
        assert(join_lines(all.take(1)) == all[0]);
    }
    while i < lines.len()
        invariant
            1 <= i <= lines@.len(),
            lines@.map_values(|l: &str| l@) == all,
            s@ == join_lines(all.take(i as int)),
        decreases lines@.len() - i,
    {
        proof {
            assert(all.take(i as int + 1).drop_last() =~= all.take(i as int));
            assert(all.take(i as int + 1).last() == lines@[i as int]@);
        }
        push_str(&mut s, "\n");
        push_str(&mut s, lines[i]);
        i = i + 1;
    }
    proof {
        assert(all.take(all.len() as int) =~= all);
    }
    s
}

/// A failed connection probe with its error message.
pub fn disconnected(error: String) -> (r: LocalAiConnectionResult)
    ensures
        !r.connected,
        r.version is None,
        r.error == Some(error),
{
    LocalAiConnectionResult { connected: false, version: None, error: Some(error) }
}

/// The characters of an optional borrowed string.
pub open spec fn opt_str_text(v: Option<&str>) -> Option<Seq<char>> {
    match v {
        Some(s) => Some(s@),
        None => None,
    }
}

/// The refusal of a chat reply without assistant content.
pub open spec fn missing_content_text() -> Seq<char> {
    "Ollama chat response did not include assistant content"@
}

/// `r` is the chat reply built from the fields the server sent: the assistant content is
/// required; the model defaults to `DEFAULT_OLLAMA_MODEL`; the counters are passed through.
pub open spec fn chat_reply(
    model: Option<Seq<char>>,
    content: Option<Seq<char>>,
    total_duration: Option<i64>,
    load_duration: Option<i64>,
    prompt_eval_count: Option<i64>,
    eval_count: Option<i64>,
    r: Result<LocalAiChatResponse, CoreError>,
) -> bool {
    match content {
        None => r matches Err(CoreError::Validation(m)) && m@ == missing_content_text(),
        Some(c) => r matches Ok(resp) && resp.content@ == c && resp.model@ == match model {
            Some(m) => m,
            None => DEFAULT_OLLAMA_MODEL@,
        } && resp.total_duration == total_duration && resp.load_duration == load_duration
            && resp.prompt_eval_count == prompt_eval_count && resp.eval_count == eval_count,
    }
}

/// A chat reply from the fields the server sent: the assistant content is required; the
/// model defaults to `DEFAULT_OLLAMA_MODEL`; the counters are passed through.
pub fn chat_response_from(
    model: Option<&str>,
    content: Option<&str>,
    total_duration: Option<i64>,
    load_duration: Option<i64>,
    prompt_eval_count: Option<i64>,
    eval_count: Option<i64>,
) -> (r: Result<LocalAiChatResponse, CoreError>)
    ensures
        chat_reply(
            opt_str_text(model),
            opt_str_text(content),
            total_duration,
            load_duration,
            prompt_eval_count,
            eval_count,
            r,
        ),
{
    let content = match content {
        Some(c) => c,
        None => {
            return Err(
                CoreError::Validation(
                    to_string("Ollama chat response did not include assistant content"),
                ),
            );
        },
    };
    let model = match model {
        Some(m) => m,
        None => DEFAULT_OLLAMA_MODEL,
    };
    Ok(
        LocalAiChatResponse {
            model: to_string(model),
            content: to_string(content),
            total_duration,
            load_duration,
            prompt_eval_count,
            eval_count,
        },
    )
}

/// The assistant content of a chat reply: `message.content`, when a JSON string.
pub open spec fn reply_content(value: Json) -> Option<Seq<char>> {
    match member(value, "message"@) {
        Some(m) => member_text(m, "content"@),
        None => None,
    }
}

/// Read a chat reply of the local model server: `model`, `message.content` and the counters.
pub fn parse_ollama_chat_response(value: &Json) -> (r: Result<LocalAiChatResponse, CoreError>)
    ensures
        chat_reply(
            member_text(*value, "model"@),
            reply_content(*value),
            member_int(*value, "total_duration"@),
            member_int(*value, "load_duration"@),
            member_int(*value, "prompt_eval_count"@),
            member_int(*value, "eval_count"@),
            r,
        ),
{
    let model = crate::json::member_str(value, "model");
    let content = match crate::json::get(value, "message") {
        Some(m) => crate::json::member_str(m, "content"),
        None => None,
    };
    chat_response_from(
        model,
        content,
        crate::json::member_i64(value, "total_duration"),
        crate::json::member_i64(value, "load_duration"),
        crate::json::member_i64(value, "prompt_eval_count"),
        crate::json::member_i64(value, "eval_count"),
    )
}

/// An installed model from the fields the server listed: a name is required and is also its
/// display name.
pub fn model_entry(
    name: Option<&str>,
    size: Option<i64>,
    modified_at: Option<Timestamp>,
    digest: Option<&str>,
    family: Option<&str>,
    details: Option<Json>,
) -> (r: Option<LocalAiModel>)
    ensures
        match name {
            None => r is None,
            Some(n) => r matches Some(m) && {
                &&& m.name@ == n@
                &&& opt_string_view(m.display_name) == Some(n@)
                &&& m.size == size
                &&& m.modified_at == modified_at
                &&& opt_string_view(m.digest) == opt_str_text(digest)
                &&& opt_string_view(m.family) == opt_str_text(family)
                &&& m.details == details
                &&& m.installed
            },
        },
{
    let name = match name {
        Some(n) => n,
        None => {
            return None;
        },
    };
    Some(
        LocalAiModel {
            name: to_string(name),
            display_name: Some(to_string(name)),
            size,
            modified_at,
            digest: match digest {
                Some(d) => Some(to_string(d)),
                None => None,
            },
            family: match family {
                Some(f) => Some(to_string(f)),
                None => None,
            },
            details,
            installed: true,
        },
    )
}

/// The characters of an optional owned string.
pub open spec fn opt_string_view(v: Option<String>) -> Option<Seq<char>> {
    match v {
        Some(s) => Some(s@),
        None => None,
    }
}

/// The name a listed model goes by: its `name`, else its `model`, when a JSON string.
pub open spec fn listed_name(item: Json) -> Option<Seq<char>> {
    text_of(first_member_spec(item, seq!["name"@, "model"@]))
}

/// The entries of `models` in a model list, or none when it is no array.
pub open spec fn tag_items(value: Json) -> Seq<Json> {
    match member(value, "models"@) {
        Some(Json::Array(items)) => items@,
        _ => Seq::empty(),
    }
}

/// The entries that have a name, in order.
pub open spec fn named_items(items: Seq<Json>) -> Seq<Json>
    decreases items.len(),
{
    if items.len() == 0 {
        Seq::empty()
    } else {
        let before = named_items(items.drop_last());
        if listed_name(items.last()) is Some {
            before.push(items.last())
        } else {
            before
        }
    }
}

/// `m` is the installed model a named list entry describes.
pub open spec fn model_from(m: LocalAiModel, item: Json) -> bool {
    &&& listed_name(item) == Some(m.name@)
    &&& opt_string_view(m.display_name) == Some(m.name@)
    &&& m.size == member_int(item, "size"@)
    &&& m.modified_at == match member_text(item, "modified_at"@) {
        Some(t) => rfc3339_instant(t),
        None => None,
    }
    &&& opt_string_view(m.digest) == member_text(item, "digest"@)
    &&& opt_string_view(m.family) == match member(item, "details"@) {
        Some(d) => member_text(d, "family"@),
        None => None,
    }
    &&& opt_jv(m.details) == opt_jv(member(item, "details"@))
    &&& m.installed
}

/// Read the model list of the local model server: each entry of `models` with a `name` (or
/// `model`) string becomes an installed model.
pub fn parse_ollama_tags(value: &Json) -> (r: Vec<LocalAiModel>)
    ensures
        r@.len() == named_items(tag_items(*value)).len(),
        forall|i: int| 0 <= i < r@.len() ==> model_from(#[trigger] r@[i], named_items(tag_items(*value))[i]),
{
    let mut models: Vec<LocalAiModel> = Vec::new();
    let items = match crate::json::get(value, "models") {
        Some(Json::Array(list)) => list,
        _ => {
            return models;
        },
    };
    let ghost all = items@;
    assert(all == tag_items(*value));
    let mut i: usize = 0;
    proof {
        assert(all.take(0) =~= Seq::<Json>::empty());
    }
    while i < items.len()
        invariant
            i <= items@.len(),
            all == items@,
            models@.len() == named_items(all.take(i as int)).len(),
            forall|j: int| 0 <= j < models@.len() ==> model_from(#[trigger] models@[j], named_items(all.take(i as int))[j]),
        decreases items@.len() - i,
    {
        let item = &items[i];
        proof {
            assert(all.take(i as int + 1).drop_last() =~= all.take(i as int));
            assert(all.take(i as int + 1).last() == *item);
        }
        let keys: Vec<&str> = vec!["name", "model"];
        proof {
            assert(keys@.map_values(|k: &str| k@) =~= seq!["name"@, "model"@]);
        }
        let name = crate::json::as_text(crate::json::first_member(item, keys.as_slice()));
        let details = crate::json::get(item, "details");
        let modified_at = match crate::json::member_str(item, "modified_at") {
            Some(t) => crate::time::parse_rfc3339(t),
            None => None,
        };
        let family = match details {
            Some(d) => crate::json::member_str(d, "family"),
            None => None,
        };
        let details_copy = match details {
            Some(d) => Some(d.duplicate()),
            None => None,
        };
        let ghost before = models@;
        match model_entry(
            name,
            crate::json::member_i64(item, "size"),
            modified_at,
            crate::json::member_str(item, "digest"),
            family,
            details_copy,
        ) {
            Some(m) => models.push(m),
            None => {},
        }
        proof {
            assert forall|j: int| 0 <= j < models@.len() implies model_from(
                #[trigger] models@[j],
                named_items(all.take(i as int + 1))[j],
            ) by {
                if j < before.len() {
                    assert(models@[j] == before[j]);
                }
            }
        }
        i = i + 1;
    }
    proof {
        assert(all.take(all.len() as int) =~= all);
    }
    models
}

/// A workflow answer from a chat reply.
pub fn workflow_response(
    chat: LocalAiChatResponse,
    fallback_used: bool,
    fallback_task: Option<TaskWithContext>,
) -> (r: LocalAiWorkflowResponse)
    ensures
        r.content == chat.content,
        r.model == Some(chat.model),
        r.fallback_used == fallback_used,
        r.fallback_task == fallback_task,
        r.error is None,
{
    LocalAiWorkflowResponse {
        content: chat.content,
        model: Some(chat.model),
        fallback_used,
        fallback_task,
        error: None,
    }
}

/// A failed workflow: no content, no model, and the error's message.
pub fn workflow_error(error: &str) -> (r: LocalAiWorkflowResponse)
    ensures
        r.content@.len() == 0,
        r.model is None,
        !r.fallback_used,
        r.fallback_task is None,
        r.error matches Some(e) && e@ == error@,
{
    LocalAiWorkflowResponse {
        content: String::new(),
        model: None,
        fallback_used: false,
        fallback_task: None,
        error: Some(to_string(error)),
    }
}

} // verus!
