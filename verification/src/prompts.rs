//! The prompts of the local assistant's one-shot workflows: task listings, board context and
//! the plan, next-task, triage, project-summary and rewrite prompts.
use vstd::prelude::*;
use crate::models::{BoardState, Project, ScoredTask, Task, TaskStatus, TaskWithContext};
use crate::text::{int_text, join_lines, push_i64, push_str, to_string};

verus! {

/// `- P{priority} score {score} [{status}] {project} / {title}`
pub open spec fn task_line(
    priority: int,
    score: int,
    status: TaskStatus,
    project: Seq<char>,
    title: Seq<char>,
) -> Seq<char> {
    "- P"@ + int_text(priority) + " score "@ + int_text(score) + " ["@ + status.text() + "] "@
        + project + " / "@ + title
}

fn push_task_line(
    out: &mut String,
    priority: i32,
    score: i32,
    status: TaskStatus,
    project: &str,
    title: &str,
)
    ensures
        final(out)@ == old(out)@ + task_line(priority as int, score as int, status, project@, title@),
{
    push_str(out, "- P");
    push_i64(out, priority as i64);
    push_str(out, " score ");
    push_i64(out, score as i64);
    push_str(out, " [");
    push_str(out, status.as_str());
    push_str(out, "] ");
    push_str(out, project);
    push_str(out, " / ");
    push_str(out, title);
}

/// The listing line of a task with its context.
pub open spec fn context_line(t: TaskWithContext) -> Seq<char> {
    task_line(t.task.priority as int, t.urgency_score as int, t.task.status, t.project_name@, t.task.title@)
}

/// The listing line of a scored board task.
pub open spec fn scored_line(t: ScoredTask) -> Seq<char> {
    task_line(
        t.context.task.priority as int,
        t.urgency_score as int,
        t.context.task.status,
        t.context.project_name@,
        t.context.task.title@,
    )
}

/// The compact listing line of a task, which leads with its id.
pub open spec fn compact_line(t: TaskWithContext) -> Seq<char> {
    "- "@ + t.task.id@ + " P"@ + int_text(t.task.priority as int) + " score "@ + int_text(
        t.urgency_score as int,
    ) + " ["@ + t.task.status.text() + "] "@ + t.project_name@ + " / "@ + t.task.title@
}

/// At most `limit` items from the front.
pub open spec fn first_n<A>(s: Seq<A>, limit: nat) -> Seq<A> {
    if s.len() <= limit {
        s
    } else {
        s.take(limit as int)
    }
}

/// The listing of the first twenty tasks, one line each.
pub open spec fn task_listing(ts: Seq<TaskWithContext>) -> Seq<char> {
    join_lines(first_n(ts, 20).map_values(|t: TaskWithContext| context_line(t)))
}

/// The listing of the first eight scored tasks, one line each.
pub open spec fn scored_listing(ts: Seq<ScoredTask>) -> Seq<char> {
    join_lines(first_n(ts, 8).map_values(|t: ScoredTask| scored_line(t)))
}

/// The first `limit` tasks, one line each, each led by the task's id.
pub fn compact_task_lines(tasks: &[TaskWithContext], limit: usize) -> (s: String)
    ensures
        s@ == join_lines(first_n(tasks@, limit as nat).map_values(|t: TaskWithContext| compact_line(t))),
{
    let n: usize = if tasks.len() <= limit {
        tasks.len()
    } else {
        limit
    };
    let ghost shown = first_n(tasks@, limit as nat);
    let mut out = String::new();
    let mut i: usize = 0;
    proof {
        assert(shown.subrange(0, 0).map_values(|t: TaskWithContext| compact_line(t)) =~= Seq::<Seq<char>>::empty());
    }
    while i < n
        invariant
            n == shown.len(),
            shown == first_n(tasks@, limit as nat),
            n <= tasks@.len(),
            forall|k: int| 0 <= k < n ==> shown[k] == tasks@[k],
            i <= n,
            out@ == join_lines(shown.subrange(0, i as int).map_values(|t: TaskWithContext| compact_line(t))),
        decreases n - i,
    {
        let t = &tasks[i];
        let ghost before = out@;
        if i > 0 {
            push_str(&mut out, "\n");
        }
        push_str(&mut out, "- ");
        push_str(&mut out, t.task.id.as_str());
        push_str(&mut out, " P");
        push_i64(&mut out, t.task.priority as i64);
        push_str(&mut out, " score ");
        push_i64(&mut out, t.urgency_score as i64);
        push_str(&mut out, " [");
        push_str(&mut out, t.task.status.as_str());
        push_str(&mut out, "] ");
        push_str(&mut out, t.project_name.as_str());
        push_str(&mut out, " / ");
        push_str(&mut out, t.task.title.as_str());
        proof {
            let ls = shown.subrange(0, i as int + 1).map_values(|t: TaskWithContext| compact_line(t));
            assert(ls.drop_last() =~= shown.subrange(0, i as int).map_values(|t: TaskWithContext| compact_line(t)));
            assert(ls.last() == compact_line(tasks@[i as int]));
            if i == 0 {
                assert(out@ =~= ls[0]);
            } else {
                assert(out@ =~= before + "\n"@ + ls.last());
            }
        }
        i = i + 1;
    }
    proof {
        assert(shown.subrange(0, n as int) =~= shown);
    }
    out
}

/// The first twenty tasks, one line each.
pub fn task_lines(tasks: &[TaskWithContext]) -> (s: String)
    ensures
        s@ == task_listing(tasks@),
{
    let n: usize = if tasks.len() <= 20 {
        tasks.len()
    } else {
        20
    };
    let ghost shown = first_n(tasks@, 20);
    let mut out = String::new();
    let mut i: usize = 0;
    proof {
        assert(shown.subrange(0, 0).map_values(|t: TaskWithContext| context_line(t)) =~= Seq::<Seq<char>>::empty());
    }
    while i < n
        invariant
            n == shown.len(),
            shown == first_n(tasks@, 20),
            n <= tasks@.len(),
            forall|k: int| 0 <= k < n ==> shown[k] == tasks@[k],
            i <= n,
            out@ == join_lines(shown.subrange(0, i as int).map_values(|t: TaskWithContext| context_line(t))),
        decreases n - i,
    {
        let t = &tasks[i];
        let ghost before = out@;
        if i > 0 {
            push_str(&mut out, "\n");
        }
        push_task_line(
            &mut out,
            t.task.priority,
            t.urgency_score,
            t.task.status,
            t.project_name.as_str(),
            t.task.title.as_str(),
        );
        proof {
            let ls = shown.subrange(0, i as int + 1).map_values(|t: TaskWithContext| context_line(t));
            assert(ls.drop_last() =~= shown.subrange(0, i as int).map_values(|t: TaskWithContext| context_line(t)));
            assert(ls.last() == context_line(tasks@[i as int]));
            if i == 0 {
                assert(out@ =~= ls[0]);
            } else {
                assert(out@ =~= before + "\n"@ + ls.last());
            }
        }
        i = i + 1;
    }
    proof {
        assert(shown.subrange(0, n as int) =~= shown);
    }
    out
}

/// The first eight scored tasks, one line each.
pub fn scored_lines(tasks: &[ScoredTask]) -> (s: String)
    ensures
        s@ == scored_listing(tasks@),
{
    let n: usize = if tasks.len() <= 8 {
        tasks.len()
    } else {
        8
    };
    let ghost shown = first_n(tasks@, 8);
    let mut out = String::new();
    let mut i: usize = 0;
    proof {
        assert(shown.subrange(0, 0).map_values(|t: ScoredTask| scored_line(t)) =~= Seq::<Seq<char>>::empty());
    }
    while i < n
        invariant
            n == shown.len(),
            shown == first_n(tasks@, 8),
            n <= tasks@.len(),
            forall|k: int| 0 <= k < n ==> shown[k] == tasks@[k],
            i <= n,
            out@ == join_lines(shown.subrange(0, i as int).map_values(|t: ScoredTask| scored_line(t))),
        decreases n - i,
    {
        let t = &tasks[i];
        let ghost before = out@;
        if i > 0 {
            push_str(&mut out, "\n");
        }
        push_task_line(
            &mut out,
            t.context.task.priority,
            t.urgency_score,
            t.context.task.status,
            t.context.project_name.as_str(),
            t.context.task.title.as_str(),
        );
        proof {
            let ls = shown.subrange(0, i as int + 1).map_values(|t: ScoredTask| scored_line(t));
            assert(ls.drop_last() =~= shown.subrange(0, i as int).map_values(|t: ScoredTask| scored_line(t)));
            assert(ls.last() == scored_line(tasks@[i as int]));
            if i == 0 {
                assert(out@ =~= ls[0]);
            } else {
                assert(out@ =~= before + "\n"@ + ls.last());
            }
        }
        i = i + 1;
    }
    proof {
        assert(shown.subrange(0, n as int) =~= shown);
    }
    out
}

/// The board as prompt context: the first eight tasks of the Now, Next up, Overdue,
/// Blocked/waiting and Due soon columns.
pub open spec fn board_context_text(b: BoardState) -> Seq<char> {
    "Board now:\n"@ + scored_listing(b.now@) + "\nNext up:\n"@ + scored_listing(b.next_up@)
        + "\nOverdue:\n"@ + scored_listing(b.overdue@) + "\nBlocked/waiting:\n"@ + scored_listing(
        b.waiting_blocked@,
    ) + "\nDue soon:\n"@ + scored_listing(b.due_soon@)
}

/// The board as prompt context.
pub fn board_context(board: &BoardState) -> (s: String)
    ensures
        s@ == board_context_text(*board),
{
    let mut s = to_string("Board now:\n");
    push_str(&mut s, scored_lines(board.now.as_slice()).as_str());
    push_str(&mut s, "\nNext up:\n");
    push_str(&mut s, scored_lines(board.next_up.as_slice()).as_str());
    push_str(&mut s, "\nOverdue:\n");
    push_str(&mut s, scored_lines(board.overdue.as_slice()).as_str());
    push_str(&mut s, "\nBlocked/waiting:\n");
    push_str(&mut s, scored_lines(board.waiting_blocked.as_slice()).as_str());
    push_str(&mut s, "\nDue soon:\n");
    push_str(&mut s, scored_lines(board.due_soon.as_slice()).as_str());
    s
}

/// The prompt asking for a plan of the day.
pub fn plan_day_prompt(board: &BoardState, schedule: &[TaskWithContext]) -> (s: String)
    ensures
        s@ == "Build a concise plan for today.\n\n"@ + board_context_text(*board) + "\nSchedule:\n"@
            + task_listing(schedule@),
{
    let mut s = to_string("Build a concise plan for today.\n\n");
    push_str(&mut s, board_context(board).as_str());
    push_str(&mut s, "\nSchedule:\n");
    push_str(&mut s, task_lines(schedule).as_str());
    s
}

/// The prompt asking for the next task to work on.
pub fn suggest_next_task_prompt(board: &BoardState, tasks: &[TaskWithContext]) -> (s: String)
    ensures
        s@ == "Choose the next single task and explain briefly.\n\n"@ + board_context_text(*board)
            + "\nCandidates:\n"@ + task_listing(tasks@),
{
    let mut s = to_string("Choose the next single task and explain briefly.\n\n");
    push_str(&mut s, board_context(board).as_str());
    push_str(&mut s, "\nCandidates:\n");
    push_str(&mut s, task_lines(tasks).as_str());
    s
}

/// The prompt asking to prioritize overdue, blocked, due-soon and unscheduled tasks.
pub fn triage_tasks_prompt(
    overdue: &[TaskWithContext],
    blocked: &[TaskWithContext],
    due_soon: &[TaskWithContext],
    unscheduled: &[TaskWithContext],
) -> (s: String)
    ensures
        s@ == "Prioritize this triage list. Keep it short.\nOverdue:\n"@ + task_listing(overdue@)
            + "\nBlocked:\n"@ + task_listing(blocked@) + "\nDue soon:\n"@ + task_listing(due_soon@)
            + "\nUnscheduled:\n"@ + task_listing(unscheduled@),
{
    let mut s = to_string("Prioritize this triage list. Keep it short.\nOverdue:\n");
    push_str(&mut s, task_lines(overdue).as_str());
    push_str(&mut s, "\nBlocked:\n");
    push_str(&mut s, task_lines(blocked).as_str());
    push_str(&mut s, "\nDue soon:\n");
    push_str(&mut s, task_lines(due_soon).as_str());
    push_str(&mut s, "\nUnscheduled:\n");
    push_str(&mut s, task_lines(unscheduled).as_str());
    s
}

/// The text of an optional string, empty when absent.
pub open spec fn or_empty(v: Option<String>) -> Seq<char> {
    match v {
        Some(s) => s@,
        None => Seq::empty(),
    }
}

/// A task's line in a project summary: `- P{priority} [{status}] {title}`, then `: {description}`
/// when it has one.
pub open spec fn summary_line(t: Task) -> Seq<char> {
    "- P"@ + int_text(t.priority as int) + " ["@ + t.status.text() + "] "@ + t.title@ + match t.description {
        Some(d) => ": "@ + d@,
        None => Seq::empty(),
    }
}

/// The prompt asking to summarize a project from its notes and tasks.
pub fn summarize_project_prompt(project: &Project, tasks: &[Task]) -> (s: String)
    ensures
        s@ == "Summarize this project with status, risks, and next actions.\nProject: "@ + project.name@
            + " ["@ + project.status.text() + " P"@ + int_text(project.priority as int)
            + "]\nNotes: "@ + or_empty(project.notes) + "\nTasks:\n"@ + join_lines(
            tasks@.map_values(|t: Task| summary_line(t)),
        ),
{
    let n = tasks.len();
    let mut lines = String::new();
    let mut i: usize = 0;
    proof {
        assert(tasks@.subrange(0, 0).map_values(|t: Task| summary_line(t)) =~= Seq::<Seq<char>>::empty());
    }
    while i < n
        invariant
            n == tasks@.len(),
            i <= n,
            lines@ == join_lines(tasks@.subrange(0, i as int).map_values(|t: Task| summary_line(t))),
        decreases n - i,
    {
        let t = &tasks[i];
        let ghost before = lines@;
        if i > 0 {
            push_str(&mut lines, "\n");
        }
        push_str(&mut lines, "- P");
        push_i64(&mut lines, t.priority as i64);
        push_str(&mut lines, " [");
        push_str(&mut lines, t.status.as_str());
        push_str(&mut lines, "] ");
        push_str(&mut lines, t.title.as_str());
        match &t.description {
            Some(d) => {
                push_str(&mut lines, ": ");
                push_str(&mut lines, d.as_str());
            },
            None => {},
        }
        proof {
            let ls = tasks@.subrange(0, i as int + 1).map_values(|t: Task| summary_line(t));
            assert(ls.drop_last() =~= tasks@.subrange(0, i as int).map_values(|t: Task| summary_line(t)));
            assert(ls.last() == summary_line(tasks@[i as int]));
            if i == 0 {
                assert(lines@ =~= ls[0]);
            } else {
                assert(lines@ =~= before + "\n"@ + ls.last());
            }
        }
        i = i + 1;
    }
    proof {
        assert(tasks@.subrange(0, n as int) =~= tasks@);
    }
    let mut s = to_string("Summarize this project with status, risks, and next actions.\nProject: ");
    push_str(&mut s, project.name.as_str());
    push_str(&mut s, " [");
    push_str(&mut s, project.status.as_str());
    push_str(&mut s, " P");
    push_i64(&mut s, project.priority as i64);
    push_str(&mut s, "]\nNotes: ");
    match &project.notes {
        Some(v) => push_str(&mut s, v.as_str()),
        None => {},
    }
    push_str(&mut s, "\nTasks:\n");
    push_str(&mut s, lines.as_str());
    s
}

/// The prompt asking to rewrite a task's description as instructed.
pub fn rewrite_task_prompt(task: &Task, instruction: &str) -> (s: String)
    ensures
        s@ == "Rewrite this"@ + " task description only. Return suggested text, not JSON.\nTask: "@
            + task.title@ + "\nCurrent description: "@ + or_empty(task.description)
            + "\nInstruction: "@ + instruction@,
{
    let mut s = to_string("Rewrite this");
    push_str(&mut s, " task description only. Return suggested text, not JSON.\nTask: ");
    push_str(&mut s, task.title.as_str());
    push_str(&mut s, "\nCurrent description: ");
    match &task.description {
        Some(d) => push_str(&mut s, d.as_str()),
        None => {},
    }
    push_str(&mut s, "\nInstruction: ");
    push_str(&mut s, instruction);
    s
}

} // verus!
