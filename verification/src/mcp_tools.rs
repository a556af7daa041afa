//! The MCP tools' inputs: the filters of the listing tools, and the records the write tools
//! build from what a client sends.
use vstd::prelude::*;
use crate::bridge::TaskQueryFilter;
use crate::error::CoreError;
use crate::models::{
    NewProject, NewTask, Project, ProjectStatus, ProjectType, Task, TaskPatch, TaskSort, TaskSortField,
    TaskStatus,
};
use crate::text::{push_str, str_eq, to_string};
use crate::time::Timestamp;

verus! {

/// The projects a listing keeps: those of the organization asked for, or all.
pub open spec fn projects_in(s: Seq<Project>, organization_id: Option<Seq<char>>) -> Seq<Project>
    decreases s.len(),
{
    if s.len() == 0 {
        Seq::empty()
    } else {
        let rest = projects_in(s.drop_first(), organization_id);
        if organization_id matches Some(id) && s[0].organization_id@ != id {
            rest
        } else {
            seq![s[0]] + rest
        }
    }
}

/// Keep the projects of one organization, in order; all of them when none is named.
pub fn list_projects_of(projects: Vec<Project>, organization_id: Option<&str>) -> (r: Vec<Project>)
    ensures
        r@ == projects_in(
            projects@,
            match organization_id {
                Some(id) => Some(id@),
                None => None,
            },
        ),
{
    let ghost org = match organization_id {
        Some(id) => Some(id@),
        None => None,
    };
    let ghost all = projects@;
    let mut rest = projects;
    let mut out: Vec<Project> = Vec::new();
    proof {
        assert(out@ + projects_in(rest@, org) =~= projects_in(all, org));
    }
    while rest.len() > 0
        invariant
            out@ + projects_in(rest@, org) == projects_in(all, org),
            org == match organization_id {
                Some(id) => Some(id@),
                None => None,
            },
        decreases rest@.len(),
    {
        let ghost before = rest@;
        let p = rest.remove(0);
        assert(rest@ =~= before.drop_first());
        let keep = match organization_id {
            Some(id) => str_eq(p.organization_id.as_str(), id),
            None => true,
        };
        if keep {
            let ghost o = out@;
            out.push(p);
            assert(out@ + projects_in(rest@, org) =~= o + (seq![before[0]] + projects_in(rest@, org)));
        }
    }
    proof {
        assert(projects_in(rest@, org) =~= Seq::<Project>::empty());
        assert(out@ + Seq::<Project>::empty() =~= out@);
    }
    out
}

/// Whether a task passes a listing's filter: of the project asked for, and with the status
/// (text) asked for.
pub open spec fn task_listed(t: Task, project_id: Option<Seq<char>>, status: Option<Seq<char>>) -> bool {
    &&& (project_id matches Some(p) ==> t.project_id@ == p)
    &&& (status matches Some(st) ==> t.status.text() == st)
}

/// The tasks a listing keeps, in order.
pub open spec fn tasks_listed(s: Seq<Task>, project_id: Option<Seq<char>>, status: Option<Seq<char>>) -> Seq<Task>
    decreases s.len(),
{
    if s.len() == 0 {
        Seq::empty()
    } else {
        let rest = tasks_listed(s.drop_first(), project_id, status);
        if task_listed(s[0], project_id, status) {
            seq![s[0]] + rest
        } else {
            rest
        }
    }
}

/// Keep the tasks of a project and status, in order; each filter applies only when given.
pub fn list_tasks_matching(tasks: Vec<Task>, project_id: Option<&str>, status: Option<&str>) -> (r: Vec<Task>)
    ensures
        r@ == tasks_listed(
            tasks@,
            match project_id {
                Some(p) => Some(p@),
                None => None,
            },
            match status {
                Some(s) => Some(s@),
                None => None,
            },
        ),
{
    let ghost pid = match project_id {
        Some(p) => Some(p@),
        None => None,
    };
    let ghost st = match status {
        Some(s) => Some(s@),
        None => None,
    };
    let ghost all = tasks@;
    let mut rest = tasks;
    let mut out: Vec<Task> = Vec::new();
    proof {
        assert(out@ + tasks_listed(rest@, pid, st) =~= tasks_listed(all, pid, st));
    }
    while rest.len() > 0
        invariant
            out@ + tasks_listed(rest@, pid, st) == tasks_listed(all, pid, st),
            pid == match project_id {
                Some(p) => Some(p@),
                None => None,
            },
            st == match status {
                Some(s) => Some(s@),
                None => None,
            },
        decreases rest@.len(),
    {
        let ghost before = rest@;
        let t = rest.remove(0);
        assert(rest@ =~= before.drop_first());
        let project_ok = match project_id {
            Some(p) => str_eq(t.project_id.as_str(), p),
            None => true,
        };
        let status_ok = match status {
            Some(s) => str_eq(t.status.as_str(), s),
            None => true,
        };
        if project_ok && status_ok {
            let ghost o = out@;
            out.push(t);
            assert(out@ + tasks_listed(rest@, pid, st) =~= o + (seq![before[0]] + tasks_listed(rest@, pid, st)));
        }
    }
    proof {
        assert(tasks_listed(rest@, pid, st) =~= Seq::<Task>::empty());
        assert(out@ + Seq::<Task>::empty() =~= out@);
    }
    out
}

/// The input of the task query tool.
#[derive(Clone, Debug)]
pub struct QueryTasksInput {
    pub organization_id: Option<String>,
    pub project_id: Option<String>,
    pub status: Option<Vec<String>>,
    pub priority: Option<Vec<i32>>,
    pub due_from: Option<Timestamp>,
    pub due_to: Option<Timestamp>,
    pub scheduled_from: Option<Timestamp>,
    pub scheduled_to: Option<Timestamp>,
    pub pinned: Option<bool>,
    pub tags: Option<Vec<String>>,
    pub text: Option<String>,
    pub include_done: Option<bool>,
    pub include_canceled: Option<bool>,
    pub sort_field: Option<String>,
    pub sort_descending: Option<bool>,
}

/// `invalid TaskStatus: {value}`
pub open spec fn invalid_status_text(value: Seq<char>) -> Seq<char> {
    "invalid TaskStatus: "@ + value
}

/// `invalid TaskSortField: {value}`
pub open spec fn invalid_sort_field_text(value: Seq<char>) -> Seq<char> {
    "invalid TaskSortField: "@ + value
}

/// `invalid ProjectType: {value}`
pub open spec fn invalid_project_type_text(value: Seq<char>) -> Seq<char> {
    "invalid ProjectType: "@ + value
}

/// The first of the status texts that names no status, if any.
pub open spec fn first_bad_status(s: Seq<String>) -> Option<Seq<char>>
    decreases s.len(),
{
    if s.len() == 0 {
        None
    } else if TaskStatus::from_text(s[0]@) is None {
        Some(s[0]@)
    } else {
        first_bad_status(s.drop_first())
    }
}

/// Read status texts: their statuses in order, or the error naming the first that is none.
pub fn parse_statuses(values: &Vec<String>) -> (r: Result<Vec<TaskStatus>, String>)
    ensures
        match first_bad_status(values@) {
            Some(v) => r matches Err(m) && m@ == invalid_status_text(v),
            None => r matches Ok(list) && list@.len() == values@.len() && forall|k: int|
                0 <= k < list@.len() ==> TaskStatus::from_text(values@[k]@) == Some(#[trigger] list@[k]),
        },
{
    let mut out: Vec<TaskStatus> = Vec::new();
    let mut i: usize = 0;
    assert(values@.subrange(0, values@.len() as int) =~= values@);
    while i < values.len()
        invariant
            i <= values@.len(),
            out@.len() == i,
            forall|k: int| 0 <= k < i ==> TaskStatus::from_text(values@[k]@) == Some(#[trigger] out@[k]),
            first_bad_status(values@) == first_bad_status(values@.subrange(i as int, values@.len() as int)),
        decreases values@.len() - i,
    {
        let ghost tail = values@.subrange(i as int, values@.len() as int);
        assert(tail.drop_first() =~= values@.subrange(i as int + 1, values@.len() as int));
        assert(tail[0] == values@[i as int]);
        match TaskStatus::parse(values[i].as_str()) {
            Some(st) => out.push(st),
            None => {
                let mut m = to_string("invalid TaskStatus: ");
                push_str(&mut m, values[i].as_str());
                return Err(m);
            },
        }
        i = i + 1;
    }
    Ok(out)
}

/// The filter a task query runs with: the statuses read (none when none are given), and the
/// other fields as given.
pub fn query_filter(input: QueryTasksInput) -> (r: Result<TaskQueryFilter, String>)
    ensures
        match input.status {
            Some(v) => match first_bad_status(v@) {
                Some(bad) => r matches Err(m) && m@ == invalid_status_text(bad),
                None => r matches Ok(f) && (v@.len() == 0 ==> f.status is None) && (v@.len() > 0 ==> (
                f.status matches Some(list) && list@.len() == v@.len() && forall|k: int|
                    0 <= k < list@.len() ==> TaskStatus::from_text(v@[k]@) == Some(#[trigger] list@[k]))),
            },
            None => r matches Ok(f) && f.status is None,
        },
        r matches Ok(f) ==> {
            &&& f.organization_id == input.organization_id
            &&& f.project_id == input.project_id
            &&& f.priority == input.priority
            &&& f.due_from == input.due_from && f.due_to == input.due_to
            &&& f.scheduled_from == input.scheduled_from && f.scheduled_to == input.scheduled_to
            &&& f.pinned == input.pinned
            &&& f.tags == input.tags
            &&& f.text == input.text
            &&& f.include_done == input.include_done
            &&& f.include_canceled == input.include_canceled
        },
{
    let status = match &input.status {
        Some(v) => match parse_statuses(v) {
            Ok(list) => if list.len() == 0 {
                None
            } else {
                Some(list)
            },
            Err(m) => {
                return Err(m);
            },
        },
        None => None,
    };
    Ok(
        TaskQueryFilter {
            organization_id: input.organization_id,
            project_id: input.project_id,
            status,
            priority: input.priority,
            due_from: input.due_from,
            due_to: input.due_to,
            scheduled_from: input.scheduled_from,
            scheduled_to: input.scheduled_to,
            pinned: input.pinned,
            tags: input.tags,
            text: input.text,
            include_done: input.include_done,
            include_canceled: input.include_canceled,
        },
    )
}

/// The ordering a task query asks for: none without a sort field; a field that names no sort
/// field is an error; descending only when asked.
pub fn query_sort(sort_field: Option<&str>, sort_descending: Option<bool>) -> (r: Result<Option<TaskSort>, String>)
    ensures
        match sort_field {
            None => r == Ok::<Option<TaskSort>, String>(None),
            Some(f) => match TaskSortField::from_text(f@) {
                None => r matches Err(m) && m@ == invalid_sort_field_text(f@),
                Some(field) => r matches Ok(Some(s)) && s.field == field && s.descending == (
                sort_descending == Some(true)),
            },
        },
{
    match sort_field {
        None => Ok(None),
        Some(f) => match TaskSortField::parse(f) {
            Some(field) => Ok(
                Some(
                    TaskSort {
                        field,
                        descending: match sort_descending {
                            Some(d) => d,
                            None => false,
                        },
                    },
                ),
            ),
            None => {
                let mut m = to_string("invalid TaskSortField: ");
                push_str(&mut m, f);
                Err(m)
            },
        },
    }
}

/// The input of the task creation tool.
#[derive(Clone, Debug)]
pub struct CreateTaskInput {
    pub project_id: String,
    pub title: String,
    pub description: Option<String>,
    pub status: Option<String>,
    pub priority: Option<i32>,
    pub due_at: Option<Timestamp>,
    pub scheduled_at: Option<Timestamp>,
    pub estimated_minutes: Option<i32>,
    pub time_limit_minutes: Option<i32>,
    pub pinned: Option<bool>,
    pub tags: Option<Vec<String>>,
}

/// The task a creation tool call asks for: status `inbox`, priority 3, not pinned and no tags
/// unless given; a status text that names no status is refused.
pub fn new_task_from_input(input: CreateTaskInput) -> (r: Result<NewTask, CoreError>)
    ensures
        match input.status {
            Some(s) => TaskStatus::from_text(s@) is None ==> (r matches Err(CoreError::Validation(m))
                && m@ == invalid_status_text(s@)),
            None => true,
        },
        (match input.status {
            Some(s) => TaskStatus::from_text(s@) is Some,
            None => true,
        }) ==> (r matches Ok(t) && t.project_id == input.project_id && t.title == input.title
            && t.description == input.description && t.status == match input.status {
            Some(s) => TaskStatus::from_text(s@).unwrap(),
            None => TaskStatus::Inbox,
        } && t.priority == match input.priority {
            Some(p) => p,
            None => 3i32,
        } && t.due_at == input.due_at && t.scheduled_at == input.scheduled_at
            && t.estimated_minutes == input.estimated_minutes && t.time_limit_minutes
            == input.time_limit_minutes && t.pinned == (input.pinned == Some(true)) && t.tags@ == match input.tags {
            Some(v) => v@,
            None => Seq::empty(),
        }),
{
    let status = match &input.status {
        Some(s) => match TaskStatus::parse(s.as_str()) {
            Some(st) => st,
            None => {
                let mut m = to_string("invalid TaskStatus: ");
                push_str(&mut m, s.as_str());
                return Err(CoreError::Validation(m));
            },
        },
        None => TaskStatus::Inbox,
    };
    Ok(
        NewTask {
            project_id: input.project_id,
            title: input.title,
            description: input.description,
            status,
            priority: match input.priority {
                Some(p) => p,
                None => 3,
            },
            due_at: input.due_at,
            scheduled_at: input.scheduled_at,
            estimated_minutes: input.estimated_minutes,
            time_limit_minutes: input.time_limit_minutes,
            pinned: match input.pinned {
                Some(p) => p,
                None => false,
            },
            tags: match input.tags {
                Some(v) => v,
                None => Vec::new(),
            },
        },
    )
}

/// The input of the task update tool.
#[derive(Clone, Debug)]
pub struct UpdateTaskInput {
    pub id: String,
    pub title: Option<String>,
    pub description: Option<String>,
    pub status: Option<String>,
    pub priority: Option<i32>,
    pub due_at: Option<Timestamp>,
    pub scheduled_at: Option<Timestamp>,
    pub estimated_minutes: Option<i32>,
    pub time_limit_minutes: Option<i32>,
    pub pinned: Option<bool>,
    pub blocked_reason: Option<String>,
    pub tags: Option<Vec<String>>,
}

/// An optional value as a change that sets it: absent stays absent, present sets it.
pub open spec fn set_if_given<T>(v: Option<T>) -> Option<Option<T>> {
    match v {
        Some(x) => Some(Some(x)),
        None => None,
    }
}

/// The change an update tool call asks for: each given field is set; a status text that names
/// no status is refused.
pub fn task_patch_from_input(input: UpdateTaskInput) -> (r: Result<TaskPatch, String>)
    ensures
        match input.status {
            Some(s) => TaskStatus::from_text(s@) is None ==> (r matches Err(m) && m@ == invalid_status_text(s@)),
            None => true,
        },
        (match input.status {
            Some(s) => TaskStatus::from_text(s@) is Some,
            None => true,
        }) ==> (r matches Ok(p) && p.title == input.title && p.description == set_if_given(input.description)
            && p.status == match input.status {
            Some(s) => TaskStatus::from_text(s@),
            None => None,
        } && p.priority == input.priority && p.due_at == set_if_given(input.due_at) && p.scheduled_at
            == set_if_given(input.scheduled_at) && p.estimated_minutes == set_if_given(input.estimated_minutes)
            && p.time_limit_minutes == set_if_given(input.time_limit_minutes) && p.pinned == input.pinned
            && p.blocked_reason == set_if_given(input.blocked_reason) && p.tags == input.tags),
{
    let status = match &input.status {
        Some(s) => match TaskStatus::parse(s.as_str()) {
            Some(st) => Some(st),
            None => {
                let mut m = to_string("invalid TaskStatus: ");
                push_str(&mut m, s.as_str());
                return Err(m);
            },
        },
        None => None,
    };
    Ok(
        TaskPatch {
            title: input.title,
            description: match input.description {
                Some(d) => Some(Some(d)),
                None => None,
            },
            status,
            priority: input.priority,
            due_at: match input.due_at {
                Some(d) => Some(Some(d)),
                None => None,
            },
            scheduled_at: match input.scheduled_at {
                Some(d) => Some(Some(d)),
                None => None,
            },
            estimated_minutes: match input.estimated_minutes {
                Some(m) => Some(Some(m)),
                None => None,
            },
            time_limit_minutes: match input.time_limit_minutes {
                Some(m) => Some(Some(m)),
                None => None,
            },
            pinned: input.pinned,
            blocked_reason: match input.blocked_reason {
                Some(b) => Some(Some(b)),
                None => None,
            },
            tags: input.tags,
        },
    )
}

/// The input of the project creation tool.
#[derive(Clone, Debug)]
pub struct CreateProjectInput {
    pub organization_id: String,
    pub name: String,
    pub description: Option<String>,
    pub project_type: Option<String>,
    pub priority: Option<i32>,
    pub deadline: Option<Timestamp>,
    pub repo_url: Option<String>,
    pub notes: Option<String>,
}

/// The project a creation tool call asks for: type `other` and priority 3 unless given, active,
/// with a slug from its name; a type text that names no type is refused.
pub fn new_project_from_input(input: CreateProjectInput) -> (r: Result<NewProject, CoreError>)
    ensures
        match input.project_type {
            Some(s) => ProjectType::from_text(s@) is None ==> (r matches Err(CoreError::Validation(m))
                && m@ == invalid_project_type_text(s@)),
            None => true,
        },
        (match input.project_type {
            Some(s) => ProjectType::from_text(s@) is Some,
            None => true,
        }) ==> (r matches Ok(p) && p.organization_id == input.organization_id && p.name == input.name
            && p.slug is None && p.description == input.description && p.project_type == match input.project_type {
            Some(s) => ProjectType::from_text(s@).unwrap(),
            None => ProjectType::Other,
        } && p.status == ProjectStatus::Active && p.priority == match input.priority {
            Some(x) => x,
            None => 3i32,
        } && p.deadline == input.deadline && p.repo_url == input.repo_url && p.notes == input.notes),
{
    let project_type = match &input.project_type {
        Some(s) => match ProjectType::parse(s.as_str()) {
            Some(t) => t,
            None => {
                let mut m = to_string("invalid ProjectType: ");
                push_str(&mut m, s.as_str());
                return Err(CoreError::Validation(m));
            },
        },
        None => ProjectType::Other,
    };
    Ok(
        NewProject {
            organization_id: input.organization_id,
            name: input.name,
            slug: None,
            description: input.description,
            project_type,
            status: ProjectStatus::Active,
            priority: match input.priority {
                Some(x) => x,
                None => 3,
            },
            deadline: input.deadline,
            repo_url: input.repo_url,
            notes: input.notes,
        },
    )
}

} // verus!
