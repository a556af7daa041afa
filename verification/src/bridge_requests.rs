//! The GPT Actions bridge's requests: the records its write endpoints build from a request
//! body, the fields each requires, and the project listing's filters.
use vstd::prelude::*;
use crate::bridge::{cleaned, clean_optional, is_summary, summarize_text, summary_cut_ok, BridgeError};
use crate::models::{
    NewOrganization, NewProject, NewTask, Project, ProjectStatus, ProjectType, TaskPatch, TaskStatus,
};
use crate::text::{push_str, str_eq, to_string, trim, trim_spec};
use crate::time::Timestamp;

verus! {

/// `r` is `BadRequest(message)`.
pub open spec fn bad_request(r: BridgeError, message: Seq<char>) -> bool {
    r matches BridgeError::BadRequest(m) && m@ == message
}

/// A request summary: `{label}={summary of value}`.
pub fn request_summary(label: &str, value: &str) -> (s: String)
    requires
        summary_cut_ok(value@),
    ensures
        exists|t: Seq<char>| #[trigger] is_summary(value@, t) && s@ == label@ + "="@ + t,
{
    let mut s = to_string(label);
    push_str(&mut s, "=");
    let t = summarize_text(value);
    push_str(&mut s, t.as_str());
    s
}

/// A body of the organization creation endpoint.
#[derive(Clone, Debug)]
pub struct CreateOrganizationRequest {
    pub name: String,
    pub slug: Option<String>,
    pub description: Option<String>,
    pub color: Option<String>,
    pub icon: Option<String>,
}

/// The organization a request asks for: its name is required and trimmed; the other texts are
/// cleaned.
pub fn organization_from_request(request: CreateOrganizationRequest) -> (r: Result<NewOrganization, BridgeError>)
    ensures
        trim_spec(request.name@).len() == 0 ==> (r matches Err(e) && bad_request(e, "name is required"@)),
        trim_spec(request.name@).len() > 0 ==> (r matches Ok(o) && o.name@ == trim_spec(request.name@)
            && cleaned(o.slug, request.slug) && cleaned(o.description, request.description) && cleaned(
            o.color,
            request.color,
        ) && cleaned(o.icon, request.icon)),
{
    let name = trim(request.name.as_str());
    if name.unicode_len() == 0 {
        return Err(BridgeError::BadRequest(to_string("name is required")));
    }
    Ok(
        NewOrganization {
            name: to_string(name),
            slug: clean_optional(request.slug),
            description: clean_optional(request.description),
            color: clean_optional(request.color),
            icon: clean_optional(request.icon),
        },
    )
}

/// A body of the project creation endpoint.
#[derive(Clone, Debug)]
pub struct CreateProjectRequest {
    pub organization_id: String,
    pub name: String,
    pub slug: Option<String>,
    pub description: Option<String>,
    pub project_type: Option<ProjectType>,
    pub status: Option<ProjectStatus>,
    pub priority: Option<i32>,
    pub deadline: Option<Timestamp>,
    pub repo_url: Option<String>,
    pub notes: Option<String>,
}

/// The project a request asks for: name and organization are required and trimmed; type
/// `other`, status `active` and priority 3 unless given; the other texts are cleaned.
pub fn project_from_request(request: CreateProjectRequest) -> (r: Result<NewProject, BridgeError>)
    ensures
        trim_spec(request.name@).len() == 0 ==> (r matches Err(e) && bad_request(e, "name is required"@)),
        trim_spec(request.name@).len() > 0 && trim_spec(request.organization_id@).len() == 0 ==> (r matches Err(e)
            && bad_request(e, "organization_id is required"@)),
        trim_spec(request.name@).len() > 0 && trim_spec(request.organization_id@).len() > 0 ==> (r matches Ok(p)
            && p.organization_id@ == trim_spec(request.organization_id@) && p.name@ == trim_spec(request.name@)
            && cleaned(p.slug, request.slug) && cleaned(p.description, request.description)
            && p.project_type == match request.project_type {
            Some(t) => t,
            None => ProjectType::Other,
        } && p.status == match request.status {
            Some(s) => s,
            None => ProjectStatus::Active,
        } && p.priority == match request.priority {
            Some(x) => x,
            None => 3i32,
        } && p.deadline == request.deadline && cleaned(p.repo_url, request.repo_url) && cleaned(
            p.notes,
            request.notes,
        )),
{
    let name = trim(request.name.as_str());
    if name.unicode_len() == 0 {
        return Err(BridgeError::BadRequest(to_string("name is required")));
    }
    let organization_id = trim(request.organization_id.as_str());
    if organization_id.unicode_len() == 0 {
        return Err(BridgeError::BadRequest(to_string("organization_id is required")));
    }
    Ok(
        NewProject {
            organization_id: to_string(organization_id),
            name: to_string(name),
            slug: clean_optional(request.slug),
            description: clean_optional(request.description),
            project_type: match request.project_type {
                Some(t) => t,
                None => ProjectType::Other,
            },
            status: match request.status {
                Some(s) => s,
                None => ProjectStatus::Active,
            },
            priority: match request.priority {
                Some(x) => x,
                None => 3,
            },
            deadline: request.deadline,
            repo_url: clean_optional(request.repo_url),
            notes: clean_optional(request.notes),
        },
    )
}

/// A body of the task creation endpoint.
#[derive(Clone, Debug)]
pub struct CreateTaskRequest {
    pub project_id: String,
    pub title: String,
    pub description: Option<String>,
    pub status: Option<TaskStatus>,
    pub priority: Option<i32>,
    pub due_at: Option<Timestamp>,
    pub scheduled_at: Option<Timestamp>,
    pub estimated_minutes: Option<i32>,
    pub time_limit_minutes: Option<i32>,
    pub pinned: Option<bool>,
    pub tags: Option<Vec<String>>,
}

/// The task a request asks for: its title is required and trimmed; status `inbox`, priority
/// 3, not pinned and no tags unless given; the description is cleaned.
pub fn task_from_request(request: CreateTaskRequest) -> (r: Result<NewTask, BridgeError>)
    ensures
        trim_spec(request.title@).len() == 0 ==> (r matches Err(e) && bad_request(e, "title is required"@)),
        trim_spec(request.title@).len() > 0 ==> (r matches Ok(t) && t.project_id == request.project_id
            && t.title@ == trim_spec(request.title@) && cleaned(t.description, request.description)
            && t.status == match request.status {
            Some(s) => s,
            None => TaskStatus::Inbox,
        } && t.priority == match request.priority {
            Some(x) => x,
            None => 3i32,
        } && t.due_at == request.due_at && t.scheduled_at == request.scheduled_at && t.estimated_minutes
            == request.estimated_minutes && t.time_limit_minutes == request.time_limit_minutes && t.pinned == (
        request.pinned == Some(true)) && t.tags@ == match request.tags {
            Some(v) => v@,
            None => Seq::empty(),
        }),
{
    let title = trim(request.title.as_str());
    if title.unicode_len() == 0 {
        return Err(BridgeError::BadRequest(to_string("title is required")));
    }
    Ok(
        NewTask {
            project_id: request.project_id,
            title: to_string(title),
            description: clean_optional(request.description),
            status: match request.status {
                Some(s) => s,
                None => TaskStatus::Inbox,
            },
            priority: match request.priority {
                Some(x) => x,
                None => 3,
            },
            due_at: request.due_at,
            scheduled_at: request.scheduled_at,
            estimated_minutes: request.estimated_minutes,
            time_limit_minutes: request.time_limit_minutes,
            pinned: match request.pinned {
                Some(p) => p,
                None => false,
            },
            tags: match request.tags {
                Some(v) => v,
                None => Vec::new(),
            },
        },
    )
}

/// A body of the task update endpoint.
#[derive(Clone, Debug)]
pub struct UpdateTaskRequest {
    pub title: Option<String>,
    pub description: Option<String>,
    pub status: Option<TaskStatus>,
    pub priority: Option<i32>,
    pub due_at: Option<Timestamp>,
    pub scheduled_at: Option<Timestamp>,
    pub estimated_minutes: Option<i32>,
    pub time_limit_minutes: Option<i32>,
    pub pinned: Option<bool>,
    pub blocked_reason: Option<String>,
    pub tags: Option<Vec<String>>,
}

/// Whether `out` is the change that sets a cleaned text when one is given.
pub open spec fn cleaned_change(out: Option<Option<String>>, input: Option<String>) -> bool {
    match input {
        None => out is None,
        Some(v) => out matches Some(c) && cleaned(c, Some(v)),
    }
}

/// The change a request asks for: the title is trimmed, description and blocked reason are
/// cleaned (a blank one clears the field), and the other given fields are set.
pub fn task_patch_from_request(request: UpdateTaskRequest) -> (p: TaskPatch)
    ensures
        match request.title {
            Some(t) => p.title matches Some(x) && x@ == trim_spec(t@),
            None => p.title is None,
        },
        cleaned_change(p.description, request.description),
        cleaned_change(p.blocked_reason, request.blocked_reason),
        p.status == request.status,
        p.priority == request.priority,
        p.due_at == match request.due_at {
            Some(d) => Some(Some(d)),
            None => None::<Option<Timestamp>>,
        },
        p.scheduled_at == match request.scheduled_at {
            Some(d) => Some(Some(d)),
            None => None::<Option<Timestamp>>,
        },
        p.estimated_minutes == match request.estimated_minutes {
            Some(m) => Some(Some(m)),
            None => None::<Option<i32>>,
        },
        p.time_limit_minutes == match request.time_limit_minutes {
            Some(m) => Some(Some(m)),
            None => None::<Option<i32>>,
        },
        p.pinned == request.pinned,
        p.tags == request.tags,
{
    TaskPatch {
        title: match &request.title {
            Some(t) => Some(to_string(trim(t.as_str()))),
            None => None,
        },
        description: match request.description {
            Some(d) => Some(clean_optional(Some(d))),
            None => None,
        },
        status: request.status,
        priority: request.priority,
        due_at: match request.due_at {
            Some(d) => Some(Some(d)),
            None => None,
        },
        scheduled_at: match request.scheduled_at {
            Some(d) => Some(Some(d)),
            None => None,
        },
        estimated_minutes: match request.estimated_minutes {
            Some(m) => Some(Some(m)),
            None => None,
        },
        time_limit_minutes: match request.time_limit_minutes {
            Some(m) => Some(Some(m)),
            None => None,
        },
        pinned: request.pinned,
        blocked_reason: match request.blocked_reason {
            Some(b) => Some(clean_optional(Some(b))),
            None => None,
        },
        tags: request.tags,
    }
}

/// The reason of a block request: required, and trimmed.
pub fn block_reason(reason: &str) -> (r: Result<String, BridgeError>)
    ensures
        trim_spec(reason@).len() == 0 ==> (r matches Err(e) && bad_request(e, "reason is required"@)),
        trim_spec(reason@).len() > 0 ==> (r matches Ok(s) && s@ == trim_spec(reason@)),
{
    let t = trim(reason);
    if t.unicode_len() == 0 {
        return Err(BridgeError::BadRequest(to_string("reason is required")));
    }
    Ok(to_string(t))
}

/// Whether a project passes the listing's filters: organization, status and type, each only
/// when given.
pub open spec fn project_listed(
    p: Project,
    organization_id: Option<Seq<char>>,
    status: Option<ProjectStatus>,
    project_type: Option<ProjectType>,
) -> bool {
    &&& (organization_id matches Some(id) ==> p.organization_id@ == id)
    &&& (status matches Some(s) ==> p.status == s)
    &&& (project_type matches Some(t) ==> p.project_type == t)
}

/// The projects the listing keeps, in order.
pub open spec fn projects_listed(
    s: Seq<Project>,
    organization_id: Option<Seq<char>>,
    status: Option<ProjectStatus>,
    project_type: Option<ProjectType>,
) -> Seq<Project>
    decreases s.len(),
{
    if s.len() == 0 {
        Seq::empty()
    } else {
        let rest = projects_listed(s.drop_first(), organization_id, status, project_type);
        if project_listed(s[0], organization_id, status, project_type) {
            seq![s[0]] + rest
        } else {
            rest
        }
    }
}

/// Keep the projects the listing's query asks for, in order.
pub fn filter_projects(
    projects: Vec<Project>,
    organization_id: Option<&str>,
    status: Option<ProjectStatus>,
    project_type: Option<ProjectType>,
) -> (r: Vec<Project>)
    ensures
        r@ == projects_listed(
            projects@,
            match organization_id {
                Some(id) => Some(id@),
                None => None,
            },
            status,
            project_type,
        ),
{
    let ghost org = match organization_id {
        Some(id) => Some(id@),
        None => None,
    };
    let ghost all = projects@;
    let mut rest = projects;
    let mut out: Vec<Project> = Vec::new();
    proof {
        assert(out@ + projects_listed(rest@, org, status, project_type) =~= projects_listed(
            all,
            org,
            status,
            project_type,
        ));
    }
    while rest.len() > 0
        invariant
            out@ + projects_listed(rest@, org, status, project_type) == projects_listed(all, org, status, project_type),
            org == match organization_id {
                Some(id) => Some(id@),
                None => None,
            },
        decreases rest@.len(),
    {
        let ghost before = rest@;
        let p = rest.remove(0);
        assert(rest@ =~= before.drop_first());
        let org_ok = match organization_id {
            Some(id) => str_eq(p.organization_id.as_str(), id),
            None => true,
        };
        let status_ok = match status {
            Some(s) => p.status == s,
            None => true,
        };
        let type_ok = match project_type {
            Some(t) => p.project_type == t,
            None => true,
        };
        if org_ok && status_ok && type_ok {
            let ghost o = out@;
            out.push(p);
            assert(out@ + projects_listed(rest@, org, status, project_type) =~= o + (seq![before[0]]
                + projects_listed(rest@, org, status, project_type)));
        }
    }
    proof {
        assert(projects_listed(rest@, org, status, project_type) =~= Seq::<Project>::empty());
        assert(out@ + Seq::<Project>::empty() =~= out@);
    }
    out
}

} // verus!
