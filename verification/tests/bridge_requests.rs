use openmgmt::bridge_requests::{
    block_reason, filter_projects, organization_from_request, project_from_request, request_summary,
    task_from_request, task_patch_from_request, CreateOrganizationRequest, CreateProjectRequest,
    CreateTaskRequest, UpdateTaskRequest,
};
use openmgmt::models::{Project, ProjectStatus, ProjectType, TaskStatus};

fn project(id: &str, org: &str, status: ProjectStatus, kind: ProjectType) -> Project {
    Project {
        id: id.into(),
        organization_id: org.into(),
        name: id.into(),
        slug: id.into(),
        description: None,
        project_type: kind,
        status,
        priority: 3,
        deadline: None,
        repo_url: None,
        notes: None,
        created_at: 0,
        updated_at: 0,
        archived_at: None,
    }
}

#[test]
fn create_organization_requires_a_name_and_cleans_fields() {
    let request = CreateOrganizationRequest {
        name: "  Acme  ".into(),
        slug: Some("  ".into()),
        description: Some(" Makers ".into()),
        color: None,
        icon: Some("AC".into()),
    };
    let org = organization_from_request(request.clone()).unwrap();
    assert_eq!(org.name, "Acme");
    assert_eq!(org.slug, None);
    assert_eq!(org.description.as_deref(), Some("Makers"));
    assert_eq!(org.icon.as_deref(), Some("AC"));
    let mut blank = request;
    blank.name = "   ".into();
    assert_eq!(organization_from_request(blank).unwrap_err().message(), "invalid request: name is required");
}

#[test]
fn create_project_requires_name_and_organization() {
    let request = CreateProjectRequest {
        organization_id: " org-1 ".into(),
        name: "Site".into(),
        slug: None,
        description: None,
        project_type: None,
        status: None,
        priority: None,
        deadline: Some(9),
        repo_url: Some("  ".into()),
        notes: Some("n".into()),
    };
    let p = project_from_request(request.clone()).unwrap();
    assert_eq!(p.organization_id, "org-1");
    assert_eq!(p.project_type, ProjectType::Other);
    assert_eq!(p.status, ProjectStatus::Active);
    assert_eq!(p.priority, 3);
    assert_eq!(p.deadline, Some(9));
    assert_eq!(p.repo_url, None);
    let mut no_org = request.clone();
    no_org.organization_id = " ".into();
    assert_eq!(project_from_request(no_org).unwrap_err().status_code(), 400);
    let mut no_name = request;
    no_name.name = String::new();
    assert_eq!(project_from_request(no_name).unwrap_err().message(), "invalid request: name is required");
}

#[test]
fn create_task_requires_a_title_and_fills_defaults() {
    let request = CreateTaskRequest {
        project_id: "p-1".into(),
        title: " P1 work ".into(),
        description: Some(" ".into()),
        status: None,
        priority: Some(1),
        due_at: None,
        scheduled_at: None,
        estimated_minutes: None,
        time_limit_minutes: None,
        pinned: None,
        tags: None,
    };
    let task = task_from_request(request.clone()).unwrap();
    assert_eq!(task.title, "P1 work");
    assert_eq!(task.description, None);
    assert_eq!(task.status, TaskStatus::Inbox);
    assert_eq!(task.priority, 1);
    assert!(!task.pinned);
    let mut blank = request;
    blank.title = "\t".into();
    assert_eq!(task_from_request(blank).unwrap_err().message(), "invalid request: title is required");
}

#[test]
fn task_updates_trim_and_clear_blank_texts() {
    let patch = task_patch_from_request(UpdateTaskRequest {
        title: Some(" New title ".into()),
        description: Some("   ".into()),
        status: Some(TaskStatus::Ready),
        priority: None,
        due_at: Some(5),
        scheduled_at: None,
        estimated_minutes: Some(30),
        time_limit_minutes: None,
        pinned: Some(true),
        blocked_reason: Some(" waiting ".into()),
        tags: None,
    });
    assert_eq!(patch.title.as_deref(), Some("New title"));
    assert_eq!(patch.description, Some(None));
    assert_eq!(patch.blocked_reason, Some(Some("waiting".to_string())));
    assert_eq!(patch.due_at, Some(Some(5)));
    assert_eq!(patch.estimated_minutes, Some(Some(30)));
    assert_eq!(patch.scheduled_at, None);
    assert_eq!(block_reason(" needs input ").unwrap(), "needs input");
    assert_eq!(block_reason("  ").unwrap_err().message(), "invalid request: reason is required");
    assert_eq!(request_summary("title", "  Draft brief "), "title=Draft brief");
}

#[test]
fn project_listing_filters_by_organization_status_and_type() {
    let projects = vec![
        project("a", "org-1", ProjectStatus::Active, ProjectType::Software),
        project("b", "org-1", ProjectStatus::Paused, ProjectType::Software),
        project("c", "org-2", ProjectStatus::Active, ProjectType::Writing),
    ];
    let ids = |list: Vec<Project>| list.into_iter().map(|p| p.id).collect::<Vec<_>>();
    assert_eq!(ids(filter_projects(projects.clone(), Some("org-1"), None, None)), vec!["a", "b"]);
    assert_eq!(ids(filter_projects(projects.clone(), None, Some(ProjectStatus::Active), None)), vec!["a", "c"]);
    assert_eq!(ids(filter_projects(projects.clone(), None, None, Some(ProjectType::Writing))), vec!["c"]);
    assert_eq!(ids(filter_projects(projects, None, None, None)).len(), 3);
}
