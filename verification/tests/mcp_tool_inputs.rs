use openmgmt::error::CoreError;
use openmgmt::mcp_tools::{
    list_projects_of, list_tasks_matching, new_project_from_input, new_task_from_input, parse_statuses,
    query_filter, query_sort, task_patch_from_input, CreateProjectInput, CreateTaskInput, QueryTasksInput,
    UpdateTaskInput,
};
use openmgmt::models::{Project, ProjectStatus, ProjectType, Task, TaskSortField, TaskStatus};

fn project(id: &str, org: &str) -> Project {
    Project {
        id: id.into(),
        organization_id: org.into(),
        name: id.into(),
        slug: id.into(),
        description: None,
        project_type: ProjectType::Other,
        status: ProjectStatus::Active,
        priority: 3,
        deadline: None,
        repo_url: None,
        notes: None,
        created_at: 0,
        updated_at: 0,
        archived_at: None,
    }
}

fn task(id: &str, project_id: &str, status: TaskStatus) -> Task {
    Task {
        id: id.into(),
        project_id: project_id.into(),
        title: id.into(),
        description: None,
        status,
        priority: 3,
        due_at: None,
        scheduled_at: None,
        scheduled_start_at: None,
        scheduled_end_at: None,
        deadline_at: None,
        reminder_at: None,
        recurrence_rule: None,
        recurrence_anchor_at: None,
        recurrence_timezone: None,
        calendar_block_id: None,
        started_at: None,
        completed_at: None,
        estimated_minutes: None,
        time_limit_minutes: None,
        pinned: false,
        blocked_reason: None,
        tags: Vec::new(),
        created_at: 0,
        updated_at: 0,
    }
}

fn query() -> QueryTasksInput {
    QueryTasksInput {
        organization_id: None,
        project_id: Some("p-1".into()),
        status: None,
        priority: Some(vec![1, 2]),
        due_from: Some(5),
        due_to: None,
        scheduled_from: None,
        scheduled_to: None,
        pinned: Some(true),
        tags: None,
        text: Some("brief".into()),
        include_done: Some(true),
        include_canceled: None,
        sort_field: None,
        sort_descending: None,
    }
}

#[test]
fn listing_tools_filter_projects_and_tasks() {
    let projects = vec![project("a", "org-1"), project("b", "org-2"), project("c", "org-1")];
    let kept = list_projects_of(projects.clone(), Some("org-1"));
    assert_eq!(kept.iter().map(|p| p.id.as_str()).collect::<Vec<_>>(), vec!["a", "c"]);
    assert_eq!(list_projects_of(projects, None).len(), 3);

    let tasks = vec![
        task("t1", "p-1", TaskStatus::Ready),
        task("t2", "p-2", TaskStatus::Ready),
        task("t3", "p-1", TaskStatus::Done),
    ];
    let ready = list_tasks_matching(tasks.clone(), Some("p-1"), Some("ready"));
    assert_eq!(ready.iter().map(|t| t.id.as_str()).collect::<Vec<_>>(), vec!["t1"]);
    assert_eq!(list_tasks_matching(tasks.clone(), None, Some("done")).len(), 1);
    assert_eq!(list_tasks_matching(tasks, None, None).len(), 3);
}

#[test]
fn query_inputs_become_filters_and_sorts() {
    let filter = query_filter(query()).unwrap();
    assert!(filter.status.is_none());
    assert_eq!(filter.project_id.as_deref(), Some("p-1"));
    assert_eq!(filter.priority, Some(vec![1, 2]));
    assert_eq!(filter.due_from, Some(5));
    assert_eq!(filter.include_done, Some(true));

    let mut with_status = query();
    with_status.status = Some(vec!["ready".into(), "blocked".into()]);
    assert_eq!(query_filter(with_status).unwrap().status, Some(vec![TaskStatus::Ready, TaskStatus::Blocked]));
    let mut empty_status = query();
    empty_status.status = Some(vec![]);
    assert!(query_filter(empty_status).unwrap().status.is_none());
    let mut bad = query();
    bad.status = Some(vec!["ready".into(), "later".into(), "nope".into()]);
    assert_eq!(query_filter(bad).unwrap_err(), "invalid TaskStatus: later");
    assert_eq!(parse_statuses(&vec!["done".to_string()]), Ok(vec![TaskStatus::Done]));

    assert!(query_sort(None, Some(true)).unwrap().is_none());
    let sort = query_sort(Some("due_at"), None).unwrap().unwrap();
    assert_eq!(sort.field, TaskSortField::DueAt);
    assert!(!sort.descending);
    assert!(query_sort(Some("priority"), Some(true)).unwrap().unwrap().descending);
    assert_eq!(query_sort(Some("size"), None).unwrap_err(), "invalid TaskSortField: size");
}

#[test]
fn write_tool_inputs_fill_their_defaults() {
    let input = CreateTaskInput {
        project_id: "p-1".into(),
        title: "Draft brief".into(),
        description: None,
        status: None,
        priority: None,
        due_at: None,
        scheduled_at: None,
        estimated_minutes: None,
        time_limit_minutes: None,
        pinned: None,
        tags: None,
    };
    let task = new_task_from_input(input.clone()).unwrap();
    assert_eq!(task.status, TaskStatus::Inbox);
    assert_eq!(task.priority, 3);
    assert!(!task.pinned);
    assert!(task.tags.is_empty());
    let mut bad = input;
    bad.status = Some("someday".into());
    assert!(matches!(new_task_from_input(bad), Err(CoreError::Validation(m)) if m == "invalid TaskStatus: someday"));

    let update = UpdateTaskInput {
        id: "t-1".into(),
        title: None,
        description: Some("new".into()),
        status: Some("blocked".into()),
        priority: Some(1),
        due_at: None,
        scheduled_at: None,
        estimated_minutes: None,
        time_limit_minutes: None,
        pinned: None,
        blocked_reason: Some("waiting on review".into()),
        tags: None,
    };
    let patch = task_patch_from_input(update.clone()).unwrap();
    assert_eq!(patch.description, Some(Some("new".to_string())));
    assert_eq!(patch.status, Some(TaskStatus::Blocked));
    assert_eq!(patch.blocked_reason, Some(Some("waiting on review".to_string())));
    assert_eq!(patch.due_at, None);
    let mut bad_update = update;
    bad_update.status = Some("x".into());
    assert_eq!(task_patch_from_input(bad_update).unwrap_err(), "invalid TaskStatus: x");

    let project_input = CreateProjectInput {
        organization_id: "org-1".into(),
        name: "Site".into(),
        description: None,
        project_type: None,
        priority: None,
        deadline: None,
        repo_url: None,
        notes: None,
    };
    let project = new_project_from_input(project_input.clone()).unwrap();
    assert_eq!(project.project_type, ProjectType::Other);
    assert_eq!(project.status, ProjectStatus::Active);
    assert_eq!(project.priority, 3);
    assert!(project.slug.is_none());
    let mut typed = project_input;
    typed.project_type = Some("research".into());
    assert_eq!(new_project_from_input(typed).unwrap().project_type, ProjectType::Research);
}
