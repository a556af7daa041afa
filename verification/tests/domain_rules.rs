use chrono::{TimeZone, Utc};
use openmgmt::board::build_board;
use openmgmt::domain::{
    apply_organization_patch, apply_project_patch, apply_task_patch, changed, new_organization,
    new_project, new_task, require_name, seed_organizations, seed_project, seed_tasks, slugify,
    transition_task, validate_priority, MutationOrigin,
};
use openmgmt::error::CoreError;
use openmgmt::models::{
    NewOrganization, NewProject, NewTask, OrganizationPatch, ProjectPatch, ProjectStatus, ProjectType,
    TaskContext, TaskPatch, TaskStatus,
};
use openmgmt::time::NANOS_PER_HOUR;

fn noon() -> i64 {
    Utc.with_ymd_and_hms(2026, 6, 19, 12, 0, 0).unwrap().timestamp_nanos_opt().unwrap()
}

fn new_task_input(title: &str, status: TaskStatus, priority: i32) -> NewTask {
    NewTask {
        project_id: "project-1".into(),
        title: title.into(),
        description: None,
        status,
        priority,
        due_at: None,
        scheduled_at: None,
        estimated_minutes: None,
        time_limit_minutes: None,
        pinned: false,
        tags: Vec::new(),
    }
}

fn context(task: openmgmt::models::Task) -> TaskContext {
    TaskContext {
        task,
        project_name: "OpenMgmt".into(),
        project_type: ProjectType::Software,
        project_status: ProjectStatus::Active,
        project_priority: 1,
        organization_name: "Personal".into(),
        organization_color: None,
    }
}

#[test]
fn slugs_keep_letters_and_digits_and_collapse_the_rest() {
    assert_eq!(slugify("  Black Candle  "), "black-candle");
    assert_eq!(slugify("In the National Interest!"), "in-the-national-interest");
    assert_eq!(slugify("--Hello,   World--"), "hello-world");
    assert_eq!(slugify("***"), "");
    assert_eq!(slugify(&slugify("Q3 / Roadmap (draft)")), slugify("Q3 / Roadmap (draft)"));
}

#[test]
fn names_and_priorities_are_validated() {
    assert!(require_name("  ").is_err());
    assert!(require_name("x").is_ok());
    assert!(validate_priority(0).is_err());
    assert!(validate_priority(6).is_err());
    assert!(validate_priority(1).is_ok() && validate_priority(5).is_ok());
    assert!(matches!(changed(0, "task"), Err(CoreError::NotFound("task"))));
    assert!(changed(1, "task").is_ok());
    assert!(MutationOrigin::Local.logs_sync_event());
    assert!(!MutationOrigin::Remote.logs_sync_event());
    assert!(!MutationOrigin::Seed.logs_sync_event());
}

#[test]
fn creating_records_fills_ids_slugs_and_times() {
    let now = noon();
    let org = new_organization(
        NewOrganization { name: "Black Candle".into(), slug: None, description: None, color: None, icon: None },
        now,
    )
    .unwrap();
    assert_eq!(org.slug, "black-candle");
    assert_eq!(org.created_at, now);
    assert!(org.archived_at.is_none());
    assert!(!org.id.is_empty());

    let blank = new_organization(
        NewOrganization { name: " ".into(), slug: None, description: None, color: None, icon: None },
        now,
    );
    assert!(matches!(blank, Err(CoreError::Validation(m)) if m == "name cannot be empty"));

    let project = new_project(
        NewProject {
            organization_id: org.id.clone(),
            name: "OpenMgmt".into(),
            slug: Some("Open Mgmt".into()),
            description: None,
            project_type: ProjectType::Software,
            status: ProjectStatus::Active,
            priority: 2,
            deadline: None,
            repo_url: None,
            notes: None,
        },
        now,
    )
    .unwrap();
    assert_eq!(project.slug, "open-mgmt");
    assert_eq!(project.organization_id, org.id);

    assert!(new_task(new_task_input("Bad", TaskStatus::Ready, 9), now).is_err());
    let started = new_task(new_task_input("Go", TaskStatus::InProgress, 2), now).unwrap();
    assert_eq!(started.started_at, Some(now));
    let done = new_task(new_task_input("Done", TaskStatus::Done, 2), now).unwrap();
    assert_eq!(done.completed_at, None);
}

#[test]
fn organization_updates_are_persisted() {
    let now = noon();
    let org = new_organization(
        NewOrganization { name: "Personal".into(), slug: None, description: None, color: None, icon: None },
        now,
    )
    .unwrap();
    let updated = apply_organization_patch(
        org,
        OrganizationPatch {
            name: Some("Updated Organization".into()),
            description: Some(Some("Updated description".into())),
            color: Some(Some("#123456".into())),
            icon: Some(Some("UP".into())),
            ..Default::default()
        },
        now + NANOS_PER_HOUR,
    )
    .unwrap();
    assert_eq!(updated.name, "Updated Organization");
    assert_eq!(updated.description.as_deref(), Some("Updated description"));
    assert_eq!(updated.color.as_deref(), Some("#123456"));
    assert_eq!(updated.icon.as_deref(), Some("UP"));
    assert_eq!(updated.updated_at, now + NANOS_PER_HOUR);
}

#[test]
fn project_and_task_patches_validate_and_apply() {
    let now = noon();
    let project = new_project(seed_project("org-1".into()), now).unwrap();
    assert!(apply_project_patch(project.clone(), ProjectPatch { priority: Some(7), ..Default::default() }, now).is_err());
    let paused = apply_project_patch(project, ProjectPatch { status: Some(ProjectStatus::Paused), ..Default::default() }, now).unwrap();
    assert_eq!(paused.status, ProjectStatus::Paused);

    let task = new_task(new_task_input("Write", TaskStatus::Ready, 3), now).unwrap();
    assert!(apply_task_patch(task.clone(), TaskPatch { title: Some("  ".into()), ..Default::default() }, now).is_err());
    let patched = apply_task_patch(
        task,
        TaskPatch { priority: Some(1), pinned: Some(true), tags: Some(vec!["x".into()]), ..Default::default() },
        now,
    )
    .unwrap();
    assert_eq!(patched.priority, 1);
    assert!(patched.pinned);
    assert_eq!(patched.tags, vec!["x".to_string()]);
    assert_eq!(patched.title, "Write");
}

#[test]
fn start_task_persists_in_progress_and_started_at() {
    let now = noon();
    let task = new_task(new_task_input("Inbox item", TaskStatus::Inbox, 3), now).unwrap();
    let started = transition_task(task, TaskStatus::InProgress, None, now);
    assert_eq!(started.status, TaskStatus::InProgress);
    assert_eq!(started.started_at, Some(now));
    let board = build_board(vec![context(started.clone())], now);
    assert!(board.now.iter().any(|item| item.context.task.id == started.id));
    // A later start keeps the first start time.
    let again = transition_task(started, TaskStatus::InProgress, None, now + NANOS_PER_HOUR);
    assert_eq!(again.started_at, Some(now));
}

#[test]
fn complete_task_persists_and_appears_in_done_today() {
    let now = noon();
    let task = new_task(new_task_input("Inbox item", TaskStatus::Inbox, 3), now).unwrap();
    let done = transition_task(task, TaskStatus::Done, None, now);
    assert_eq!(done.status, TaskStatus::Done);
    assert_eq!(done.completed_at, Some(now));
    let board = build_board(vec![context(done.clone())], now);
    assert!(board.done_today.iter().any(|item| item.context.task.id == done.id));
}

#[test]
fn seeded_active_tasks_produce_a_non_empty_board() {
    let now = noon();
    let orgs = seed_organizations();
    assert_eq!(orgs.len(), 4);
    assert_eq!(orgs[3].slug.as_deref(), Some("personal"));
    let project = seed_project("org-personal".into());
    assert_eq!(project.name, "OpenMgmt");
    let mut contexts = Vec::new();
    for (input, reason) in seed_tasks("project-1".into(), now) {
        let mut task = new_task(input, now).unwrap();
        if let Some(reason) = reason {
            task = transition_task(task, TaskStatus::Blocked, Some(reason), now);
        }
        contexts.push(context(task));
    }
    assert_eq!(contexts.len(), 6);
    let board = build_board(contexts, now);
    let active_count = board.now.len()
        + board.next_up.len()
        + board.due_soon.len()
        + board.waiting_blocked.len()
        + board.later_today.len()
        + board.overdue.len();
    assert!(active_count > 0);
}

#[test]
fn slugging_a_slug_changes_nothing() {
    for value in ["  Hello, World!  ", "A--B__C", "Q3 2026 Roadmap", "***", "x"] {
        let slug = slugify(value);
        assert!(slug.chars().all(|c| c.is_ascii_lowercase() || c.is_ascii_digit() || c == '-'), "{slug}");
        assert!(!slug.contains("--") && !slug.starts_with('-') && !slug.ends_with('-'));
        assert_eq!(slugify(&slug), slug);
    }
    assert_eq!(slugify("  Hello, World!  "), "hello-world");
}

#[test]
fn new_records_get_hyphenated_ids() {
    let now = 0;
    let org = new_organization(
        openmgmt::models::NewOrganization {
            name: "Acme".into(),
            slug: None,
            description: None,
            color: None,
            icon: None,
        },
        now,
    )
    .unwrap();
    assert_eq!(org.id.len(), 36);
    assert_eq!(org.id.matches('-').count(), 4);
}
