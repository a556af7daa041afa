use chrono::{TimeZone, Utc};
use openmgmt::board::build_board;
use openmgmt::bridge::{
    action_name_suffix, board_summary, bridge_today_plan, check_api_token, clean_optional,
    constant_time_eq, env_bool, query_limit, require_auth, require_write, summarize_text, task_filter,
    transition_path, workspace_summary, BridgeError, TaskQuery, WriteMeta, MAX_TASK_LIMIT,
};
use openmgmt::error::CoreError;
use openmgmt::models::{ProjectStatus, ProjectType, Task, TaskContext, TaskStatus, TaskWithContext};
use openmgmt::review::{plan_today, suggest_next_task, summarize_project, triage_backlog};
use openmgmt::time::{NANOS_PER_DAY, NANOS_PER_HOUR};

fn noon() -> i64 {
    Utc.with_ymd_and_hms(2026, 6, 19, 12, 0, 0).unwrap().timestamp_nanos_opt().unwrap()
}

fn task(id: &str, status: TaskStatus, priority: i32, now: i64) -> Task {
    Task {
        id: id.into(),
        project_id: "project-1".into(),
        title: id.into(),
        description: None,
        status,
        priority,
        due_at: None,
        scheduled_at: None,
        scheduled_start_at: None,
        scheduled_end_at: None,
        deadline_at: None,
        reminder_at: None,
        recurrence_rule: None,
        recurrence_anchor_at: None,
        recurrence_timezone: None,
        calendar_block_id: None,
        started_at: None,
        completed_at: None,
        estimated_minutes: None,
        time_limit_minutes: None,
        pinned: false,
        blocked_reason: None,
        tags: Vec::new(),
        created_at: now,
        updated_at: now,
    }
}

fn with_context(task: Task) -> TaskWithContext {
    TaskWithContext {
        task,
        project_id: "project-1".into(),
        project_name: "OpenMgmt".into(),
        project_type: ProjectType::Software,
        organization_id: "org-1".into(),
        organization_name: "Personal".into(),
        organization_color: None,
        organization_icon: None,
        urgency_score: 0,
        active_timer: None,
    }
}

fn context(task: Task) -> TaskContext {
    TaskContext {
        task,
        project_name: "OpenMgmt".into(),
        project_type: ProjectType::Software,
        project_status: ProjectStatus::Active,
        project_priority: 3,
        organization_name: "Personal".into(),
        organization_color: None,
    }
}

fn empty_query() -> TaskQuery {
    TaskQuery {
        organization_id: None,
        project_id: None,
        status: None,
        priority: None,
        tag: None,
        text: None,
        due_before: None,
        due_after: None,
        scheduled_before: None,
        scheduled_after: None,
        pinned: None,
        blocked: None,
        limit: None,
    }
}

fn meta() -> WriteMeta {
    WriteMeta::new("create_task", "task", None, "POST", "/api/openmgmt/tasks".into())
}

#[test]
fn missing_bearer_token_returns_401() {
    let error = require_auth(None, "secret").unwrap_err();
    assert_eq!(error.status_code(), 401);
    assert_eq!(error.message(), "missing or invalid bearer token");
}

#[test]
fn invalid_bearer_token_returns_401() {
    assert!(require_auth(Some("Bearer wrong"), "secret").is_err());
    assert!(require_auth(Some("bearer secret"), "secret").is_err());
    assert!(require_auth(Some("Bearer secret"), "secret").is_ok());
    assert!(constant_time_eq(b"abc", b"abc"));
    assert!(!constant_time_eq(b"abc", b"abd"));
    assert!(!constant_time_eq(b"abc", b"ab"));
}

#[test]
fn writes_return_403_when_disabled() {
    match require_write(Some("Bearer secret"), "secret", false, &meta()) {
        Err((error, log)) => {
            assert_eq!(error.status_code(), 403);
            assert!(!log.success);
            assert_eq!(log.error_message.as_deref(), Some("write mode disabled"));
            assert_eq!(log.action, "create_task");
        }
        Ok(()) => panic!("writes must be refused"),
    }
    match require_write(None, "secret", true, &meta()) {
        Err((error, log)) => {
            assert_eq!(error.status_code(), 401);
            assert_eq!(log.error_message.as_deref(), Some("unauthorized"));
        }
        Ok(()) => panic!("unauthenticated writes must be refused"),
    }
    assert!(require_write(Some("Bearer secret"), "secret", true, &meta()).is_ok());
}

#[test]
fn write_logs_carry_the_request() {
    let m = meta().summary("Draft brief".into()).resource_id("task-9".into());
    let ok = m.success();
    assert!(ok.success);
    assert_eq!(ok.resource_id.as_deref(), Some("task-9"));
    assert_eq!(ok.request_summary, "Draft brief");
    let failed = m.failure("boom");
    assert!(!failed.success);
    assert_eq!(failed.error_message.as_deref(), Some("boom"));
    assert_eq!(failed.method, "POST");
}

#[test]
fn create_task_with_invalid_priority_returns_400() {
    let error = BridgeError::Core(CoreError::Validation("priority must be between 1 and 5".into()));
    assert_eq!(error.status_code(), 400);
    assert_eq!(BridgeError::Core(CoreError::NotFound("project")).status_code(), 404);
    assert_eq!(BridgeError::BadRequest("x".into()).message(), "invalid request: x");
    assert_eq!(BridgeError::WriteDisabled.message(), "GPT write mode is disabled");
}

#[test]
fn bridge_settings_are_read_like_the_environment() {
    assert_eq!(check_api_token(None), Err("OPENMGMT_GPT_API_TOKEN is required".to_string()));
    assert_eq!(check_api_token(Some("  ")), Err("OPENMGMT_GPT_API_TOKEN cannot be empty".to_string()));
    assert_eq!(check_api_token(Some("tok")), Ok("tok".to_string()));
    for on in ["1", "true", " YES ", "On"] {
        assert!(env_bool(Some(on), false), "{on}");
    }
    assert!(!env_bool(Some("off"), true));
    assert!(env_bool(None, true));
    assert_eq!(clean_optional(Some("  x ".into())).as_deref(), Some("x"));
    assert_eq!(clean_optional(Some("   ".into())), None);
}

#[test]
fn request_helpers_shape_paths_limits_and_summaries() {
    assert_eq!(action_name_suffix("complete_task"), "complete");
    assert_eq!(action_name_suffix("archive"), "archive");
    assert_eq!(transition_path("t-1", "start_task"), "/api/openmgmt/tasks/t-1/start");
    assert_eq!(query_limit(None), MAX_TASK_LIMIT);
    assert_eq!(query_limit(Some(0)), 1);
    assert_eq!(query_limit(Some(50)), 50);
    assert_eq!(query_limit(Some(5000)), MAX_TASK_LIMIT);
    assert_eq!(summarize_text("  short  "), "short");
    let long = "a".repeat(100);
    assert_eq!(summarize_text(&long), format!("{}...", "a".repeat(80)));
}

#[test]
fn task_filters_follow_the_query() {
    let filter = task_filter(&empty_query()).unwrap();
    assert!(filter.status.is_none());
    assert_eq!(filter.include_done, Some(false));
    assert_eq!(filter.include_canceled, Some(false));

    let mut blocked = empty_query();
    blocked.blocked = Some(true);
    assert_eq!(task_filter(&blocked).unwrap().status, Some(vec![TaskStatus::Blocked, TaskStatus::Waiting]));

    let mut open = empty_query();
    open.blocked = Some(false);
    let filter = task_filter(&open).unwrap();
    assert_eq!(filter.status.as_ref().map(|s| s.len()), Some(6));
    assert_eq!(filter.include_done, Some(true));

    let mut named = empty_query();
    named.status = Some("canceled".into());
    named.tag = Some(" urgent ".into());
    named.text = Some("   ".into());
    named.priority = Some(2);
    let filter = task_filter(&named).unwrap();
    assert_eq!(filter.status, Some(vec![TaskStatus::Canceled]));
    assert_eq!(filter.include_canceled, Some(true));
    assert_eq!(filter.tags, Some(vec!["urgent".to_string()]));
    assert_eq!(filter.text, None);
    assert_eq!(filter.priority, Some(vec![2]));

    let mut bad = empty_query();
    bad.status = Some("someday".into());
    match task_filter(&bad) {
        Err(error) => assert_eq!(error.message(), "invalid request: invalid status: invalid TaskStatus: someday"),
        Ok(_) => panic!("an unknown status must be refused"),
    }
}

#[test]
fn empty_db_summary_and_board_are_zero_or_empty() {
    let now = noon();
    let board = build_board(Vec::new(), now);
    let summary = workspace_summary(0, 0, &[], &board, now);
    assert_eq!(summary.open_task_count, 0);
    assert_eq!(summary.board.now, 0);
    assert_eq!(board_summary(&board).done_today, 0);
}

#[test]
fn workspace_summary_counts_open_blocked_and_overdue_work() {
    let now = noon();
    let mut overdue = task("late", TaskStatus::Ready, 3, now);
    overdue.due_at = Some(now - NANOS_PER_HOUR);
    let tasks = vec![
        with_context(overdue),
        with_context(task("stuck", TaskStatus::Blocked, 3, now)),
        with_context(task("doing", TaskStatus::InProgress, 3, now)),
        with_context(task("done", TaskStatus::Done, 3, now)),
    ];
    let board = build_board(Vec::new(), now);
    let summary = workspace_summary(2, 3, &tasks, &board, now);
    assert_eq!(summary.organization_count, 2);
    assert_eq!(summary.project_count, 3);
    assert_eq!(summary.open_task_count, 3);
    assert_eq!(summary.blocked_task_count, 1);
    assert_eq!(summary.overdue_task_count, 1);
    assert_eq!(summary.in_progress_task_count, 1);
}

#[test]
fn today_recommends_p1_above_p5() {
    let now = noon();
    let board = build_board(
        vec![context(task("P5 work", TaskStatus::Ready, 5, now)), context(task("P1 work", TaskStatus::Ready, 1, now))],
        now,
    );
    let by_urgency = vec![with_context(task("P1 work", TaskStatus::Ready, 1, now)), with_context(task("P5 work", TaskStatus::Ready, 5, now))];
    let plan = bridge_today_plan(board, Vec::new(), Vec::new(), by_urgency);
    assert_eq!(plan.recommended_next_task.unwrap().task.title, "P1 work");
    assert_eq!(plan.next_up[0].context.task.title, "P1 work");
}

#[test]
fn empty_db_today_returns_empty_state() {
    let plan = bridge_today_plan(build_board(Vec::new(), noon()), Vec::new(), Vec::new(), Vec::new());
    assert!(plan.recommended_next_task.is_none());
    assert!(plan.now.is_empty() && plan.done_today.is_empty());
}

#[test]
fn suggestions_and_focus_follow_the_board() {
    let now = noon();
    let mut p1 = task("p1", TaskStatus::Ready, 1, now);
    p1.pinned = true;
    let board = build_board(
        vec![context(task("p5", TaskStatus::Ready, 5, now)), context(p1), context(task("blocked", TaskStatus::Blocked, 1, now))],
        now,
    );
    assert_eq!(suggest_next_task(&board).unwrap().context.task.id, "p1");
    let plan = plan_today(&board);
    assert_eq!(plan.focus.len(), 2);
    assert_eq!(plan.focus[0].context.task.id, "p1");
    assert_eq!(plan.overdue_count, 0);
    assert!(suggest_next_task(&build_board(Vec::new(), now)).is_none());
}

#[test]
fn backlog_triage_groups_stale_blocked_and_overdue_work() {
    let now = noon();
    let mut stale = task("stale", TaskStatus::Backlog, 3, now - 30 * NANOS_PER_DAY);
    stale.updated_at = now - 30 * NANOS_PER_DAY;
    let mut older_stale = task("older", TaskStatus::Inbox, 3, now - 60 * NANOS_PER_DAY);
    older_stale.updated_at = now - 60 * NANOS_PER_DAY;
    let mut overdue = task("overdue", TaskStatus::Ready, 3, now);
    overdue.due_at = Some(now - NANOS_PER_DAY);
    let tasks = vec![
        with_context(stale),
        with_context(older_stale),
        with_context(task("blocked", TaskStatus::Blocked, 3, now)),
        with_context(overdue),
        with_context(task("fresh", TaskStatus::Ready, 3, now)),
    ];
    let triage = triage_backlog(&tasks, now);
    let ids = |list: &Vec<TaskWithContext>| list.iter().map(|t| t.task.id.clone()).collect::<Vec<_>>();
    assert_eq!(ids(&triage.stale), vec!["older".to_string(), "stale".to_string()]);
    assert_eq!(ids(&triage.blocked), vec!["blocked".to_string()]);
    assert_eq!(ids(&triage.overdue), vec!["overdue".to_string()]);
    assert_eq!(triage.generated_at, now);
}

#[test]
fn project_summary_counts_by_status() {
    let now = noon();
    let project = openmgmt::domain::new_project(openmgmt::domain::seed_project("org-1".into()), now).unwrap();
    let mut late = task("late", TaskStatus::Ready, 2, now);
    late.project_id = project.id.clone();
    late.due_at = Some(now - NANOS_PER_HOUR);
    let mut blocked = task("blocked", TaskStatus::Blocked, 2, now);
    blocked.project_id = project.id.clone();
    let mut done = task("done", TaskStatus::Done, 2, now);
    done.project_id = project.id.clone();
    let tasks = vec![with_context(late.clone()), with_context(blocked), with_context(done)];
    let board = build_board(vec![context(late)], now);
    let summary = summarize_project(&project, &tasks, &board, now);
    assert_eq!(summary.total_tasks, 3);
    assert_eq!(summary.overdue_count, 1);
    assert_eq!(summary.blocked_count, 1);
    assert_eq!(
        summary.by_status,
        vec![("blocked".to_string(), 1), ("done".to_string(), 1), ("ready".to_string(), 1)]
    );
    assert_eq!(summary.suggested_next.unwrap().context.task.id, "late");
}
