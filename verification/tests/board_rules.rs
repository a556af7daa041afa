use chrono::{TimeZone, Utc};
use openmgmt::board::{build_board, column_of, BoardColumn};
use openmgmt::models::{ProjectStatus, ProjectType, Task, TaskContext, TaskStatus};
use openmgmt::scoring::{priority_rank, score_task, ScoringWeights};
use openmgmt::time::{NANOS_PER_DAY, NANOS_PER_HOUR, NANOS_PER_MINUTE};

fn noon() -> i64 {
    Utc.with_ymd_and_hms(2026, 6, 19, 12, 0, 0).unwrap().timestamp_nanos_opt().unwrap()
}

fn task(id: &str, status: TaskStatus, now: i64) -> TaskContext {
    TaskContext {
        task: Task {
            id: id.into(),
            project_id: "project".into(),
            title: id.into(),
            description: None,
            status,
            priority: 3,
            due_at: None,
            scheduled_at: None,
            scheduled_start_at: None,
            scheduled_end_at: None,
            deadline_at: None,
            reminder_at: None,
            recurrence_rule: None,
            recurrence_anchor_at: None,
            recurrence_timezone: None,
            calendar_block_id: None,
            started_at: None,
            completed_at: None,
            estimated_minutes: Some(30),
            time_limit_minutes: None,
            pinned: false,
            blocked_reason: None,
            tags: vec![],
            created_at: now,
            updated_at: now,
        },
        project_name: "Project".into(),
        project_type: ProjectType::Software,
        project_status: ProjectStatus::Active,
        project_priority: 3,
        organization_name: "Personal".into(),
        organization_color: None,
    }
}

#[test]
fn pinned_overdue_in_progress_gets_major_boost() {
    let now = noon();
    let baseline = score_task(&task("task", TaskStatus::Ready, now), now, ScoringWeights::default());
    let mut urgent = task("task", TaskStatus::Ready, now);
    urgent.task.pinned = true;
    urgent.task.status = TaskStatus::InProgress;
    urgent.task.due_at = Some(now - NANOS_PER_DAY);
    assert!(score_task(&urgent, now, ScoringWeights::default()) > baseline + 200);
}

#[test]
fn p1_outranks_p5() {
    let now = noon();
    let mut highest = task("task", TaskStatus::Ready, now);
    highest.task.priority = 1;
    let mut lowest = task("task", TaskStatus::Ready, now);
    lowest.task.priority = 5;
    assert!(
        score_task(&highest, now, ScoringWeights::default())
            > score_task(&lowest, now, ScoringWeights::default()),
        "P1 must score higher than P5"
    );
}

#[test]
fn blocked_paused_work_is_penalized() {
    let now = noon();
    let baseline = score_task(&task("task", TaskStatus::Ready, now), now, ScoringWeights::default());
    let mut paused = task("task", TaskStatus::Ready, now);
    paused.task.status = TaskStatus::Blocked;
    paused.project_status = ProjectStatus::Paused;
    assert!(score_task(&paused, now, ScoringWeights::default()) < baseline);
}

#[test]
fn priority_ranks_and_a_default_score() {
    assert_eq!(priority_rank(1), 5);
    assert_eq!(priority_rank(5), 1);
    assert_eq!(priority_rank(3), 3);
    let now = noon();
    let w = ScoringWeights::default();
    // Ready P3 task in a P3 project, nothing due: ranks plus the ready bonus.
    let expected = 3 * w.priority_step + 3 * w.project_priority_step + w.ready;
    assert_eq!(score_task(&task("t", TaskStatus::Ready, now), now, w), expected);
}

#[test]
fn groups_fixed_states_and_filters_terminal_work() {
    let now = noon();
    let mut overdue = task("overdue", TaskStatus::Ready, now);
    overdue.task.due_at = Some(now - NANOS_PER_HOUR);
    let mut done_today = task("done-today", TaskStatus::Done, now);
    done_today.task.completed_at = Some(now);
    let mut done_before = task("done-before", TaskStatus::Done, now);
    done_before.task.completed_at = Some(now - NANOS_PER_DAY);
    let board = build_board(
        vec![overdue, task("blocked", TaskStatus::Blocked, now), done_today, done_before, task("canceled", TaskStatus::Canceled, now)],
        now,
    );
    assert_eq!(board.overdue[0].context.task.id, "overdue");
    assert_eq!(board.waiting_blocked[0].context.task.id, "blocked");
    assert_eq!(board.done_today.len(), 1);
    assert_eq!(board.done_today[0].context.task.id, "done-today");
}

#[test]
fn sorts_columns_by_score() {
    let now = noon();
    let normal = task("normal", TaskStatus::Ready, now);
    let mut pinned = task("pinned", TaskStatus::Ready, now);
    pinned.task.priority = 1;
    pinned.task.pinned = true;
    let board = build_board(vec![normal, pinned], now);
    assert_eq!(board.next_up[0].context.task.id, "pinned");
}

#[test]
fn scheduled_tasks_group_by_their_time_block() {
    let now = noon();
    let m = NANOS_PER_MINUTE;
    let h = NANOS_PER_HOUR;

    let mut active = task("active", TaskStatus::Scheduled, now);
    active.task.scheduled_start_at = Some(now - 5 * m);
    active.task.scheduled_end_at = Some(now + 25 * m);

    let mut later = task("later", TaskStatus::Scheduled, now);
    later.task.scheduled_start_at = Some(now + 2 * h);
    later.task.scheduled_end_at = Some(now + 3 * h);

    let mut elapsed = task("elapsed", TaskStatus::Scheduled, now);
    elapsed.task.scheduled_start_at = Some(now - 2 * h);
    elapsed.task.scheduled_end_at = Some(now - h);

    let mut done = task("done", TaskStatus::Done, now);
    done.task.scheduled_start_at = Some(now - 2 * h);
    done.task.scheduled_end_at = Some(now - h);
    done.task.completed_at = Some(now);

    let mut tomorrow = task("tomorrow", TaskStatus::Scheduled, now);
    tomorrow.task.scheduled_start_at = Some(now + NANOS_PER_DAY);
    tomorrow.task.scheduled_end_at = Some(now + NANOS_PER_DAY + h);

    let board = build_board(vec![active, later, elapsed, done, tomorrow], now);
    assert!(board.now.iter().any(|t| t.context.task.id == "active"));
    assert!(board.later_today.iter().any(|t| t.context.task.id == "later"));
    assert!(board.overdue.iter().any(|t| t.context.task.id == "elapsed"));
    assert!(board.done_today.iter().any(|t| t.context.task.id == "done"));
    assert!(!board.later_today.iter().any(|t| t.context.task.id == "tomorrow"));
}

#[test]
fn p1_outranks_p5_within_now_column() {
    let now = noon();
    let mut p5 = task("p5", TaskStatus::InProgress, now);
    p5.task.priority = 5;
    let mut p1 = task("p1", TaskStatus::InProgress, now);
    p1.task.priority = 1;
    let board = build_board(vec![p5, p1], now);
    assert_eq!(board.now[0].context.task.id, "p1");
    assert_eq!(board.now[1].context.task.id, "p5");
}

#[test]
fn each_task_lands_in_at_most_one_column() {
    let now = noon();
    assert_eq!(column_of(&task("a", TaskStatus::InProgress, now), now), Some(BoardColumn::Now));
    assert_eq!(column_of(&task("b", TaskStatus::Canceled, now), now), None);
    assert_eq!(column_of(&task("c", TaskStatus::Waiting, now), now), Some(BoardColumn::WaitingBlocked));
    let board = build_board(vec![task("x", TaskStatus::Ready, now), task("y", TaskStatus::Canceled, now)], now);
    let total = board.now.len() + board.next_up.len() + board.due_soon.len() + board.waiting_blocked.len()
        + board.later_today.len() + board.overdue.len() + board.done_today.len();
    assert_eq!(total, 1);
    assert_eq!(board.generated_at, now);
}
