//! Urgency scoring of tasks.
use vstd::prelude::*;
use crate::models::{ProjectStatus, TaskContext, TaskStatus};
use crate::time::{Timestamp, NANOS_PER_DAY, NANOS_PER_HOUR};

verus! {

/// Weights of the urgency score.
#[derive(Clone, Copy, Debug)]
pub struct ScoringWeights {
    pub priority_step: i32,
    pub project_priority_step: i32,
    pub pinned: i32,
    pub overdue_base: i32,
    pub overdue_per_day: i32,
    pub due_within_hour: i32,
    pub due_today: i32,
    pub due_tomorrow: i32,
    pub in_progress: i32,
    pub ready: i32,
    pub blocked: i32,
    pub waiting: i32,
    pub paused_project: i32,
}

impl ScoringWeights {
    /// The weights the board uses.
    pub open spec fn is_default(self) -> bool {
        &&& self.priority_step == 12
        &&& self.project_priority_step == 3
        &&& self.pinned == 100
        &&& self.overdue_base == 90
        &&& self.overdue_per_day == 8
        &&& self.due_within_hour == 60
        &&& self.due_today == 40
        &&& self.due_tomorrow == 20
        &&& self.in_progress == 55
        &&& self.ready == 15
        &&& self.blocked == -45
        &&& self.waiting == -35
        &&& self.paused_project == -50
    }
}

impl Default for ScoringWeights {
    fn default() -> (w: Self)
        ensures
            w.is_default(),
    {
        ScoringWeights {
            priority_step: 12,
            project_priority_step: 3,
            pinned: 100,
            overdue_base: 90,
            overdue_per_day: 8,
            due_within_hour: 60,
            due_today: 40,
            due_tomorrow: 20,
            in_progress: 55,
            ready: 15,
            blocked: -45,
            waiting: -35,
            paused_project: -50,
        }
    }
}

/// Highest (most urgent) selectable priority: P1.
pub const HIGHEST_PRIORITY: i32 = 1;

/// Lowest (least urgent) selectable priority: P5.
pub const LOWEST_PRIORITY: i32 = 5;

/// The urgency rank of a priority: P1 gives 5, P5 gives 1, stray values are clamped first.
pub open spec fn spec_priority_rank(priority: int) -> int {
    let clamped = if priority < 1 {
        1
    } else if priority > 5 {
        5
    } else {
        priority
    };
    6 - clamped
}

/// Convert a 1–5 priority (P1 highest) into an urgency rank where a higher
/// number means more urgent.
pub fn priority_rank(priority: i32) -> (rank: i32)
    ensures
        rank == spec_priority_rank(priority as int),
        1 <= rank <= 5,
{
    let clamped = if priority < HIGHEST_PRIORITY {
        HIGHEST_PRIORITY
    } else if priority > LOWEST_PRIORITY {
        LOWEST_PRIORITY
    } else {
        priority
    };
    LOWEST_PRIORITY + 1 - clamped
}

/// Whether a value fits in an `i32`.
pub open spec fn fits_i32(x: int) -> bool {
    i32::MIN <= x <= i32::MAX
}

/// Whole days by which `due` lies before `now` (the due date is past).
pub open spec fn overdue_days(due: int, now: int) -> int {
    (now - due) / (NANOS_PER_DAY as int)
}

/// The score contribution of a due date.
pub open spec fn due_bonus(w: ScoringWeights, due: Option<Timestamp>, now: Timestamp) -> int {
    match due {
        None => 0,
        Some(d) => {
            let until = d - now;
            if until < 0 {
                w.overdue_base + overdue_days(d as int, now as int) * w.overdue_per_day
            } else if until <= NANOS_PER_HOUR {
                w.due_within_hour as int
            } else if until <= NANOS_PER_DAY {
                w.due_today as int
            } else if until <= 2 * NANOS_PER_DAY {
                w.due_tomorrow as int
            } else {
                0
            }
        },
    }
}

/// The score contribution of a task status.
pub open spec fn status_bonus(w: ScoringWeights, status: TaskStatus) -> int {
    match status {
        TaskStatus::InProgress => w.in_progress as int,
        TaskStatus::Ready => w.ready as int,
        TaskStatus::Blocked => w.blocked as int,
        TaskStatus::Waiting => w.waiting as int,
        _ => 0,
    }
}

/// Score after the priority terms.
pub open spec fn base_score(t: TaskContext, w: ScoringWeights) -> int {
    spec_priority_rank(t.task.priority as int) * w.priority_step + spec_priority_rank(
        t.project_priority as int,
    ) * w.project_priority_step
}

/// Score after the pinned, status and paused-project terms.
pub open spec fn flag_score(t: TaskContext, w: ScoringWeights) -> int {
    base_score(t, w) + (if t.task.pinned {
        w.pinned as int
    } else {
        0
    }) + status_bonus(w, t.task.status) + (if t.project_status == ProjectStatus::Paused {
        w.paused_project as int
    } else {
        0
    })
}

/// The urgency score of a task at `now`.
pub open spec fn spec_score(t: TaskContext, now: Timestamp, w: ScoringWeights) -> int {
    flag_score(t, w) + due_bonus(w, t.task.due_at, now)
}

/// Every intermediate `i32` result of the score computation fits; where one does not,
/// the computation overflows.
pub open spec fn score_fits(t: TaskContext, now: Timestamp, w: ScoringWeights) -> bool {
    let r1 = spec_priority_rank(t.task.priority as int) * w.priority_step;
    let r2 = spec_priority_rank(t.project_priority as int) * w.project_priority_step;
    let s1 = r1 + r2;
    let s2 = s1 + (if t.task.pinned { w.pinned as int } else { 0 });
    let s3 = s2 + status_bonus(w, t.task.status);
    let s4 = flag_score(t, w);
    let overdue_ok = match t.task.due_at {
        Some(d) => d - now < 0 ==> {
            &&& fits_i32(overdue_days(d as int, now as int) * w.overdue_per_day)
            &&& fits_i32(w.overdue_base + overdue_days(d as int, now as int) * w.overdue_per_day)
        },
        None => true,
    };
    &&& fits_i32(r1)
    &&& fits_i32(r2)
    &&& fits_i32(s1)
    &&& fits_i32(s2)
    &&& fits_i32(s3)
    &&& fits_i32(s4)
    &&& overdue_ok
    &&& fits_i32(spec_score(t, now, w))
}

/// The urgency score of a task at `now`: priority and project priority ranks, pinning,
/// status, a paused project, and how close (or how far past) the due date is.
pub fn score_task(task: &TaskContext, now: Timestamp, weights: ScoringWeights) -> (score: i32)
    requires
        score_fits(*task, now, weights),
    ensures
        score == spec_score(*task, now, weights),
{
    let r1 = priority_rank(task.task.priority) * weights.priority_step;
    let r2 = priority_rank(task.project_priority) * weights.project_priority_step;
    let mut score = r1 + r2;
    if task.task.pinned {
        score = score + weights.pinned;
    }
    let status_term = match task.task.status {
        TaskStatus::InProgress => weights.in_progress,
        TaskStatus::Ready => weights.ready,
        TaskStatus::Blocked => weights.blocked,
        TaskStatus::Waiting => weights.waiting,
        _ => 0,
    };
    score = score + status_term;
    if task.project_status == ProjectStatus::Paused {
        score = score + weights.paused_project;
    }
    match task.task.due_at {
        None => {},
        Some(due) => {
            let until: i128 = due as i128 - now as i128;
            let bonus: i32 = if until < 0 {
                let days: i128 = (now as i128 - due as i128) / (NANOS_PER_DAY as i128);
                assert(days == overdue_days(due as int, now as int));
                assert(0 <= days <= 213504) by {
                    assert((now as int) - (due as int) <= 0x1_0000_0000_0000_0000);
                }
                let days32 = days as i32;
                weights.overdue_base + days32 * weights.overdue_per_day
            } else if until <= NANOS_PER_HOUR as i128 {
                weights.due_within_hour
            } else if until <= NANOS_PER_DAY as i128 {
                weights.due_today
            } else if until <= 2 * NANOS_PER_DAY as i128 {
                weights.due_tomorrow
            } else {
                0
            };
            score = score + bonus;
        },
    }
    score
}

/// With the default weights no intermediate result overflows, for any task and instant.
pub proof fn lemma_default_weights_fit(t: TaskContext, now: Timestamp, w: ScoringWeights)
    requires
        w.is_default(),
    ensures
        score_fits(t, now, w),
{
    match t.task.due_at {
        Some(d) => {
            if d - now < 0 {
                assert(overdue_days(d as int, now as int) <= 213504) by {
                    assert((now as int) - (d as int) <= 0x1_0000_0000_0000_0000);
                }
                assert(overdue_days(d as int, now as int) >= 0);
            }
        },
        None => {},
    }
}

/// A P1 task outscores the same task at P5, whatever the weights, as long as a priority
/// step counts for something.
pub proof fn lemma_higher_priority_scores_higher(
    t: TaskContext,
    u: TaskContext,
    now: Timestamp,
    w: ScoringWeights,
)
    requires
        w.priority_step > 0,
        t.task.pinned == u.task.pinned,
        t.task.status == u.task.status,
        t.task.due_at == u.task.due_at,
        t.project_status == u.project_status,
        t.project_priority == u.project_priority,
        1 <= t.task.priority < u.task.priority <= 5,
    ensures
        spec_score(t, now, w) > spec_score(u, now, w),
{
    assert(spec_priority_rank(t.task.priority as int) > spec_priority_rank(u.task.priority as int));
    assert(spec_priority_rank(t.task.priority as int) * w.priority_step > spec_priority_rank(
        u.task.priority as int,
    ) * w.priority_step) by (nonlinear_arith)
        requires
            spec_priority_rank(t.task.priority as int) > spec_priority_rank(
                u.task.priority as int,
            ),
            w.priority_step > 0,
    ;
}

/// Pinning a task raises its score by exactly the pinned weight.
pub proof fn lemma_pinning_adds_pinned_weight(t: TaskContext, u: TaskContext, now: Timestamp, w: ScoringWeights)
    requires
        !t.task.pinned,
        u.task.pinned,
        t.task.priority == u.task.priority,
        t.task.status == u.task.status,
        t.task.due_at == u.task.due_at,
        t.project_status == u.project_status,
        t.project_priority == u.project_priority,
    ensures
        spec_score(u, now, w) == spec_score(t, now, w) + w.pinned,
{
}

/// With the default weights, blocked work in a paused project scores below the same work
/// ready in an active project.
pub proof fn lemma_blocked_paused_scores_lower(t: TaskContext, u: TaskContext, now: Timestamp, w: ScoringWeights)
    requires
        w.is_default(),
        t.task.status == TaskStatus::Ready,
        t.project_status == ProjectStatus::Active,
        u.task.status == TaskStatus::Blocked,
        u.project_status == ProjectStatus::Paused,
        t.task.priority == u.task.priority,
        t.task.pinned == u.task.pinned,
        t.task.due_at == u.task.due_at,
        t.project_priority == u.project_priority,
    ensures
        spec_score(u, now, w) < spec_score(t, now, w),
{
}

/// Law: an overdue due date adds the overdue base plus the overdue weight for each whole day
/// past due: the task scores exactly that much above the same task with no due date.
pub proof fn lemma_overdue_bonus_counts_days(
    t: TaskContext,
    u: TaskContext,
    now: Timestamp,
    w: ScoringWeights,
    d: Timestamp,
)
    requires
        t.task.priority == u.task.priority,
        t.task.pinned == u.task.pinned,
        t.task.status == u.task.status,
        t.project_status == u.project_status,
        t.project_priority == u.project_priority,
        t.task.due_at == Some(d),
        u.task.due_at is None,
        d < now,
    ensures
        spec_score(t, now, w) == spec_score(u, now, w) + w.overdue_base + ((now - d) / (NANOS_PER_DAY as int))
            * w.overdue_per_day,
{
}

/// Law: when each overdue day counts, a task more whole days overdue scores strictly higher
/// than the same task fewer whole days overdue; the difference is the overdue weight for each
/// extra day.
pub proof fn lemma_more_overdue_scores_higher(
    t: TaskContext,
    u: TaskContext,
    now: Timestamp,
    w: ScoringWeights,
    d1: Timestamp,
    d2: Timestamp,
)
    requires
        t.task.priority == u.task.priority,
        t.task.pinned == u.task.pinned,
        t.task.status == u.task.status,
        t.project_status == u.project_status,
        t.project_priority == u.project_priority,
        t.task.due_at == Some(d1),
        u.task.due_at == Some(d2),
        d2 <= d1 < now,
    ensures
        spec_score(u, now, w) - spec_score(t, now, w) == ((now - d2) / (NANOS_PER_DAY as int) - (now - d1)
            / (NANOS_PER_DAY as int)) * w.overdue_per_day,
        w.overdue_per_day > 0 && (now - d2) / (NANOS_PER_DAY as int) > (now - d1) / (NANOS_PER_DAY as int)
            ==> spec_score(u, now, w) > spec_score(t, now, w),
{
    let a = (now - d2) / (NANOS_PER_DAY as int);
    let b = (now - d1) / (NANOS_PER_DAY as int);
    assert(a * w.overdue_per_day - b * w.overdue_per_day == (a - b) * w.overdue_per_day) by (nonlinear_arith);
    assert(w.overdue_per_day > 0 && a > b ==> (a - b) * w.overdue_per_day > 0) by (nonlinear_arith);
}

} // verus!
