//! The seven-column operations board.
use vstd::prelude::*;
use crate::models::{BoardState, ScoredTask, TaskContext, TaskStatus};
use crate::scoring::{lemma_default_weights_fit, score_task, spec_score, ScoringWeights};
use crate::time::{same_utc_day, utc_day, Timestamp, NANOS_PER_DAY};

verus! {

/// A column of the board.
#[derive(Clone, Copy, Debug, PartialEq, Eq, Structural)]
pub enum BoardColumn {
    Now,
    NextUp,
    DueSoon,
    WaitingBlocked,
    LaterToday,
    Overdue,
    DoneToday,
}

/// The column a task lands in at `now`, or `None` when the board leaves it out
/// (canceled work, and work completed on another day).
pub open spec fn board_column(c: TaskContext, now: Timestamp) -> Option<BoardColumn> {
    let t = c.task;
    let start = if t.scheduled_start_at is Some {
        t.scheduled_start_at
    } else {
        t.scheduled_at
    };
    let end = t.scheduled_end_at;
    let active = (start matches Some(s) && s <= now) && (end matches Some(e) && now < e);
    let elapsed = end matches Some(e) && e < now;
    let legacy_due = end is None && (start matches Some(s) && s <= now);
    let later_today = start matches Some(s) && s > now && utc_day(s as int) == utc_day(now as int);
    if t.status == TaskStatus::Canceled {
        None
    } else if t.status == TaskStatus::Done {
        if t.completed_at matches Some(at) && utc_day(at as int) == utc_day(now as int) {
            Some(BoardColumn::DoneToday)
        } else {
            None
        }
    } else if t.status == TaskStatus::Blocked || t.status == TaskStatus::Waiting {
        Some(BoardColumn::WaitingBlocked)
    } else if (t.due_at matches Some(d) && d < now) || elapsed {
        Some(BoardColumn::Overdue)
    } else if t.status == TaskStatus::InProgress || active || legacy_due {
        Some(BoardColumn::Now)
    } else if later_today {
        Some(BoardColumn::LaterToday)
    } else if t.due_at matches Some(d) && d - now <= NANOS_PER_DAY {
        Some(BoardColumn::DueSoon)
    } else {
        Some(BoardColumn::NextUp)
    }
}

/// A task with its default-weight urgency score.
pub open spec fn scored_spec(c: TaskContext, now: Timestamp) -> ScoredTask {
    ScoredTask { context: c, urgency_score: spec_score(c, now, default_weights()) as i32 }
}

/// The default scoring weights as a value.
pub open spec fn default_weights() -> ScoringWeights {
    ScoringWeights {
        priority_step: 12,
        project_priority_step: 3,
        pinned: 100,
        overdue_base: 90,
        overdue_per_day: 8,
        due_within_hour: 60,
        due_today: 40,
        due_tomorrow: 20,
        in_progress: 55,
        ready: 15,
        blocked: -45i32,
        waiting: -35i32,
        paused_project: -50i32,
    }
}

/// The scored tasks of `tasks` that belong in `col`, in input order.
pub open spec fn column_members(tasks: Seq<TaskContext>, now: Timestamp, col: BoardColumn) -> Seq<
    ScoredTask,
>
    decreases tasks.len(),
{
    if tasks.len() == 0 {
        Seq::empty()
    } else {
        let rest = column_members(tasks.drop_last(), now, col);
        if board_column(tasks.last(), now) == Some(col) {
            rest.push(scored_spec(tasks.last(), now))
        } else {
            rest
        }
    }
}

/// Where `score` goes in a list sorted by descending score: after every entry that
/// scores at least as much, so equal scores keep their arrival order.
pub open spec fn insert_pos(s: Seq<ScoredTask>, score: i32) -> int
    decreases s.len(),
{
    if s.len() == 0 {
        0
    } else if s[0].urgency_score < score {
        0
    } else {
        1 + insert_pos(s.drop_first(), score)
    }
}

/// `s` with `x` inserted at its place by descending score.
pub open spec fn insert_desc(s: Seq<ScoredTask>, x: ScoredTask) -> Seq<ScoredTask> {
    let k = insert_pos(s, x.urgency_score);
    s.take(k).push(x) + s.skip(k)
}

/// `s` stably sorted by descending urgency score.
pub open spec fn sort_desc(s: Seq<ScoredTask>) -> Seq<ScoredTask>
    decreases s.len(),
{
    if s.len() == 0 {
        s
    } else {
        insert_desc(sort_desc(s.drop_last()), s.last())
    }
}

/// The column `col` of the board built from `tasks` at `now`.
pub open spec fn board_column_spec(tasks: Seq<TaskContext>, now: Timestamp, col: BoardColumn) -> Seq<
    ScoredTask,
> {
    sort_desc(column_members(tasks, now, col))
}

/// Where a score goes in a descending list is a position of that list.
pub proof fn lemma_insert_pos_range(s: Seq<ScoredTask>, score: i32)
    ensures
        0 <= insert_pos(s, score) <= s.len(),
{
    lemma_insert_pos_bounds(s, score);
}

proof fn lemma_insert_pos_bounds(s: Seq<ScoredTask>, score: i32)
    ensures
        0 <= insert_pos(s, score) <= s.len(),
    decreases s.len(),
{
    if s.len() > 0 && s[0].urgency_score >= score {
        lemma_insert_pos_bounds(s.drop_first(), score);
    }
}

proof fn lemma_insert_pos_at(s: Seq<ScoredTask>, score: i32, i: int)
    requires
        0 <= i <= s.len(),
        forall|k: int| 0 <= k < i ==> s[k].urgency_score >= score,
        i == s.len() || s[i].urgency_score < score,
    ensures
        insert_pos(s, score) == i,
    decreases s.len(),
{
    if s.len() > 0 && i > 0 {
        let t = s.drop_first();
        assert forall|k: int| 0 <= k < i - 1 implies t[k].urgency_score >= score by {
            assert(t[k] == s[k + 1]);
        }
        if i < s.len() {
            assert(t[i - 1] == s[i]);
        }
        lemma_insert_pos_at(t, score, i - 1);
    }
}

/// Scores never rise along `s`.
pub open spec fn sorted_desc(s: Seq<ScoredTask>) -> bool {
    forall|i: int, j: int| 0 <= i < j < s.len() ==> #[trigger] s[i].urgency_score >= #[trigger] s[j].urgency_score
}

proof fn lemma_insert_pos_split(s: Seq<ScoredTask>, score: i32)
    ensures
        forall|i: int| 0 <= i < insert_pos(s, score) ==> #[trigger] s[i].urgency_score >= score,
        insert_pos(s, score) < s.len() ==> s[insert_pos(s, score)].urgency_score < score,
    decreases s.len(),
{
    lemma_insert_pos_bounds(s, score);
    if s.len() > 0 && s[0].urgency_score >= score {
        let t = s.drop_first();
        lemma_insert_pos_split(t, score);
        lemma_insert_pos_bounds(t, score);
        assert(insert_pos(s, score) == 1 + insert_pos(t, score));
        assert forall|i: int| 0 <= i < insert_pos(s, score) implies #[trigger] s[i].urgency_score >= score by {
            if i > 0 {
                assert(s[i] == t[i - 1]);
            }
        }
        if insert_pos(s, score) < s.len() {
            assert(s[insert_pos(s, score)] == t[insert_pos(t, score)]);
        }
    }
}

proof fn lemma_insert_desc_sorted(s: Seq<ScoredTask>, x: ScoredTask)
    requires
        sorted_desc(s),
    ensures
        sorted_desc(insert_desc(s, x)),
        insert_desc(s, x).len() == s.len() + 1,
{
    let k = insert_pos(s, x.urgency_score);
    lemma_insert_pos_bounds(s, x.urgency_score);
    lemma_insert_pos_split(s, x.urgency_score);
    let r = insert_desc(s, x);
    assert(r.len() == s.len() + 1);
    assert forall|i: int| 0 <= i < r.len() implies #[trigger] r[i] == (if i < k {
        s[i]
    } else if i == k {
        x
    } else {
        s[i - 1]
    }) by {}
    assert forall|i: int, j: int| 0 <= i < j < r.len() implies #[trigger] r[i].urgency_score >= #[trigger] r[j].urgency_score by {
        if j < k {
        } else if j == k {
            assert(r[i] == s[i]);
        } else if i < k {
            assert(r[j] == s[j - 1]);
        } else if i == k {
            assert(r[j] == s[j - 1]);
            assert(s[k].urgency_score < x.urgency_score);
            if j - 1 > k {
                assert(s[k].urgency_score >= s[j - 1].urgency_score);
            }
        } else {
            assert(r[i] == s[i - 1] && r[j] == s[j - 1]);
        }
    }
}

/// Law: a board column is sorted by descending urgency score and holds every task that
/// belongs in it.
pub proof fn lemma_sort_desc(s: Seq<ScoredTask>)
    ensures
        sorted_desc(sort_desc(s)),
        sort_desc(s).len() == s.len(),
    decreases s.len(),
{
    if s.len() > 0 {
        lemma_sort_desc(s.drop_last());
        lemma_insert_desc_sorted(sort_desc(s.drop_last()), s.last());
    }
}

/// How many of `tasks` the board shows at `now`.
pub open spec fn shown_count(tasks: Seq<TaskContext>, now: Timestamp) -> nat
    decreases tasks.len(),
{
    if tasks.len() == 0 {
        0
    } else {
        shown_count(tasks.drop_last(), now) + if board_column(tasks.last(), now) is Some {
            1nat
        } else {
            0nat
        }
    }
}

/// The sizes of the seven columns of the board built from `tasks` at `now`, added up.
pub open spec fn columns_total(tasks: Seq<TaskContext>, now: Timestamp) -> nat {
    column_members(tasks, now, BoardColumn::Now).len() + column_members(tasks, now, BoardColumn::NextUp).len()
        + column_members(tasks, now, BoardColumn::DueSoon).len() + column_members(
        tasks,
        now,
        BoardColumn::WaitingBlocked,
    ).len() + column_members(tasks, now, BoardColumn::LaterToday).len() + column_members(
        tasks,
        now,
        BoardColumn::Overdue,
    ).len() + column_members(tasks, now, BoardColumn::DoneToday).len()
}

proof fn lemma_columns_total(tasks: Seq<TaskContext>, now: Timestamp)
    ensures
        columns_total(tasks, now) == shown_count(tasks, now),
    decreases tasks.len(),
{
    if tasks.len() > 0 {
        lemma_columns_total(tasks.drop_last(), now);
    }
}

/// Law: every task the board shows is in exactly one column: the columns together hold as
/// many tasks as the board shows.
pub proof fn lemma_board_partition(tasks: Seq<TaskContext>, now: Timestamp)
    ensures
        board_column_spec(tasks, now, BoardColumn::Now).len() + board_column_spec(tasks, now, BoardColumn::NextUp).len()
            + board_column_spec(tasks, now, BoardColumn::DueSoon).len() + board_column_spec(
            tasks,
            now,
            BoardColumn::WaitingBlocked,
        ).len() + board_column_spec(tasks, now, BoardColumn::LaterToday).len() + board_column_spec(
            tasks,
            now,
            BoardColumn::Overdue,
        ).len() + board_column_spec(tasks, now, BoardColumn::DoneToday).len() == shown_count(tasks, now),
{
    lemma_columns_total(tasks, now);
    lemma_sort_desc(column_members(tasks, now, BoardColumn::Now));
    lemma_sort_desc(column_members(tasks, now, BoardColumn::NextUp));
    lemma_sort_desc(column_members(tasks, now, BoardColumn::DueSoon));
    lemma_sort_desc(column_members(tasks, now, BoardColumn::WaitingBlocked));
    lemma_sort_desc(column_members(tasks, now, BoardColumn::LaterToday));
    lemma_sort_desc(column_members(tasks, now, BoardColumn::Overdue));
    lemma_sort_desc(column_members(tasks, now, BoardColumn::DoneToday));
}

/// Insert `x` into `v` (sorted by descending score) after every entry scoring at least as much.
pub(crate) fn insert_sorted(v: &mut Vec<ScoredTask>, x: ScoredTask)
    ensures
        final(v)@ == insert_desc(old(v)@, x),
{
    let n = v.len();
    let mut i: usize = 0;
    while i < n && v[i].urgency_score >= x.urgency_score
        invariant
            n == v.len(),
            i <= n,
            forall|k: int| 0 <= k < i ==> v@[k].urgency_score >= x.urgency_score,
        decreases n - i,
    {
        i = i + 1;
    }
    proof {
        lemma_insert_pos_at(v@, x.urgency_score, i as int);
    }
    let ghost before = v@;
    v.insert(i, x);
    assert(v@ =~= before.take(i as int).push(x) + before.skip(i as int));
}

/// A task with its urgency score under the default weights.
pub fn scored(context: TaskContext, now: Timestamp) -> (s: ScoredTask)
    ensures
        s == scored_spec(context, now),
{
    let weights = ScoringWeights::default();
    proof {
        lemma_default_weights_fit(context, now, weights);
    }
    let urgency_score = score_task(&context, now, weights);
    ScoredTask { context, urgency_score }
}

/// The column of a task at `now`, or `None` when it is left off the board.
pub fn column_of(context: &TaskContext, now: Timestamp) -> (col: Option<BoardColumn>)
    ensures
        col == board_column(*context, now),
{
    let t = &context.task;
    let status = t.status;
    if status == TaskStatus::Canceled {
        return None;
    }
    if status == TaskStatus::Done {
        return match t.completed_at {
            Some(at) => if same_utc_day(at, now) {
                Some(BoardColumn::DoneToday)
            } else {
                None
            },
            None => None,
        };
    }
    let start = match t.scheduled_start_at {
        Some(s) => Some(s),
        None => t.scheduled_at,
    };
    let end = t.scheduled_end_at;
    let active = (match start {
        Some(s) => s <= now,
        None => false,
    }) && (match end {
        Some(e) => now < e,
        None => false,
    });
    let elapsed = match end {
        Some(e) => e < now,
        None => false,
    };
    let legacy_due = end.is_none() && match start {
        Some(s) => s <= now,
        None => false,
    };
    let later_today = match start {
        Some(s) => s > now && same_utc_day(s, now),
        None => false,
    };
    let overdue_due = match t.due_at {
        Some(d) => d < now,
        None => false,
    };
    let due_soon = match t.due_at {
        Some(d) => (d as i128) - (now as i128) <= NANOS_PER_DAY as i128,
        None => false,
    };
    if status == TaskStatus::Blocked || status == TaskStatus::Waiting {
        Some(BoardColumn::WaitingBlocked)
    } else if overdue_due || elapsed {
        Some(BoardColumn::Overdue)
    } else if status == TaskStatus::InProgress || active || legacy_due {
        Some(BoardColumn::Now)
    } else if later_today {
        Some(BoardColumn::LaterToday)
    } else if due_soon {
        Some(BoardColumn::DueSoon)
    } else {
        Some(BoardColumn::NextUp)
    }
}

/// The elements of `v` in reverse order.
fn reversed<T>(v: Vec<T>) -> (r: Vec<T>)
    ensures
        r@.len() == v@.len(),
        forall|k: int| 0 <= k < v@.len() ==> r@[k] == v@[v@.len() - 1 - k],
{
    let ghost orig = v@;
    let mut v = v;
    let mut r: Vec<T> = Vec::new();
    while v.len() > 0
        invariant
            v@.len() + r@.len() == orig.len(),
            forall|k: int| 0 <= k < v@.len() ==> v@[k] == orig[k],
            forall|k: int| 0 <= k < r@.len() ==> r@[k] == orig[orig.len() - 1 - k],
        decreases v@.len(),
    {
        let x = v.pop().unwrap();
        r.push(x);
    }
    r
}

/// Group tasks into the board columns at `now`: canceled tasks and tasks completed on another
/// day are left out; every column is stably sorted by descending urgency score.
pub fn build_board(tasks: Vec<TaskContext>, now: Timestamp) -> (board: BoardState)
    ensures
        board.generated_at == now,
        board.now@ == board_column_spec(tasks@, now, BoardColumn::Now),
        board.next_up@ == board_column_spec(tasks@, now, BoardColumn::NextUp),
        board.due_soon@ == board_column_spec(tasks@, now, BoardColumn::DueSoon),
        board.waiting_blocked@ == board_column_spec(tasks@, now, BoardColumn::WaitingBlocked),
        board.later_today@ == board_column_spec(tasks@, now, BoardColumn::LaterToday),
        board.overdue@ == board_column_spec(tasks@, now, BoardColumn::Overdue),
        board.done_today@ == board_column_spec(tasks@, now, BoardColumn::DoneToday),
{
    let mut board = BoardState {
        generated_at: now,
        now: Vec::new(),
        next_up: Vec::new(),
        due_soon: Vec::new(),
        waiting_blocked: Vec::new(),
        later_today: Vec::new(),
        overdue: Vec::new(),
        done_today: Vec::new(),
    };
    let ghost all = tasks@;
    let n = tasks.len();
    let mut remaining = reversed(tasks);
    let mut i: usize = 0;
    while i < n
        invariant
            n == all.len(),
            i <= n,
            remaining@.len() == n - i,
            forall|k: int| 0 <= k < n - i ==> remaining@[k] == all[n - 1 - k],
            board.generated_at == now,
            board.now@ == board_column_spec(all.take(i as int), now, BoardColumn::Now),
            board.next_up@ == board_column_spec(all.take(i as int), now, BoardColumn::NextUp),
            board.due_soon@ == board_column_spec(all.take(i as int), now, BoardColumn::DueSoon),
            board.waiting_blocked@ == board_column_spec(
                all.take(i as int),
                now,
                BoardColumn::WaitingBlocked,
            ),
            board.later_today@ == board_column_spec(
                all.take(i as int),
                now,
                BoardColumn::LaterToday,
            ),
            board.overdue@ == board_column_spec(all.take(i as int), now, BoardColumn::Overdue),
            board.done_today@ == board_column_spec(
                all.take(i as int),
                now,
                BoardColumn::DoneToday,
            ),
        decreases n - i,
    {
        let context = remaining.pop().unwrap();
        let ghost prefix = all.take(i as int);
        let ghost next = all.take(i + 1);
        proof {
            assert(context == all[i as int]);
            assert(next.drop_last() =~= prefix);
            assert(next.last() == all[i as int]);
        }
        let col = column_of(&context, now);
        match col {
            None => {},
            Some(c) => {
                let item = scored(context, now);
                match c {
                    BoardColumn::Now => insert_sorted(&mut board.now, item),
                    BoardColumn::NextUp => insert_sorted(&mut board.next_up, item),
                    BoardColumn::DueSoon => insert_sorted(&mut board.due_soon, item),
                    BoardColumn::WaitingBlocked => insert_sorted(&mut board.waiting_blocked, item),
                    BoardColumn::LaterToday => insert_sorted(&mut board.later_today, item),
                    BoardColumn::Overdue => insert_sorted(&mut board.overdue, item),
                    BoardColumn::DoneToday => insert_sorted(&mut board.done_today, item),
                }
            },
        }
        proof {
            assert forall|c: BoardColumn| #[trigger]
                column_members(next, now, c) == if board_column(all[i as int], now) == Some(c) {
                    column_members(prefix, now, c).push(scored_spec(all[i as int], now))
                } else {
                    column_members(prefix, now, c)
                } by {}
            assert forall|c: BoardColumn|
                board_column(all[i as int], now) == Some(c) implies #[trigger] sort_desc(
                column_members(next, now, c),
            ) == insert_desc(sort_desc(column_members(prefix, now, c)), scored_spec(all[i as int], now)) by {
                let s = column_members(next, now, c);
                assert(s.drop_last() =~= column_members(prefix, now, c));
            }
        }
        i = i + 1;
    }
    proof {
        assert(all.take(n as int) =~= all);
    }
    board
}

/// Law: a task lands in Due Soon only when its due date lies between now and one day ahead,
/// and a task in Next Up has no due date or one more than a day ahead.
pub proof fn lemma_due_soon_window(c: TaskContext, now: Timestamp)
    ensures
        board_column(c, now) == Some(BoardColumn::DueSoon) ==> (c.task.due_at matches Some(d) && now <= d
            && d <= now + NANOS_PER_DAY),
        board_column(c, now) == Some(BoardColumn::NextUp) ==> (c.task.due_at matches Some(d) ==> d > now
            + NANOS_PER_DAY),
{
}

/// Law: an open, unscheduled task that is not in progress, blocked or waiting, and not yet due,
/// lands in Due Soon when due within a day and in Next Up otherwise.
pub proof fn lemma_unscheduled_task_column(c: TaskContext, now: Timestamp)
    requires
        c.task.status != TaskStatus::Done,
        c.task.status != TaskStatus::Canceled,
        c.task.status != TaskStatus::Blocked,
        c.task.status != TaskStatus::Waiting,
        c.task.status != TaskStatus::InProgress,
        c.task.scheduled_at is None,
        c.task.scheduled_start_at is None,
        c.task.scheduled_end_at is None,
        c.task.due_at matches Some(d) ==> now <= d,
    ensures
        board_column(c, now) == (if c.task.due_at matches Some(d) && d <= now + NANOS_PER_DAY {
            Some(BoardColumn::DueSoon)
        } else {
            Some(BoardColumn::NextUp)
        }),
{
}

} // verus!
