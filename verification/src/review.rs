//! Deterministic reviews of the workspace: backlog triage, the next task to take, today's
//! focus plan and a project's summary.
use vstd::prelude::*;
use crate::board::{insert_desc, insert_sorted, sort_desc};
use crate::models::{same_listed, same_scored, BoardState, Project, ScoredTask, TaskStatus, TaskWithContext};
use crate::board::insert_pos;
use crate::text::{str_eq, to_string};
use crate::time::{Timestamp, NANOS_PER_DAY};

verus! {

/// Tasks untouched for this long count as stale: fourteen days, in nanoseconds.
pub const STALE_AFTER: i64 = 1_209_600_000_000_000;

/// The open tasks grouped for review at `generated_at`.
#[derive(Clone, Debug)]
pub struct BacklogTriage {
    pub generated_at: Timestamp,
    pub stale: Vec<TaskWithContext>,
    pub blocked: Vec<TaskWithContext>,
    pub overdue: Vec<TaskWithContext>,
}

/// Whether a task is held up: blocked, waiting, or carrying a blocked reason.
pub open spec fn held_up(t: TaskWithContext) -> bool {
    t.task.status == TaskStatus::Blocked || t.task.status == TaskStatus::Waiting
        || t.task.blocked_reason is Some
}

/// Whether a task is past its due time at `now`.
pub open spec fn past_due(t: TaskWithContext, now: Timestamp) -> bool {
    t.task.due_at matches Some(d) && d < now
}

/// Whether a task is stale: not held up and untouched since before `cutoff`.
pub open spec fn stale_at(t: TaskWithContext, cutoff: int) -> bool {
    t.task.updated_at < cutoff && !held_up(t)
}

/// How a triage group is ordered: by last update, or by due time (no due time first).
#[derive(Clone, Copy, Debug, PartialEq, Eq, Structural)]
pub enum TriageOrder {
    UpdatedAt,
    DueAt,
}

/// The sort key of a task in a triage group.
pub open spec fn triage_key(order: TriageOrder, t: TaskWithContext) -> int {
    match order {
        TriageOrder::UpdatedAt => t.task.updated_at as int,
        TriageOrder::DueAt => match t.task.due_at {
            Some(d) => d as int,
            None => i64::MIN - 1,
        },
    }
}

/// Where a task of key `key` goes in a list sorted by ascending key: after every entry whose
/// key is at most `key`, so equal keys keep their arrival order.
pub open spec fn insert_pos_asc(s: Seq<TaskWithContext>, order: TriageOrder, key: int) -> int
    decreases s.len(),
{
    if s.len() == 0 {
        0
    } else if triage_key(order, s[0]) > key {
        0
    } else {
        1 + insert_pos_asc(s.drop_first(), order, key)
    }
}

/// `s` stably sorted by ascending key.
pub open spec fn sort_asc(s: Seq<TaskWithContext>, order: TriageOrder) -> Seq<TaskWithContext>
    decreases s.len(),
{
    if s.len() == 0 {
        s
    } else {
        let sorted = sort_asc(s.drop_last(), order);
        let k = insert_pos_asc(sorted, order, triage_key(order, s.last()));
        sorted.take(k).push(s.last()) + sorted.skip(k)
    }
}

proof fn lemma_insert_pos_asc_at(s: Seq<TaskWithContext>, order: TriageOrder, key: int, i: int)
    requires
        0 <= i <= s.len(),
        forall|k: int| 0 <= k < i ==> triage_key(order, s[k]) <= key,
        i == s.len() || triage_key(order, s[i]) > key,
    ensures
        insert_pos_asc(s, order, key) == i,
    decreases s.len(),
{
    if s.len() > 0 && i > 0 {
        let t = s.drop_first();
        assert forall|k: int| 0 <= k < i - 1 implies triage_key(order, t[k]) <= key by {
            assert(t[k] == s[k + 1]);
        }
        if i < s.len() {
            assert(t[i - 1] == s[i]);
        }
        lemma_insert_pos_asc_at(t, order, key, i - 1);
    }
}

proof fn lemma_insert_pos_bound(s: Seq<TaskWithContext>, order: TriageOrder, key: int)
    ensures
        0 <= insert_pos_asc(s, order, key) <= s.len(),
    decreases s.len(),
{
    if s.len() > 0 && triage_key(order, s[0]) <= key {
        lemma_insert_pos_bound(s.drop_first(), order, key);
    }
}

fn key_of(order: TriageOrder, t: &TaskWithContext) -> (k: i128)
    ensures
        k == triage_key(order, *t),
{
    match order {
        TriageOrder::UpdatedAt => t.task.updated_at as i128,
        TriageOrder::DueAt => match t.task.due_at {
            Some(d) => d as i128,
            None => (i64::MIN as i128) - 1,
        },
    }
}

fn insert_ascending(v: &mut Vec<TaskWithContext>, x: TaskWithContext, order: TriageOrder)
    ensures
        final(v)@ == ({
            let k = insert_pos_asc(old(v)@, order, triage_key(order, x));
            old(v)@.take(k).push(x) + old(v)@.skip(k)
        }),
{
    let n = v.len();
    let kx = key_of(order, &x);
    let mut i: usize = 0;
    while i < n && key_of(order, &v[i]) <= kx
        invariant
            n == v.len(),
            i <= n,
            kx == triage_key(order, x),
            forall|k: int| 0 <= k < i ==> triage_key(order, v@[k]) <= kx,
        decreases n - i,
    {
        i = i + 1;
    }
    proof {
        lemma_insert_pos_asc_at(v@, order, kx as int, i as int);
    }
    let ghost before = v@;
    v.insert(i, x);
    assert(v@ =~= before.take(i as int).push(x) + before.skip(i as int));
}

/// The tasks of `s` that `keep` holds for, in order.
pub open spec fn kept(s: Seq<TaskWithContext>, keep: spec_fn(TaskWithContext) -> bool) -> Seq<
    TaskWithContext,
>
    decreases s.len(),
{
    if s.len() == 0 {
        Seq::empty()
    } else if keep(s.last()) {
        kept(s.drop_last(), keep).push(s.last())
    } else {
        kept(s.drop_last(), keep)
    }
}

/// The three triage groups of `tasks` at `now`, each sorted as `triage_backlog` sorts it.
pub open spec fn triage_spec(tasks: Seq<TaskWithContext>, now: Timestamp) -> (
    Seq<TaskWithContext>,
    Seq<TaskWithContext>,
    Seq<TaskWithContext>,
) {
    let cutoff = now - STALE_AFTER;
    (
        sort_asc(kept(tasks, |t: TaskWithContext| stale_at(t, cutoff)), TriageOrder::UpdatedAt),
        sort_asc(kept(tasks, |t: TaskWithContext| held_up(t)), TriageOrder::UpdatedAt),
        sort_asc(kept(tasks, |t: TaskWithContext| past_due(t, now)), TriageOrder::DueAt),
    )
}

/// Whether two task lists hold the same values, position by position.
pub open spec fn same_listing(a: Seq<TaskWithContext>, b: Seq<TaskWithContext>) -> bool {
    a.len() == b.len() && forall|i: int| 0 <= i < a.len() ==> same_listed(#[trigger] a[i], b[i])
}

proof fn lemma_insert_pos_same(a: Seq<TaskWithContext>, b: Seq<TaskWithContext>, order: TriageOrder, key: int)
    requires
        same_listing(a, b),
    ensures
        insert_pos_asc(a, order, key) == insert_pos_asc(b, order, key),
    decreases a.len(),
{
    if a.len() > 0 {
        assert(same_listed(a[0], b[0]));
        let a2 = a.drop_first();
        let b2 = b.drop_first();
        assert forall|i: int| 0 <= i < a2.len() implies same_listed(#[trigger] a2[i], b2[i]) by {
            assert(same_listed(a[i + 1], b[i + 1]));
        }
        lemma_insert_pos_same(a2, b2, order, key);
    }
}

proof fn lemma_insert_same(a: Seq<TaskWithContext>, b: Seq<TaskWithContext>, x: TaskWithContext, y: TaskWithContext, k: int)
    requires
        same_listing(a, b),
        same_listed(x, y),
        0 <= k <= a.len(),
    ensures
        same_listing(a.take(k).push(x) + a.skip(k), b.take(k).push(y) + b.skip(k)),
{
    let l = a.take(k).push(x) + a.skip(k);
    let r = b.take(k).push(y) + b.skip(k);
    assert forall|i: int| 0 <= i < l.len() implies same_listed(#[trigger] l[i], r[i]) by {
        if i < k {
            assert(l[i] == a[i] && r[i] == b[i]);
        } else if i > k {
            assert(l[i] == a[i - 1] && r[i] == b[i - 1]);
        }
    }
}

/// Step of a triage group: the group after the next task, which `keep` holds for or not.
proof fn lemma_group_step(
    group: Seq<TaskWithContext>,
    prefix: Seq<TaskWithContext>,
    t: TaskWithContext,
    keep: spec_fn(TaskWithContext) -> bool,
    order: TriageOrder,
)
    requires
        same_listing(group, sort_asc(kept(prefix, keep), order)),
    ensures
        keep(t) ==> ({
            let k = insert_pos_asc(group, order, triage_key(order, t));
            &&& k == insert_pos_asc(sort_asc(kept(prefix, keep), order), order, triage_key(order, t))
            &&& sort_asc(kept(prefix.push(t), keep), order) == ({
                let s = sort_asc(kept(prefix, keep), order);
                s.take(k).push(t) + s.skip(k)
            })
        }),
        !keep(t) ==> sort_asc(kept(prefix.push(t), keep), order) == sort_asc(kept(prefix, keep), order),
{
    assert(prefix.push(t).drop_last() =~= prefix);
    lemma_insert_pos_same(group, sort_asc(kept(prefix, keep), order), order, triage_key(order, t));
    if keep(t) {
        assert(kept(prefix, keep).push(t).drop_last() =~= kept(prefix, keep));
    }
}

/// Group open tasks for review at `now`: stale ones (not held up and untouched for fourteen
/// days), held-up ones, and overdue ones; the first two ordered by last update, the third by
/// due time, ties keeping the input order.
pub fn triage_backlog(tasks: &[TaskWithContext], now: Timestamp) -> (r: BacklogTriage)
    requires
        now >= i64::MIN + STALE_AFTER,
    ensures
        r.generated_at == now,
        same_listing(r.stale@, triage_spec(tasks@, now).0),
        same_listing(r.blocked@, triage_spec(tasks@, now).1),
        same_listing(r.overdue@, triage_spec(tasks@, now).2),
{
    let cutoff = now - STALE_AFTER;
    let ghost stale_p = |t: TaskWithContext| stale_at(t, cutoff as int);
    let ghost held_p = |t: TaskWithContext| held_up(t);
    let ghost due_p = |t: TaskWithContext| past_due(t, now);
    let mut stale: Vec<TaskWithContext> = Vec::new();
    let mut blocked: Vec<TaskWithContext> = Vec::new();
    let mut overdue: Vec<TaskWithContext> = Vec::new();
    let mut i: usize = 0;
    proof {
        assert(tasks@.subrange(0, 0) =~= Seq::<TaskWithContext>::empty());
    }
    while i < tasks.len()
        invariant
            i <= tasks@.len(),
            cutoff == now - STALE_AFTER,
            stale_p == (|t: TaskWithContext| stale_at(t, cutoff as int)),
            held_p == (|t: TaskWithContext| held_up(t)),
            due_p == (|t: TaskWithContext| past_due(t, now)),
            same_listing(stale@, sort_asc(kept(tasks@.subrange(0, i as int), stale_p), TriageOrder::UpdatedAt)),
            same_listing(blocked@, sort_asc(kept(tasks@.subrange(0, i as int), held_p), TriageOrder::UpdatedAt)),
            same_listing(overdue@, sort_asc(kept(tasks@.subrange(0, i as int), due_p), TriageOrder::DueAt)),
        decreases tasks@.len() - i,
    {
        let t = &tasks[i];
        let is_blocked = t.task.status == TaskStatus::Blocked || t.task.status == TaskStatus::Waiting
            || t.task.blocked_reason.is_some();
        let is_overdue = match t.task.due_at {
            Some(d) => d < now,
            None => false,
        };
        let is_stale = t.task.updated_at < cutoff && !is_blocked;
        let ghost prefix = tasks@.subrange(0, i as int);
        proof {
            assert(tasks@.subrange(0, i as int + 1) =~= prefix.push(tasks@[i as int]));
            assert(is_stale == stale_p(*t));
            assert(is_blocked == held_p(*t));
            assert(is_overdue == due_p(*t));
            lemma_group_step(stale@, prefix, *t, stale_p, TriageOrder::UpdatedAt);
            lemma_group_step(blocked@, prefix, *t, held_p, TriageOrder::UpdatedAt);
            lemma_group_step(overdue@, prefix, *t, due_p, TriageOrder::DueAt);
        }
        if is_stale {
            let ghost before = stale@;
            let d = t.duplicate();
            proof {
                assert(triage_key(TriageOrder::UpdatedAt, d) == triage_key(TriageOrder::UpdatedAt, *t));
            }
            insert_ascending(&mut stale, d, TriageOrder::UpdatedAt);
            proof {
                let k = insert_pos_asc(before, TriageOrder::UpdatedAt, triage_key(TriageOrder::UpdatedAt, *t));
                lemma_insert_pos_bound(before, TriageOrder::UpdatedAt, triage_key(TriageOrder::UpdatedAt, *t));
                lemma_insert_same(before, sort_asc(kept(prefix, stale_p), TriageOrder::UpdatedAt), d, *t, k);
            }
        }
        if is_blocked {
            let ghost before = blocked@;
            let d = t.duplicate();
            proof {
                assert(triage_key(TriageOrder::UpdatedAt, d) == triage_key(TriageOrder::UpdatedAt, *t));
            }
            insert_ascending(&mut blocked, d, TriageOrder::UpdatedAt);
            proof {
                let k = insert_pos_asc(before, TriageOrder::UpdatedAt, triage_key(TriageOrder::UpdatedAt, *t));
                lemma_insert_pos_bound(before, TriageOrder::UpdatedAt, triage_key(TriageOrder::UpdatedAt, *t));
                lemma_insert_same(before, sort_asc(kept(prefix, held_p), TriageOrder::UpdatedAt), d, *t, k);
            }
        }
        if is_overdue {
            let ghost before = overdue@;
            let d = t.duplicate();
            proof {
                assert(triage_key(TriageOrder::DueAt, d) == triage_key(TriageOrder::DueAt, *t));
            }
            insert_ascending(&mut overdue, d, TriageOrder::DueAt);
            proof {
                let k = insert_pos_asc(before, TriageOrder::DueAt, triage_key(TriageOrder::DueAt, *t));
                lemma_insert_pos_bound(before, TriageOrder::DueAt, triage_key(TriageOrder::DueAt, *t));
                lemma_insert_same(before, sort_asc(kept(prefix, due_p), TriageOrder::DueAt), d, *t, k);
            }
        }
        i = i + 1;
    }
    proof {
        assert(tasks@.subrange(0, tasks@.len() as int) =~= tasks@);
    }
    BacklogTriage { generated_at: now, stale, blocked, overdue }
}

/// The board's candidates for the next task, in order: now, overdue, due soon, next up.
pub open spec fn candidates(b: BoardState) -> Seq<ScoredTask> {
    b.now@ + b.overdue@ + b.due_soon@ + b.next_up@
}

/// The position of the last highest-scoring task, or -1 for none.
pub open spec fn last_max_index(s: Seq<ScoredTask>) -> int
    decreases s.len(),
{
    if s.len() == 0 {
        -1
    } else {
        let p = last_max_index(s.drop_last());
        if p < 0 || s.last().urgency_score >= s[p].urgency_score {
            s.len() - 1
        } else {
            p
        }
    }
}

/// Law: the last highest-scoring task scores at least as much as every task, and more than
/// every task after it.
pub proof fn lemma_last_max(s: Seq<ScoredTask>)
    ensures
        s.len() == 0 <==> last_max_index(s) == -1,
        s.len() > 0 ==> 0 <= last_max_index(s) < s.len(),
        forall|k: int| 0 <= k < s.len() ==> (#[trigger] s[k]).urgency_score <= s[last_max_index(s)].urgency_score,
        forall|k: int| last_max_index(s) < k < s.len() ==> (#[trigger] s[k]).urgency_score < s[last_max_index(s)].urgency_score,
    decreases s.len(),
{
    if s.len() > 0 {
        let d = s.drop_last();
        lemma_last_max(d);
        let p = last_max_index(d);
        let m = last_max_index(s);
        if p >= 0 {
            assert(s[p] == d[p]);
        }
        assert forall|k: int| 0 <= k < s.len() implies (#[trigger] s[k]).urgency_score
            <= s[m].urgency_score by {
            if k < s.len() - 1 {
                assert(s[k] == d[k]);
            }
        }
        assert forall|k: int| m < k < s.len() implies (#[trigger] s[k]).urgency_score
            < s[m].urgency_score by {
            if k < s.len() - 1 {
                assert(s[k] == d[k]);
            }
        }
    }
}

/// The best of `best` (the last highest-scoring task of `prefix`) and the tasks of `col`.
fn scan_best<'a>(col: &'a Vec<ScoredTask>, best: Option<&'a ScoredTask>, Ghost(prefix): Ghost<Seq<ScoredTask>>) -> (r: Option<&'a ScoredTask>)
    requires
        match best {
            None => prefix.len() == 0,
            Some(b) => prefix.len() > 0 && *b == prefix[last_max_index(prefix)],
        },
    ensures
        match r {
            None => (prefix + col@).len() == 0,
            Some(b) => (prefix + col@).len() > 0 && *b == (prefix + col@)[last_max_index(prefix + col@)],
        },
{
    proof {
        lemma_last_max(prefix);
        assert(prefix + col@.subrange(0, 0) =~= prefix);
    }
    let mut best = best;
    let mut i: usize = 0;
    while i < col.len()
        invariant
            i <= col@.len(),
            match best {
                None => (prefix + col@.subrange(0, i as int)).len() == 0,
                Some(b) => (prefix + col@.subrange(0, i as int)).len() > 0 && *b == (prefix
                    + col@.subrange(0, i as int))[last_max_index(prefix + col@.subrange(0, i as int))],
            },
        decreases col@.len() - i,
    {
        let ghost before = prefix + col@.subrange(0, i as int);
        let ghost after = prefix + col@.subrange(0, i as int + 1);
        proof {
            assert(after.drop_last() =~= before);
            assert(after.last() == col@[i as int]);
            lemma_last_max(before);
            if before.len() > 0 {
                assert(after[last_max_index(before)] == before[last_max_index(before)]);
            }
        }
        let c = &col[i];
        best = match best {
            None => Some(c),
            Some(b) => if c.urgency_score >= b.urgency_score {
                Some(c)
            } else {
                Some(b)
            },
        };
        i = i + 1;
    }
    proof {
        assert(prefix + col@.subrange(0, col@.len() as int) =~= prefix + col@);
    }
    best
}

/// The next task to take: the highest-scoring task on the board's now, overdue, due-soon and
/// next-up columns, the last of them on a tie; none on an empty board.
pub fn suggest_next_task(board: &BoardState) -> (r: Option<ScoredTask>)
    ensures
        match r {
            None => candidates(*board).len() == 0,
            Some(t) => candidates(*board).len() > 0 && same_scored(t, candidates(*board)[last_max_index(candidates(*board))]),
        },
{
    let b = scan_best(&board.now, None, Ghost(Seq::empty()));
    proof {
        assert(Seq::<ScoredTask>::empty() + board.now@ =~= board.now@);
    }
    let b = scan_best(&board.overdue, b, Ghost(board.now@));
    let b = scan_best(&board.due_soon, b, Ghost(board.now@ + board.overdue@));
    let b = scan_best(&board.next_up, b, Ghost(board.now@ + board.overdue@ + board.due_soon@));
    match b {
        Some(t) => Some(t.duplicate()),
        None => None,
    }
}

/// Today's focus plan: the eight highest-scoring candidates (ties in board order) and the
/// counts of overdue and due-soon tasks.
#[derive(Clone, Debug)]
pub struct TodayPlan {
    pub generated_at: Timestamp,
    pub focus: Vec<ScoredTask>,
    pub overdue_count: usize,
    pub due_soon_count: usize,
}

/// Whether two scored lists hold the same values, position by position.
pub open spec fn same_scored_list(a: Seq<ScoredTask>, b: Seq<ScoredTask>) -> bool {
    a.len() == b.len() && forall|i: int| 0 <= i < a.len() ==> same_scored(#[trigger] a[i], b[i])
}

proof fn lemma_insert_pos_same_scored(a: Seq<ScoredTask>, b: Seq<ScoredTask>, score: i32)
    requires
        same_scored_list(a, b),
    ensures
        insert_pos(a, score) == insert_pos(b, score),
    decreases a.len(),
{
    if a.len() > 0 {
        assert(same_scored(a[0], b[0]));
        let a2 = a.drop_first();
        let b2 = b.drop_first();
        assert forall|i: int| 0 <= i < a2.len() implies same_scored(#[trigger] a2[i], b2[i]) by {
            assert(same_scored(a[i + 1], b[i + 1]));
        }
        lemma_insert_pos_same_scored(a2, b2, score);
    }
}

proof fn lemma_insert_desc_same(a: Seq<ScoredTask>, b: Seq<ScoredTask>, x: ScoredTask, y: ScoredTask)
    requires
        same_scored_list(a, b),
        same_scored(x, y),
    ensures
        same_scored_list(insert_desc(a, x), insert_desc(b, y)),
{
    lemma_insert_pos_same_scored(a, b, x.urgency_score);
    crate::board::lemma_insert_pos_range(a, x.urgency_score);
    let k = insert_pos(a, x.urgency_score);
    let l = insert_desc(a, x);
    let r = insert_desc(b, y);
    assert forall|i: int| 0 <= i < l.len() implies same_scored(#[trigger] l[i], r[i]) by {
        if i < k {
            assert(l[i] == a[i] && r[i] == b[i]);
        } else if i > k {
            assert(l[i] == a[i - 1] && r[i] == b[i - 1]);
        }
    }
}

fn add_sorted(sorted: &mut Vec<ScoredTask>, col: &Vec<ScoredTask>, Ghost(prefix): Ghost<Seq<ScoredTask>>)
    requires
        same_scored_list(old(sorted)@, sort_desc(prefix)),
    ensures
        same_scored_list(final(sorted)@, sort_desc(prefix + col@)),
{
    let mut i: usize = 0;
    proof {
        assert(prefix + col@.subrange(0, 0) =~= prefix);
    }
    while i < col.len()
        invariant
            i <= col@.len(),
            same_scored_list(sorted@, sort_desc(prefix + col@.subrange(0, i as int))),
        decreases col@.len() - i,
    {
        let ghost before = sorted@;
        let ghost pre = prefix + col@.subrange(0, i as int);
        let ghost post = prefix + col@.subrange(0, i as int + 1);
        let d = col[i].duplicate();
        insert_sorted(sorted, d);
        proof {
            assert(post.drop_last() =~= pre);
            assert(post.last() == col@[i as int]);
            lemma_insert_desc_same(before, sort_desc(pre), d, col@[i as int]);
        }
        i = i + 1;
    }
    proof {
        assert(prefix + col@.subrange(0, col@.len() as int) =~= prefix + col@);
    }
}

/// The focus of today's plan: the board's candidates stably sorted by descending score, at most
/// eight of them.
pub open spec fn focus_spec(b: BoardState) -> Seq<ScoredTask> {
    let s = sort_desc(candidates(b));
    if s.len() <= 8 {
        s
    } else {
        s.take(8)
    }
}

/// Today's focus plan from the board.
pub fn plan_today(board: &BoardState) -> (r: TodayPlan)
    ensures
        r.generated_at == board.generated_at,
        same_scored_list(r.focus@, focus_spec(*board)),
        r.overdue_count == board.overdue@.len(),
        r.due_soon_count == board.due_soon@.len(),
{
    let mut sorted: Vec<ScoredTask> = Vec::new();
    proof {
        assert(sort_desc(Seq::<ScoredTask>::empty()) =~= Seq::<ScoredTask>::empty());
        assert(Seq::<ScoredTask>::empty() + board.now@ =~= board.now@);
    }
    add_sorted(&mut sorted, &board.now, Ghost(Seq::empty()));
    add_sorted(&mut sorted, &board.overdue, Ghost(board.now@));
    add_sorted(&mut sorted, &board.due_soon, Ghost(board.now@ + board.overdue@));
    add_sorted(&mut sorted, &board.next_up, Ghost(board.now@ + board.overdue@ + board.due_soon@));
    let ghost full = sorted@;
    sorted.truncate(8);
    proof {
        let spec = sort_desc(candidates(*board));
        if full.len() > 8 {
            assert(sorted@ =~= full.take(8));
            assert forall|i: int| 0 <= i < sorted@.len() implies same_scored(#[trigger] sorted@[i], focus_spec(*board)[i]) by {
                assert(sorted@[i] == full[i]);
                assert(focus_spec(*board)[i] == spec[i]);
            }
        } else {
            assert(sorted@ =~= full);
        }
    }
    TodayPlan {
        generated_at: board.generated_at,
        focus: sorted,
        overdue_count: board.overdue.len(),
        due_soon_count: board.due_soon.len(),
    }
}

/// The statuses in the order of their text forms, as a sorted map keyed by text lists them.
pub open spec fn status_order() -> Seq<TaskStatus> {
    seq![
        TaskStatus::Backlog,
        TaskStatus::Blocked,
        TaskStatus::Canceled,
        TaskStatus::Done,
        TaskStatus::InProgress,
        TaskStatus::Inbox,
        TaskStatus::Ready,
        TaskStatus::Scheduled,
        TaskStatus::Waiting
    ]
}

/// How many tasks `keep` holds for.
pub open spec fn count_where(tasks: Seq<TaskWithContext>, keep: spec_fn(TaskWithContext) -> bool) -> nat
    decreases tasks.len(),
{
    if tasks.len() == 0 {
        0
    } else {
        count_where(tasks.drop_last(), keep) + if keep(tasks.last()) {
            1nat
        } else {
            0nat
        }
    }
}

/// The status counts of a project summary: (status text, count) for each status that occurs,
/// in text order.
pub open spec fn status_counts(tasks: Seq<TaskWithContext>, order: Seq<TaskStatus>) -> Seq<(Seq<char>, nat)>
    decreases order.len(),
{
    if order.len() == 0 {
        Seq::empty()
    } else {
        let before = status_counts(tasks, order.drop_last());
        let st = order.last();
        let n = count_where(tasks, |t: TaskWithContext| t.task.status == st);
        if n > 0 {
            before.push((st.text(), n))
        } else {
            before
        }
    }
}

/// Whether an open task (neither done nor canceled) is past its due time at `now`.
pub open spec fn open_and_overdue(t: TaskWithContext, now: Timestamp) -> bool {
    t.task.status != TaskStatus::Done && t.task.status != TaskStatus::Canceled && past_due(t, now)
}

/// Whether a task counts as blocked in a project summary: blocked, or carrying a reason.
pub open spec fn counted_blocked(t: TaskWithContext) -> bool {
    t.task.status == TaskStatus::Blocked || t.task.blocked_reason is Some
}

/// The scored tasks that belong to a project, in order.
pub open spec fn of_project(s: Seq<ScoredTask>, project_id: Seq<char>) -> Seq<ScoredTask>
    decreases s.len(),
{
    if s.len() == 0 {
        Seq::empty()
    } else if s.last().context.task.project_id@ == project_id {
        of_project(s.drop_last(), project_id).push(s.last())
    } else {
        of_project(s.drop_last(), project_id)
    }
}

/// The board candidates that belong to a project.
pub open spec fn project_candidates(b: BoardState, project_id: Seq<char>) -> Seq<ScoredTask> {
    of_project(candidates(b), project_id)
}

/// A project's summary: its task counts by status, open overdue and blocked counts, and the
/// best next task of the project on the board.
#[derive(Clone, Debug)]
pub struct ProjectSummary {
    pub project_id: String,
    pub project_name: String,
    pub total_tasks: usize,
    pub by_status: Vec<(String, usize)>,
    pub overdue_count: usize,
    pub blocked_count: usize,
    pub suggested_next: Option<ScoredTask>,
}

fn count_tasks_where_status(tasks: &[TaskWithContext], st: TaskStatus) -> (n: usize)
    ensures
        n == count_where(tasks@, |t: TaskWithContext| t.task.status == st),
{
    let ghost keep = |t: TaskWithContext| t.task.status == st;
    let mut n: usize = 0;
    let mut i: usize = 0;
    proof {
        assert(tasks@.subrange(0, 0) =~= Seq::<TaskWithContext>::empty());
    }
    while i < tasks.len()
        invariant
            i <= tasks@.len(),
            keep == (|t: TaskWithContext| t.task.status == st),
            n == count_where(tasks@.subrange(0, i as int), keep),
            n <= i,
        decreases tasks@.len() - i,
    {
        proof {
            let pre = tasks@.subrange(0, i as int + 1);
            assert(pre.drop_last() =~= tasks@.subrange(0, i as int));
            assert(pre.last() == tasks@[i as int]);
        }
        if tasks[i].task.status == st {
            n = n + 1;
        }
        i = i + 1;
    }
    proof {
        assert(tasks@.subrange(0, tasks@.len() as int) =~= tasks@);
    }
    n
}

fn scan_project_best<'a>(
    col: &'a Vec<ScoredTask>,
    project_id: &str,
    best: Option<&'a ScoredTask>,
    Ghost(prefix): Ghost<Seq<ScoredTask>>,
) -> (r: Option<&'a ScoredTask>)
    requires
        match best {
            None => of_project(prefix, project_id@).len() == 0,
            Some(b) => {
                let f = of_project(prefix, project_id@);
                f.len() > 0 && *b == f[last_max_index(f)]
            },
        },
    ensures
        match r {
            None => of_project(prefix + col@, project_id@).len() == 0,
            Some(b) => {
                let f = of_project(prefix + col@, project_id@);
                f.len() > 0 && *b == f[last_max_index(f)]
            },
        },
{
    proof {
        assert(prefix + col@.subrange(0, 0) =~= prefix);
    }
    let mut best = best;
    let mut i: usize = 0;
    while i < col.len()
        invariant
            i <= col@.len(),
            match best {
                None => of_project(prefix + col@.subrange(0, i as int), project_id@).len() == 0,
                Some(b) => {
                    let f = of_project(prefix + col@.subrange(0, i as int), project_id@);
                    f.len() > 0 && *b == f[last_max_index(f)]
                },
            },
        decreases col@.len() - i,
    {
        let ghost before = prefix + col@.subrange(0, i as int);
        let ghost after = prefix + col@.subrange(0, i as int + 1);
        let c = &col[i];
        proof {
            assert(after.drop_last() =~= before);
            assert(after.last() == col@[i as int]);
            assert(after =~= before.push(*c));
            assert(after.drop_last() =~= before);
            lemma_last_max(of_project(before, project_id@));
            let fb = of_project(before, project_id@);
            if fb.len() > 0 {
                assert(fb.push(*c)[last_max_index(fb)] == fb[last_max_index(fb)]);
            }
            assert(fb.push(*c).drop_last() =~= fb);
        }
        if str_eq(c.context.task.project_id.as_str(), project_id) {
            best = match best {
                None => Some(c),
                Some(b) => if c.urgency_score >= b.urgency_score {
                    Some(c)
                } else {
                    Some(b)
                },
            };
        }
        i = i + 1;
    }
    proof {
        assert(prefix + col@.subrange(0, col@.len() as int) =~= prefix + col@);
    }
    best
}

/// Summarize a project at `now` from its tasks and the board.
pub fn summarize_project(project: &Project, tasks: &[TaskWithContext], board: &BoardState, now: Timestamp) -> (r:
    ProjectSummary)
    ensures
        r.project_id == project.id,
        r.project_name == project.name,
        r.total_tasks == tasks@.len(),
        r.by_status@.len() == status_counts(tasks@, status_order()).len(),
        forall|k: int| 0 <= k < r.by_status@.len() ==> (#[trigger] r.by_status@[k]).0@ == status_counts(tasks@, status_order())[k].0
            && r.by_status@[k].1 == status_counts(tasks@, status_order())[k].1,
        r.overdue_count == count_where(tasks@, |t: TaskWithContext| open_and_overdue(t, now)),
        r.blocked_count == count_where(tasks@, |t: TaskWithContext| counted_blocked(t)),
        match r.suggested_next {
            None => project_candidates(*board, project.id@).len() == 0,
            Some(t) => project_candidates(*board, project.id@).len() > 0 && same_scored(t, project_candidates(*board, project.id@)[last_max_index(project_candidates(*board, project.id@))]),
        },
{
    let ghost order = status_order();
    let statuses: [TaskStatus; 9] = [
        TaskStatus::Backlog,
        TaskStatus::Blocked,
        TaskStatus::Canceled,
        TaskStatus::Done,
        TaskStatus::InProgress,
        TaskStatus::Inbox,
        TaskStatus::Ready,
        TaskStatus::Scheduled,
        TaskStatus::Waiting,
    ];
    proof {
        assert(statuses@ =~= order);
    }
    let mut by_status: Vec<(String, usize)> = Vec::new();
    let mut j: usize = 0;
    proof {
        assert(order.subrange(0, 0) =~= Seq::<TaskStatus>::empty());
    }
    while j < 9
        invariant
            j <= 9,
            statuses@ == order,
            order == status_order(),
            by_status@.len() == status_counts(tasks@, order.subrange(0, j as int)).len(),
            forall|k: int| 0 <= k < by_status@.len() ==> (#[trigger] by_status@[k]).0@ == status_counts(tasks@, order.subrange(0, j as int))[k].0
                && by_status@[k].1 == status_counts(tasks@, order.subrange(0, j as int))[k].1,
        decreases 9 - j,
    {
        let st = statuses[j];
        let n = count_tasks_where_status(tasks, st);
        proof {
            let pre = order.subrange(0, j as int + 1);
            assert(pre.drop_last() =~= order.subrange(0, j as int));
            assert(pre.last() == st);
        }
        if n > 0 {
            by_status.push((to_string(st.as_str()), n));
        }
        j = j + 1;
    }
    proof {
        assert(order.subrange(0, 9) =~= order);
    }
    let ghost overdue_p = |t: TaskWithContext| open_and_overdue(t, now);
    let ghost blocked_p = |t: TaskWithContext| counted_blocked(t);
    let mut overdue_count: usize = 0;
    let mut blocked_count: usize = 0;
    let mut i: usize = 0;
    proof {
        assert(tasks@.subrange(0, 0) =~= Seq::<TaskWithContext>::empty());
    }
    while i < tasks.len()
        invariant
            i <= tasks@.len(),
            overdue_p == (|t: TaskWithContext| open_and_overdue(t, now)),
            blocked_p == (|t: TaskWithContext| counted_blocked(t)),
            overdue_count == count_where(tasks@.subrange(0, i as int), overdue_p),
            blocked_count == count_where(tasks@.subrange(0, i as int), blocked_p),
            overdue_count <= i,
            blocked_count <= i,
        decreases tasks@.len() - i,
    {
        let t = &tasks[i];
        proof {
            let pre = tasks@.subrange(0, i as int + 1);
            assert(pre.drop_last() =~= tasks@.subrange(0, i as int));
            assert(pre.last() == tasks@[i as int]);
        }
        let due_passed = match t.task.due_at {
            Some(d) => d < now,
            None => false,
        };
        if t.task.status != TaskStatus::Done && t.task.status != TaskStatus::Canceled && due_passed {
            overdue_count = overdue_count + 1;
        }
        if t.task.status == TaskStatus::Blocked || t.task.blocked_reason.is_some() {
            blocked_count = blocked_count + 1;
        }
        i = i + 1;
    }
    proof {
        assert(tasks@.subrange(0, tasks@.len() as int) =~= tasks@);
        assert(Seq::<ScoredTask>::empty() + board.now@ =~= board.now@);
    }
    let pid = project.id.as_str();
    let b = scan_project_best(&board.now, pid, None, Ghost(Seq::empty()));
    let b = scan_project_best(&board.overdue, pid, b, Ghost(board.now@));
    let b = scan_project_best(&board.due_soon, pid, b, Ghost(board.now@ + board.overdue@));
    let b = scan_project_best(&board.next_up, pid, b, Ghost(board.now@ + board.overdue@ + board.due_soon@));
    ProjectSummary {
        project_id: project.id.clone(),
        project_name: project.name.clone(),
        total_tasks: tasks.len(),
        by_status,
        overdue_count,
        blocked_count,
        suggested_next: match b {
            Some(t) => Some(t.duplicate()),
            None => None,
        },
    }
}

} // verus!
