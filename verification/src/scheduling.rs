//! Time-block editing, day-timeline layout, recurrence and calendar export.
use vstd::prelude::*;
use crate::models::{CalendarBlock, CalendarBlockStatus, RecurrenceRule};
use crate::text::{push_str, to_string};
use crate::time::{utc_day, utc_day_of, Timestamp, NANOS_PER_DAY, NANOS_PER_MINUTE, NANOS_PER_WEEK};

verus! {

/// Increment scheduled blocks snap to when dragging or resizing, in minutes.
pub const SCHEDULE_SNAP_MINUTES: i64 = 15;

/// Shortest scheduled block a resize may produce, in minutes.
pub const MIN_BLOCK_MINUTES: i64 = 15;

/// Which edge of a scheduled block a resize drag is moving.
#[derive(Clone, Copy, Debug, PartialEq, Eq, Structural)]
pub enum BlockEdge {
    /// The top handle: moves the start time.
    Start,
    /// The bottom handle: moves the end time.
    End,
}

/// `minutes` rounded to the nearest multiple of the snap increment (a quotient is never
/// exactly halfway, since the increment is odd).
pub open spec fn snapped(minutes: int) -> int {
    ((minutes + 7) / 15) * 15
}

/// Largest magnitude of a snapped delta, so that the rounding is exact.
pub const MAX_SNAP_INPUT: i64 = 4_503_599_627_370_496;

/// Snap a minute delta to the nearest multiple of [`SCHEDULE_SNAP_MINUTES`].
pub fn snap_to_increment(minutes: i64) -> (r: i64)
    requires
        -MAX_SNAP_INPUT <= minutes <= MAX_SNAP_INPUT,
    ensures
        r == snapped(minutes as int),
        r % 15 == 0,
        -7 <= minutes - r <= 7,
{
    let shifted = minutes + 7;
    let q = if shifted >= 0 {
        shifted / 15
    } else {
        let m: i64 = -(shifted + 1);
        let d = m / 15;
        assert((shifted as int) / 15 == -(d as int) - 1) by {
            assert(m as int == (d as int) * 15 + (m as int) % 15);
        }
        -d - 1
    };
    q * 15
}

/// A snapped minute delta as a span of nanoseconds.
pub open spec fn snapped_nanos(delta_minutes: int) -> int {
    snapped(delta_minutes) * (NANOS_PER_MINUTE as int)
}

/// The block `[start, end)` after dragging `edge` by `delta_minutes`: the delta is snapped, the
/// block keeps at least [`MIN_BLOCK_MINUTES`], and the dragged edge never crosses the other.
pub open spec fn resized(start: int, end: int, edge: BlockEdge, delta_minutes: int) -> (int, int) {
    let min = MIN_BLOCK_MINUTES * NANOS_PER_MINUTE;
    match edge {
        BlockEdge::Start => {
            let moved = start + snapped_nanos(delta_minutes);
            (if moved < end - min { moved } else { end - min }, end)
        },
        BlockEdge::End => {
            let moved = end + snapped_nanos(delta_minutes);
            (start, if moved > start + min { moved } else { start + min })
        },
    }
}

/// Whether a snapped drag of `delta_minutes` on `[start, end)` stays within the instants
/// this library represents.
pub open spec fn drag_in_range(start: int, end: int, delta_minutes: int) -> bool {
    &&& -MAX_SNAP_INPUT <= delta_minutes <= MAX_SNAP_INPUT
    &&& i64::MIN <= start + snapped_nanos(delta_minutes) <= i64::MAX
    &&& i64::MIN <= end + snapped_nanos(delta_minutes) <= i64::MAX
    &&& i64::MIN <= start + MIN_BLOCK_MINUTES * NANOS_PER_MINUTE <= i64::MAX
    &&& i64::MIN <= end - MIN_BLOCK_MINUTES * NANOS_PER_MINUTE <= i64::MAX
}

/// Apply a resize drag to a `[start, end)` block by moving one edge.
pub fn resize_block(start: Timestamp, end: Timestamp, edge: BlockEdge, delta_minutes: i64) -> (r: (
    Timestamp,
    Timestamp,
))
    requires
        drag_in_range(start as int, end as int, delta_minutes as int),
    ensures
        (r.0 as int, r.1 as int) == resized(start as int, end as int, edge, delta_minutes as int),
        r.1 - r.0 >= MIN_BLOCK_MINUTES * NANOS_PER_MINUTE,
{
    let snap = snap_to_increment(delta_minutes);
    assert(-MAX_SNAP_INPUT - 7 <= snap <= MAX_SNAP_INPUT + 7);
    let offset: i128 = snap as i128 * NANOS_PER_MINUTE as i128;
    let min: i64 = MIN_BLOCK_MINUTES * NANOS_PER_MINUTE;
    match edge {
        BlockEdge::Start => {
            let moved = (start as i128 + offset) as i64;
            let limit = end - min;
            (if moved < limit { moved } else { limit }, end)
        },
        BlockEdge::End => {
            let moved = (end as i128 + offset) as i64;
            let limit = start + min;
            (start, if moved > limit { moved } else { limit })
        },
    }
}

/// Move a `[start, end)` block by `delta_minutes` (snapped), keeping its length.
pub fn move_block(start: Timestamp, end: Timestamp, delta_minutes: i64) -> (r: (Timestamp, Timestamp))
    requires
        -MAX_SNAP_INPUT <= delta_minutes <= MAX_SNAP_INPUT,
        i64::MIN <= start + snapped_nanos(delta_minutes as int) <= i64::MAX,
        i64::MIN <= end + snapped_nanos(delta_minutes as int) <= i64::MAX,
    ensures
        r.0 == start + snapped_nanos(delta_minutes as int),
        r.1 == end + snapped_nanos(delta_minutes as int),
        r.1 - r.0 == end - start,
{
    let snap = snap_to_increment(delta_minutes);
    assert(-MAX_SNAP_INPUT - 7 <= snap <= MAX_SNAP_INPUT + 7);
    let offset: i128 = snap as i128 * NANOS_PER_MINUTE as i128;
    ((start as i128 + offset) as i64, (end as i128 + offset) as i64)
}

/// Whether interval `a` sorts before or with interval `b`: by start, then by end.
pub open spec fn interval_le(a: (i64, i64), b: (i64, i64)) -> bool {
    a.0 < b.0 || (a.0 == b.0 && a.1 <= b.1)
}

/// Where index `x` goes among the indices `order` already sorted by interval: after every
/// index whose interval sorts with or before its own, so equal intervals keep input order.
pub open spec fn order_pos(iv: Seq<(i64, i64)>, order: Seq<usize>, x: usize) -> int
    decreases order.len(),
{
    if order.len() == 0 {
        0
    } else if !interval_le(iv[order[0] as int], iv[x as int]) {
        0
    } else {
        1 + order_pos(iv, order.drop_first(), x)
    }
}

/// The indices `0..n` stably sorted by their intervals.
pub open spec fn sorted_order(iv: Seq<(i64, i64)>, n: nat) -> Seq<usize>
    decreases n,
{
    if n == 0 {
        Seq::empty()
    } else {
        let rest = sorted_order(iv, (n - 1) as nat);
        let k = order_pos(iv, rest, (n - 1) as usize);
        rest.take(k).push((n - 1) as usize) + rest.skip(k)
    }
}

/// State of the column packing: per-interval column and cluster width, the open cluster,
/// the end of the last block placed in each of its columns, and where it ends.
pub struct LayoutState {
    pub column: Seq<usize>,
    pub cluster_columns: Seq<usize>,
    pub cluster: Seq<usize>,
    pub column_ends: Seq<i64>,
    pub cluster_end: i64,
}

/// The first column whose last block ends by `start`, or a new column.
pub open spec fn first_free(ends: Seq<i64>, start: i64) -> int
    decreases ends.len(),
{
    if ends.len() == 0 {
        0
    } else if ends[0] <= start {
        0
    } else {
        1 + first_free(ends.drop_first(), start)
    }
}

/// Give every interval of the open cluster the cluster's column count.
pub open spec fn close_cluster(s: LayoutState) -> Seq<usize> {
    Seq::new(
        s.cluster_columns.len(),
        |k: int|
            if s.cluster.contains(k as usize) {
                s.column_ends.len() as usize
            } else {
                s.cluster_columns[k]
            },
    )
}

/// Place interval `i` (the next one in sorted order).
pub open spec fn layout_step(iv: Seq<(i64, i64)>, s: LayoutState, i: usize) -> LayoutState {
    let start = iv[i as int].0;
    let end = iv[i as int].1;
    let fresh = start >= s.cluster_end && s.cluster.len() > 0;
    let s1 = if fresh {
        LayoutState {
            column: s.column,
            cluster_columns: close_cluster(s),
            cluster: Seq::empty(),
            column_ends: Seq::empty(),
            cluster_end: i64::MIN,
        }
    } else {
        s
    };
    let c = first_free(s1.column_ends, start);
    let ends = if c < s1.column_ends.len() {
        s1.column_ends.update(c, end)
    } else {
        s1.column_ends.push(end)
    };
    LayoutState {
        column: s1.column.update(i as int, c as usize),
        cluster_columns: s1.cluster_columns,
        cluster: s1.cluster.push(i),
        column_ends: ends,
        cluster_end: if s1.cluster_end > end { s1.cluster_end } else { end },
    }
}

/// The packing state after placing the first `k` intervals of `order`.
pub open spec fn layout_fold(iv: Seq<(i64, i64)>, order: Seq<usize>, k: nat) -> LayoutState
    decreases k,
{
    if k == 0 {
        LayoutState {
            column: Seq::new(iv.len(), |j: int| 0usize),
            cluster_columns: Seq::new(iv.len(), |j: int| 1usize),
            cluster: Seq::empty(),
            column_ends: Seq::empty(),
            cluster_end: i64::MIN,
        }
    } else {
        layout_step(iv, layout_fold(iv, order, (k - 1) as nat), order[k - 1])
    }
}

/// For each interval, in input order, its `(column, column_count)` on a day timeline:
/// intervals taken in stable order of (start, end) go to the first column free at their start,
/// and a cluster of overlapping intervals shares one column count.
pub open spec fn layout(iv: Seq<(i64, i64)>) -> Seq<(usize, usize)> {
    let order = sorted_order(iv, iv.len());
    let s = layout_fold(iv, order, iv.len());
    let widths = if s.cluster.len() > 0 {
        close_cluster(s)
    } else {
        s.cluster_columns
    };
    Seq::new(iv.len(), |j: int| (s.column[j], widths[j]))
}

proof fn lemma_order_pos_at(iv: Seq<(i64, i64)>, order: Seq<usize>, x: usize, i: int)
    requires
        0 <= i <= order.len(),
        forall|k: int| 0 <= k < i ==> interval_le(iv[order[k] as int], iv[x as int]),
        i == order.len() || !interval_le(iv[order[i] as int], iv[x as int]),
    ensures
        order_pos(iv, order, x) == i,
    decreases order.len(),
{
    if order.len() > 0 && i > 0 {
        let t = order.drop_first();
        assert forall|k: int| 0 <= k < i - 1 implies interval_le(iv[t[k] as int], iv[x as int]) by {
            assert(t[k] == order[k + 1]);
        }
        if i < order.len() {
            assert(t[i - 1] == order[i]);
        }
        lemma_order_pos_at(iv, t, x, i - 1);
    }
}

proof fn lemma_first_free_at(ends: Seq<i64>, start: i64, i: int)
    requires
        0 <= i <= ends.len(),
        forall|k: int| 0 <= k < i ==> ends[k] > start,
        i == ends.len() || ends[i] <= start,
    ensures
        first_free(ends, start) == i,
    decreases ends.len(),
{
    if ends.len() > 0 && i > 0 {
        let t = ends.drop_first();
        assert forall|k: int| 0 <= k < i - 1 implies t[k] > start by {
            assert(t[k] == ends[k + 1]);
        }
        if i < ends.len() {
            assert(t[i - 1] == ends[i]);
        }
        lemma_first_free_at(t, start, i - 1);
    }
}

proof fn lemma_sorted_order_indices(iv: Seq<(i64, i64)>, n: nat)
    ensures
        sorted_order(iv, n).len() == n,
        forall|k: int| 0 <= k < n ==> sorted_order(iv, n)[k] < n,
    decreases n,
{
    if n > 0 {
        lemma_sorted_order_indices(iv, (n - 1) as nat);
        let rest = sorted_order(iv, (n - 1) as nat);
        let k = order_pos(iv, rest, (n - 1) as usize);
        lemma_order_pos_bounds(iv, rest, (n - 1) as usize);
        let r = rest.take(k).push((n - 1) as usize) + rest.skip(k);
        assert forall|j: int| 0 <= j < n implies r[j] < n by {
            if j < k {
                assert(r[j] == rest[j]);
            } else if j > k {
                assert(r[j] == rest[j - 1]);
            }
        }
    }
}

proof fn lemma_order_pos_bounds(iv: Seq<(i64, i64)>, order: Seq<usize>, x: usize)
    ensures
        0 <= order_pos(iv, order, x) <= order.len(),
    decreases order.len(),
{
    if order.len() > 0 && interval_le(iv[order[0] as int], iv[x as int]) {
        lemma_order_pos_bounds(iv, order.drop_first(), x);
    }
}

proof fn lemma_first_free_bound(ends: Seq<i64>, start: i64)
    ensures
        0 <= first_free(ends, start) <= ends.len(),
    decreases ends.len(),
{
    if ends.len() > 0 && ends[0] > start {
        lemma_first_free_bound(ends.drop_first(), start);
    }
}

/// What the packing keeps true: every interval of the open cluster has a column below the
/// cluster's column count so far, and every other interval a column below its width.
pub open spec fn layout_inv(s: LayoutState, n: nat) -> bool {
    &&& s.column.len() == n
    &&& s.cluster_columns.len() == n
    &&& forall|k: usize|
        k < n ==> if s.cluster.contains(k) {
            (#[trigger] s.column[k as int]) < s.column_ends.len()
        } else {
            s.column[k as int] < s.cluster_columns[k as int]
        }
}

proof fn lemma_layout_step_inv(iv: Seq<(i64, i64)>, s: LayoutState, i: usize)
    requires
        layout_inv(s, iv.len()),
        i < iv.len(),
        s.column_ends.len() <= usize::MAX,
    ensures
        layout_inv(layout_step(iv, s, i), iv.len()),
        layout_step(iv, s, i).column_ends.len() <= s.column_ends.len() + 1,
{
    let n = iv.len();
    let start = iv[i as int].0;
    let fresh = start >= s.cluster_end && s.cluster.len() > 0;
    let s1 = if fresh {
        LayoutState {
            column: s.column,
            cluster_columns: close_cluster(s),
            cluster: Seq::empty(),
            column_ends: Seq::empty(),
            cluster_end: i64::MIN,
        }
    } else {
        s
    };
    assert(layout_inv(s1, n)) by {
        if fresh {
            assert forall|k: usize| k < n implies if s1.cluster.contains(k) {
                (#[trigger] s1.column[k as int]) < s1.column_ends.len()
            } else {
                s1.column[k as int] < s1.cluster_columns[k as int]
            } by {
                assert(!s1.cluster.contains(k));
                if s.cluster.contains(k) {
                    assert(s.column[k as int] < s.column_ends.len());
                } else {
                    assert(s.column[k as int] < s.cluster_columns[k as int]);
                }
            }
        }
    }
    lemma_first_free_bound(s1.column_ends, start);
    let r = layout_step(iv, s, i);
    assert(r.cluster == s1.cluster.push(i));
    assert forall|k: usize| k < n implies if r.cluster.contains(k) {
        (#[trigger] r.column[k as int]) < r.column_ends.len()
    } else {
        r.column[k as int] < r.cluster_columns[k as int]
    } by {
        if k == i {
            assert(r.cluster[r.cluster.len() - 1] == i);
        } else {
            assert(r.column[k as int] == s1.column[k as int]);
            if r.cluster.contains(k) {
                assert(s1.cluster.contains(k)) by {
                    let j = choose|j: int| 0 <= j < r.cluster.len() && r.cluster[j] == k;
                    if j == s1.cluster.len() {
                        assert(r.cluster[j] == i);
                    }
                    assert(s1.cluster[j] == k);
                }
                assert(s1.column[k as int] < s1.column_ends.len());
            } else {
                assert(!s1.cluster.contains(k)) by {
                    if s1.cluster.contains(k) {
                        let j = choose|j: int| 0 <= j < s1.cluster.len() && s1.cluster[j] == k;
                        assert(r.cluster[j] == k);
                    }
                }
            }
        }
    }
}

proof fn lemma_layout_fold_inv(iv: Seq<(i64, i64)>, order: Seq<usize>, k: nat)
    requires
        k <= order.len(),
        order.len() <= usize::MAX,
        forall|j: int| 0 <= j < order.len() ==> order[j] < iv.len(),
    ensures
        layout_inv(layout_fold(iv, order, k), iv.len()),
        layout_fold(iv, order, k).column_ends.len() <= k,
    decreases k,
{
    if k > 0 {
        lemma_layout_fold_inv(iv, order, (k - 1) as nat);
        lemma_layout_step_inv(iv, layout_fold(iv, order, (k - 1) as nat), order[k - 1]);
    }
}

/// Law: every block gets a column inside its cluster's width, so a timeline that draws it at
/// offset `column / count` keeps it within the day.
pub proof fn lemma_layout_columns_fit(iv: Seq<(i64, i64)>)
    requires
        iv.len() <= usize::MAX,
    ensures
        layout(iv).len() == iv.len(),
        forall|j: int| 0 <= j < iv.len() ==> (#[trigger] layout(iv)[j]).0 < layout(iv)[j].1,
{
    let order = sorted_order(iv, iv.len());
    lemma_sorted_order_indices(iv, iv.len());
    lemma_layout_fold_inv(iv, order, iv.len());
    let s = layout_fold(iv, order, iv.len());
    let widths = if s.cluster.len() > 0 {
        close_cluster(s)
    } else {
        s.cluster_columns
    };
    assert forall|j: int| 0 <= j < iv.len() implies (#[trigger] layout(iv)[j]).0 < layout(iv)[j].1 by {
        let u = j as usize;
        assert(u as int == j);
        assert(layout(iv)[j] == (s.column[j], widths[j]));
        if s.cluster.contains(u) {
            assert(s.column[u as int] < s.column_ends.len());
        } else {
            assert(s.column[u as int] < s.cluster_columns[u as int]);
        }
    }
}

/// Whether two `[start, end)` intervals share some instant.
pub open spec fn overlaps(a: (i64, i64), b: (i64, i64)) -> bool {
    a.0 < b.1 && b.0 < a.1
}

/// Every interval ends no earlier than it starts.
pub open spec fn intervals_well_formed(iv: Seq<(i64, i64)>) -> bool {
    forall|i: int| 0 <= i < iv.len() ==> (#[trigger] iv[i]).0 <= iv[i].1
}

proof fn lemma_order_pos_props(iv: Seq<(i64, i64)>, order: Seq<usize>, x: usize)
    ensures
        forall|a: int|
            0 <= a < order_pos(iv, order, x) ==> interval_le(
                iv[#[trigger] order[a] as int],
                iv[x as int],
            ),
        order_pos(iv, order, x) < order.len() ==> !interval_le(
            iv[order[order_pos(iv, order, x)] as int],
            iv[x as int],
        ),
    decreases order.len(),
{
    lemma_order_pos_bounds(iv, order, x);
    if order.len() > 0 && interval_le(iv[order[0] as int], iv[x as int]) {
        let t = order.drop_first();
        lemma_order_pos_props(iv, t, x);
        lemma_order_pos_bounds(iv, t, x);
        let p = order_pos(iv, order, x);
        assert forall|a: int| 0 <= a < p implies interval_le(
            iv[#[trigger] order[a] as int],
            iv[x as int],
        ) by {
            if a > 0 {
                assert(order[a] == t[a - 1]);
            }
        }
        if p < order.len() {
            assert(order[p] == t[p - 1]);
        }
    }
}

/// The stable sort lists each index below `n` once, in order of the intervals.
proof fn lemma_sorted_order_perm(iv: Seq<(i64, i64)>, n: nat)
    requires
        n <= usize::MAX,
    ensures
        forall|a: int, b: int|
            #![trigger sorted_order(iv, n)[a], sorted_order(iv, n)[b]]
            0 <= a < b < n ==> interval_le(
                iv[sorted_order(iv, n)[a] as int],
                iv[sorted_order(iv, n)[b] as int],
            ) && sorted_order(iv, n)[a] != sorted_order(iv, n)[b],
        forall|m: usize| m < n ==> #[trigger] sorted_order(iv, n).contains(m),
    decreases n,
{
    lemma_sorted_order_indices(iv, n);
    if n > 0 {
        let x = (n - 1) as usize;
        lemma_sorted_order_perm(iv, (n - 1) as nat);
        lemma_sorted_order_indices(iv, (n - 1) as nat);
        let rest = sorted_order(iv, (n - 1) as nat);
        let k = order_pos(iv, rest, x);
        lemma_order_pos_bounds(iv, rest, x);
        lemma_order_pos_props(iv, rest, x);
        let r = sorted_order(iv, n);
        assert(r == rest.take(k).push(x) + rest.skip(k));
        assert forall|j: int| 0 <= j < n implies #[trigger] r[j] == (if j < k {
            rest[j]
        } else if j == k {
            x
        } else {
            rest[j - 1]
        }) by {}
        assert forall|a: int, b: int| 0 <= a < b < n implies interval_le(
            iv[#[trigger] r[a] as int],
            iv[#[trigger] r[b] as int],
        ) && r[a] != r[b] by {
            if a < k && b < k {
                assert(r[a] == rest[a] && r[b] == rest[b]);
            } else if a < k && b == k {
                assert(r[a] == rest[a]);
                assert(rest[a] < x);
            } else if a < k {
                assert(r[a] == rest[a] && r[b] == rest[b - 1]);
            } else if a == k {
                assert(r[b] == rest[b - 1]);
                assert(rest[b - 1] < x);
                if b - 1 > k {
                    assert(interval_le(iv[rest[k] as int], iv[rest[b - 1] as int]));
                }
            } else {
                assert(r[a] == rest[a - 1] && r[b] == rest[b - 1]);
            }
        }
        assert forall|m: usize| m < n implies #[trigger] r.contains(m) by {
            if m == x {
                assert(r[k] == x);
            } else {
                assert(rest.contains(m));
                let j = choose|j: int| 0 <= j < rest.len() && rest[j] == m;
                if j < k {
                    assert(r[j] == m);
                } else {
                    assert(r[j + 1] == m);
                }
            }
        }
    }
}

/// What the packing keeps true of the first `k` intervals of `order` toward the law that
/// overlapping intervals get distinct columns.
spec fn separation_inv(iv: Seq<(i64, i64)>, order: Seq<usize>, k: nat, s: LayoutState) -> bool {
    let n = order.len();
    &&& (k == 0 ==> s.cluster.len() == 0)
    &&& (k > 0 ==> s.cluster.len() > 0)
    &&& forall|j: int, b: int|
        #![trigger s.cluster[j], order[b]]
        0 <= j < s.cluster.len() && k <= b < n ==> s.cluster[j] != order[b] && iv[s.cluster[j] as int].0
            <= iv[order[b] as int].0
    &&& forall|a: int, b: int|
        #![trigger order[a], order[b]]
        0 <= a < k && 0 <= b < k && a != b && overlaps(iv[order[a] as int], iv[order[b] as int])
            ==> s.column[order[a] as int] != s.column[order[b] as int]
    &&& forall|a: int| 0 <= a < k ==> iv[(#[trigger] order[a]) as int].1 <= s.cluster_end
    &&& forall|a: int, b: int|
        #![trigger order[a], order[b]]
        0 <= a < k <= b < n && !s.cluster.contains(order[a]) ==> iv[order[a] as int].1
            <= iv[order[b] as int].0
    &&& forall|j: int|
        0 <= j < s.cluster.len() ==> {
            let m = #[trigger] s.cluster[j];
            &&& m < iv.len()
            &&& s.column[m as int] < s.column_ends.len()
            &&& iv[m as int].1 <= s.column_ends[s.column[m as int] as int]
        }
}

proof fn lemma_first_free_props(ends: Seq<i64>, start: i64)
    ensures
        first_free(ends, start) < ends.len() ==> ends[first_free(ends, start)] <= start,
        forall|c: int| 0 <= c < first_free(ends, start) ==> #[trigger] ends[c] > start,
    decreases ends.len(),
{
    if ends.len() > 0 && ends[0] > start {
        lemma_first_free_props(ends.drop_first(), start);
        lemma_first_free_bound(ends.drop_first(), start);
        let t = ends.drop_first();
        if first_free(ends, start) < ends.len() {
            assert(ends[first_free(ends, start)] == t[first_free(t, start)]);
        }
        assert forall|c: int| 0 <= c < first_free(ends, start) implies #[trigger] ends[c] > start by {
            if c > 0 {
                assert(ends[c] == t[c - 1]);
            }
        }
    }
}

proof fn lemma_separation_step(iv: Seq<(i64, i64)>, order: Seq<usize>, k: nat)
    requires
        k < order.len(),
        order.len() == iv.len(),
        iv.len() <= usize::MAX,
        intervals_well_formed(iv),
        forall|j: int| 0 <= j < order.len() ==> #[trigger] order[j] < iv.len(),
        forall|a: int, b: int|
            #![trigger order[a], order[b]]
            0 <= a < b < order.len() ==> interval_le(iv[order[a] as int], iv[order[b] as int])
                && order[a] != order[b],
        separation_inv(iv, order, k, layout_fold(iv, order, k)),
        layout_inv(layout_fold(iv, order, k), iv.len()),
        layout_fold(iv, order, k).column_ends.len() <= k,
    ensures
        separation_inv(iv, order, k + 1, layout_fold(iv, order, k + 1)),
{
    let n = order.len();
    let s = layout_fold(iv, order, k);
    let x = order[k as int];
    let start = iv[x as int].0;
    let end = iv[x as int].1;
    assert(start <= end);
    let fresh = start >= s.cluster_end && s.cluster.len() > 0;
    let s1 = if fresh {
        LayoutState {
            column: s.column,
            cluster_columns: close_cluster(s),
            cluster: Seq::empty(),
            column_ends: Seq::empty(),
            cluster_end: i64::MIN,
        }
    } else {
        s
    };
    let c = first_free(s1.column_ends, start);
    lemma_first_free_bound(s1.column_ends, start);
    lemma_first_free_props(s1.column_ends, start);
    let r = layout_fold(iv, order, k + 1);
    assert(r == layout_step(iv, s, x));
    assert(r.cluster == s1.cluster.push(x));
    assert(r.column == s1.column.update(x as int, c as usize));
    assert(c as usize as int == c);
    assert(r.cluster_end >= end && r.cluster_end >= s1.cluster_end);
    // Columns of intervals placed earlier stay as they were.
    assert forall|a: int| 0 <= a < k implies r.column[(#[trigger] order[a]) as int]
        == s.column[order[a] as int] by {
        assert(order[a] != x);
    }
    // The new interval overlaps nothing placed in the column it takes.
    assert forall|a: int| 0 <= a < k && overlaps(iv[order[a] as int], iv[x as int]) implies
        s.column[(#[trigger] order[a]) as int] != c by {
        let p = order[a];
        if fresh {
            assert(iv[p as int].1 <= s.cluster_end);
        } else if s.cluster.contains(p) {
            let j = choose|j: int| 0 <= j < s.cluster.len() && s.cluster[j] == p;
            assert(s.cluster[j] == p);
            assert(iv[p as int].1 <= s.column_ends[s.column[p as int] as int]);
        } else {
            assert(iv[order[a] as int].1 <= iv[order[k as int] as int].0);
        }
    }
    // Part 1: the cluster and what follows.
    assert forall|j: int, b: int|
        #![trigger r.cluster[j], order[b]]
        0 <= j < r.cluster.len() && k + 1 <= b < n implies r.cluster[j] != order[b]
            && iv[r.cluster[j] as int].0 <= iv[order[b] as int].0 by {
        if j == s1.cluster.len() {
            assert(r.cluster[j] == x);
            assert(interval_le(iv[order[k as int] as int], iv[order[b] as int]));
        } else {
            assert(r.cluster[j] == s1.cluster[j]);
            assert(s.cluster[j] == s1.cluster[j]);
            assert(s.cluster[j] != order[b]);
        }
    }
    // Part 2: overlapping pairs get distinct columns.
    assert forall|a: int, b: int|
        #![trigger order[a], order[b]]
        0 <= a < k + 1 && 0 <= b < k + 1 && a != b && overlaps(
            iv[order[a] as int],
            iv[order[b] as int],
        ) implies r.column[order[a] as int] != r.column[order[b] as int] by {
        if a == k {
            assert(r.column[x as int] == c);
            assert(overlaps(iv[order[b] as int], iv[x as int]));
            assert(s.column[order[b] as int] != c);
        } else if b == k {
            assert(r.column[x as int] == c);
            assert(s.column[order[a] as int] != c);
        } else {
            assert(r.column[order[a] as int] == s.column[order[a] as int]);
            assert(r.column[order[b] as int] == s.column[order[b] as int]);
        }
    }
    // Part 3: everything placed ends by the cluster's end.
    assert forall|a: int| 0 <= a < k + 1 implies iv[(#[trigger] order[a]) as int].1
        <= r.cluster_end by {
        if a < k {
            assert(iv[order[a] as int].1 <= s.cluster_end);
        }
    }
    // Part 4: what left the cluster ends before anything later starts.
    assert forall|a: int, b: int|
        #![trigger order[a], order[b]]
        0 <= a < k + 1 <= b < n && !r.cluster.contains(order[a]) implies iv[order[a] as int].1
            <= iv[order[b] as int].0 by {
        let p = order[a];
        assert(interval_le(iv[order[k as int] as int], iv[order[b] as int]));
        if a == k {
            assert(r.cluster[r.cluster.len() - 1] == x);
        } else if fresh {
            assert(iv[p as int].1 <= s.cluster_end);
        } else {
            assert(!s.cluster.contains(p)) by {
                if s.cluster.contains(p) {
                    let j = choose|j: int| 0 <= j < s.cluster.len() && s.cluster[j] == p;
                    assert(r.cluster[j] == p);
                }
            }
            assert(iv[order[a] as int].1 <= iv[order[b] as int].0);
        }
    }
    // Part 5: each cluster member ends by the end recorded for its column.
    assert forall|j: int| 0 <= j < r.cluster.len() implies {
        let m = #[trigger] r.cluster[j];
        &&& m < iv.len()
        &&& r.column[m as int] < r.column_ends.len()
        &&& iv[m as int].1 <= r.column_ends[r.column[m as int] as int]
    } by {
        let m = r.cluster[j];
        if j == s1.cluster.len() {
            assert(m == x);
            assert(r.column[x as int] == c);
        } else {
            assert(m == s1.cluster[j]);
            assert(s.cluster[j] == m);
            assert(m != x) by {
                assert(s.cluster[j] != order[k as int]);
            }
            assert(r.column[m as int] == s.column[m as int]);
            if s.column[m as int] == c {
                assert(s.column_ends[c] <= start);
            }
        }
    }
}

proof fn lemma_separation_fold(iv: Seq<(i64, i64)>, k: nat)
    requires
        k <= iv.len(),
        iv.len() <= usize::MAX,
        intervals_well_formed(iv),
    ensures
        separation_inv(
            iv,
            sorted_order(iv, iv.len()),
            k,
            layout_fold(iv, sorted_order(iv, iv.len()), k),
        ),
    decreases k,
{
    let order = sorted_order(iv, iv.len());
    lemma_sorted_order_indices(iv, iv.len());
    lemma_sorted_order_perm(iv, iv.len());
    if k > 0 {
        lemma_separation_fold(iv, (k - 1) as nat);
        lemma_layout_fold_inv(iv, order, (k - 1) as nat);
        lemma_separation_step(iv, order, (k - 1) as nat);
    }
}

/// Overlapping intervals placed so far are either both in the open cluster, or both out of it
/// with the same column count.
spec fn width_inv(iv: Seq<(i64, i64)>, order: Seq<usize>, k: nat, s: LayoutState) -> bool {
    forall|a: int, b: int|
        #![trigger order[a], order[b]]
        0 <= a < k && 0 <= b < k && a != b && overlaps(iv[order[a] as int], iv[order[b] as int])
            ==> (s.cluster.contains(order[a]) && s.cluster.contains(order[b])) || (
        !s.cluster.contains(order[a]) && !s.cluster.contains(order[b])
            && s.cluster_columns[order[a] as int] == s.cluster_columns[order[b] as int])
}

proof fn lemma_push_contains(c: Seq<usize>, x: usize, m: usize)
    ensures
        c.push(x).contains(m) <==> (c.contains(m) || m == x),
{
    if c.contains(m) {
        let j = choose|j: int| 0 <= j < c.len() && c[j] == m;
        assert(c.push(x)[j] == m);
    }
    if m == x {
        assert(c.push(x)[c.len() as int] == x);
    }
    if c.push(x).contains(m) && m != x {
        let j = choose|j: int| 0 <= j < c.len() + 1 && c.push(x)[j] == m;
        assert(c[j] == m);
    }
}

proof fn lemma_width_step(iv: Seq<(i64, i64)>, order: Seq<usize>, k: nat)
    requires
        k < order.len(),
        order.len() == iv.len(),
        iv.len() <= usize::MAX,
        intervals_well_formed(iv),
        forall|j: int| 0 <= j < order.len() ==> #[trigger] order[j] < iv.len(),
        forall|a: int, b: int|
            #![trigger order[a], order[b]]
            0 <= a < b < order.len() ==> interval_le(iv[order[a] as int], iv[order[b] as int])
                && order[a] != order[b],
        separation_inv(iv, order, k, layout_fold(iv, order, k)),
        width_inv(iv, order, k, layout_fold(iv, order, k)),
        layout_inv(layout_fold(iv, order, k), iv.len()),
        layout_fold(iv, order, k).column_ends.len() <= k,
    ensures
        width_inv(iv, order, k + 1, layout_fold(iv, order, k + 1)),
{
    let n = order.len();
    let s = layout_fold(iv, order, k);
    let x = order[k as int];
    let start = iv[x as int].0;
    let fresh = start >= s.cluster_end && s.cluster.len() > 0;
    let closed = close_cluster(s);
    let r = layout_fold(iv, order, k + 1);
    assert(r == layout_step(iv, s, x));
    assert(r.cluster == (if fresh {
        Seq::<usize>::empty()
    } else {
        s.cluster
    }).push(x));
    assert(r.cluster_columns == (if fresh {
        closed
    } else {
        s.cluster_columns
    }));
    // Members of the open cluster are not the interval placed now.
    assert(!s.cluster.contains(x)) by {
        if s.cluster.contains(x) {
            let j = choose|j: int| 0 <= j < s.cluster.len() && s.cluster[j] == x;
            assert(s.cluster[j] != order[k as int]);
        }
    }
    assert forall|a: int| 0 <= a < k implies (#[trigger] order[a]) != x by {}
    assert forall|a: int| 0 <= a < k implies r.cluster.contains(#[trigger] order[a]) == (!fresh
        && s.cluster.contains(order[a])) by {
        let p = order[a];
        if fresh {
            lemma_push_contains(Seq::<usize>::empty(), x, p);
        } else {
            lemma_push_contains(s.cluster, x, p);
        }
    }
    lemma_push_contains(if fresh {
        Seq::<usize>::empty()
    } else {
        s.cluster
    }, x, x);
    assert forall|a: int, b: int|
        #![trigger order[a], order[b]]
        0 <= a < k + 1 && 0 <= b < k + 1 && a != b && overlaps(
            iv[order[a] as int],
            iv[order[b] as int],
        ) implies (r.cluster.contains(order[a]) && r.cluster.contains(order[b])) || (
    !r.cluster.contains(order[a]) && !r.cluster.contains(order[b])
        && r.cluster_columns[order[a] as int] == r.cluster_columns[order[b] as int]) by {
        if a == k || b == k {
            let o = if a == k {
                b
            } else {
                a
            };
            let p = order[o];
            assert(overlaps(iv[p as int], iv[x as int]));
            assert(iv[order[o] as int].1 <= s.cluster_end);
            assert(!fresh);
            if !s.cluster.contains(p) {
                assert(iv[order[o] as int].1 <= iv[order[k as int] as int].0);
            }
        } else if fresh {
            let p = order[a];
            let q = order[b];
            assert(p < n && q < n);
            if s.cluster.contains(p) {
                assert(closed[p as int] == s.column_ends.len());
                assert(closed[q as int] == s.column_ends.len());
            } else {
                assert(closed[p as int] == s.cluster_columns[p as int]);
                assert(closed[q as int] == s.cluster_columns[q as int]);
            }
        }
    }
}

proof fn lemma_width_fold(iv: Seq<(i64, i64)>, k: nat)
    requires
        k <= iv.len(),
        iv.len() <= usize::MAX,
        intervals_well_formed(iv),
    ensures
        width_inv(iv, sorted_order(iv, iv.len()), k, layout_fold(iv, sorted_order(iv, iv.len()), k)),
    decreases k,
{
    let order = sorted_order(iv, iv.len());
    lemma_sorted_order_indices(iv, iv.len());
    lemma_sorted_order_perm(iv, iv.len());
    if k > 0 {
        lemma_width_fold(iv, (k - 1) as nat);
        lemma_separation_fold(iv, (k - 1) as nat);
        lemma_layout_fold_inv(iv, order, (k - 1) as nat);
        lemma_width_step(iv, order, (k - 1) as nat);
    }
}

/// Every block listed in `w` is running at instant `t`.
pub open spec fn all_running_at(iv: Seq<(i64, i64)>, w: Seq<usize>, t: i64) -> bool {
    forall|q: int| 0 <= q < w.len() ==> iv[(#[trigger] w[q]) as int].0 <= t < iv[w[q] as int].1
}

/// Every interval starts before it ends.
pub open spec fn intervals_nonempty(iv: Seq<(i64, i64)>) -> bool {
    forall|i: int| 0 <= i < iv.len() ==> (#[trigger] iv[i]).0 < iv[i].1
}

/// Block `c[k]` overlaps the block after it in `c`.
pub open spec fn chain_step(iv: Seq<(i64, i64)>, c: Seq<int>, k: int) -> bool {
    overlaps(iv[c[k]], iv[c[k + 1]])
}

/// `c` lists blocks, each overlapping the next.
pub open spec fn overlap_chain(iv: Seq<(i64, i64)>, c: Seq<int>) -> bool {
    &&& c.len() > 0
    &&& forall|k: int| 0 <= k < c.len() ==> 0 <= #[trigger] c[k] < iv.len()
    &&& forall|k: int| 0 <= k < c.len() - 1 ==> #[trigger] chain_step(iv, c, k)
}

/// Blocks `a` and `b` are joined by a chain of overlapping blocks.
pub open spec fn linked(iv: Seq<(i64, i64)>, a: int, b: int) -> bool {
    exists|c: Seq<int>| #[trigger] overlap_chain(iv, c) && c[0] == a && c.last() == b
}

proof fn lemma_linked_refl(iv: Seq<(i64, i64)>, a: int)
    requires
        0 <= a < iv.len(),
    ensures
        linked(iv, a, a),
{
    let c = seq![a];
    assert(overlap_chain(iv, c));
}

proof fn lemma_linked_step(iv: Seq<(i64, i64)>, a: int, b: int, x: int)
    requires
        linked(iv, a, b),
        0 <= x < iv.len(),
        overlaps(iv[b], iv[x]),
    ensures
        linked(iv, a, x),
{
    let c = choose|c: Seq<int>| #[trigger] overlap_chain(iv, c) && c[0] == a && c.last() == b;
    let d = c.push(x);
    assert forall|k: int| 0 <= k < d.len() - 1 implies #[trigger] chain_step(iv, d, k) by {
        if k < c.len() - 1 {
            assert(chain_step(iv, c, k));
        }
    }
    assert forall|k: int| 0 <= k < d.len() implies 0 <= #[trigger] d[k] < iv.len() by {
        if k < c.len() {
            assert(d[k] == c[k]);
        }
    }
    assert(overlap_chain(iv, d));
}

proof fn lemma_linked_sym(iv: Seq<(i64, i64)>, a: int, b: int)
    requires
        linked(iv, a, b),
    ensures
        linked(iv, b, a),
{
    let c = choose|c: Seq<int>| #[trigger] overlap_chain(iv, c) && c[0] == a && c.last() == b;
    let n = c.len();
    let d = Seq::new(n, |k: int| c[n - 1 - k]);
    assert forall|k: int| 0 <= k < d.len() - 1 implies #[trigger] chain_step(iv, d, k) by {
        assert(chain_step(iv, c, n - 2 - k));
    }
    assert forall|k: int| 0 <= k < d.len() implies 0 <= #[trigger] d[k] < iv.len() by {
        assert(d[k] == c[n - 1 - k]);
    }
    assert(overlap_chain(iv, d));
}

/// Some member of the open cluster ends where the cluster ends.
spec fn end_owned(iv: Seq<(i64, i64)>, s: LayoutState) -> bool {
    exists|j: int| 0 <= j < s.cluster.len() && iv[(#[trigger] s.cluster[j]) as int].1 == s.cluster_end
}

/// The members of the open cluster are joined by chains of overlapping blocks, and one of them
/// ends where the cluster ends.
spec fn link_inv(iv: Seq<(i64, i64)>, s: LayoutState) -> bool {
    &&& forall|j1: int, j2: int|
        #![trigger s.cluster[j1], s.cluster[j2]]
        0 <= j1 < s.cluster.len() && 0 <= j2 < s.cluster.len() ==> linked(iv, s.cluster[j1] as int, s.cluster[j2] as int)
    &&& s.cluster.len() > 0 ==> end_owned(iv, s)
}

proof fn lemma_link_step(iv: Seq<(i64, i64)>, order: Seq<usize>, k: nat)
    requires
        k < order.len(),
        order.len() == iv.len(),
        iv.len() <= usize::MAX,
        intervals_nonempty(iv),
        forall|j: int| 0 <= j < order.len() ==> #[trigger] order[j] < iv.len(),
        separation_inv(iv, order, k, layout_fold(iv, order, k)),
        link_inv(iv, layout_fold(iv, order, k)),
        k == 0 ==> layout_fold(iv, order, k).cluster_end == i64::MIN,
    ensures
        link_inv(iv, layout_fold(iv, order, k + 1)),
{
    let s = layout_fold(iv, order, k);
    let x = order[k as int];
    let start = iv[x as int].0;
    let end = iv[x as int].1;
    assert(start < end);
    let fresh = start >= s.cluster_end && s.cluster.len() > 0;
    let r = layout_fold(iv, order, k + 1);
    assert(r == layout_step(iv, s, x));
    lemma_linked_refl(iv, x as int);
    if fresh || s.cluster.len() == 0 {
        assert(r.cluster =~= seq![x]);
        assert(r.cluster_end == end);
        assert(iv[r.cluster[0] as int].1 == r.cluster_end);
    } else {
        assert(r.cluster == s.cluster.push(x));
        let j = choose|j: int| 0 <= j < s.cluster.len() && iv[(#[trigger] s.cluster[j]) as int].1 == s.cluster_end;
        let m = s.cluster[j];
        assert(s.cluster[j] != order[k as int] && iv[s.cluster[j] as int].0 <= iv[order[k as int] as int].0);
        assert(overlaps(iv[m as int], iv[x as int]));
        assert forall|j1: int, j2: int|
            #![trigger r.cluster[j1], r.cluster[j2]]
            0 <= j1 < r.cluster.len() && 0 <= j2 < r.cluster.len() implies linked(
            iv,
            r.cluster[j1] as int,
            r.cluster[j2] as int,
        ) by {
            let n0 = s.cluster.len() as int;
            if j1 < n0 && j2 < n0 {
                assert(r.cluster[j1] == s.cluster[j1] && r.cluster[j2] == s.cluster[j2]);
            } else if j1 < n0 {
                assert(r.cluster[j1] == s.cluster[j1]);
                assert(linked(iv, s.cluster[j1] as int, s.cluster[j] as int));
                lemma_linked_step(iv, s.cluster[j1] as int, m as int, x as int);
            } else if j2 < n0 {
                assert(r.cluster[j2] == s.cluster[j2]);
                assert(linked(iv, s.cluster[j2] as int, s.cluster[j] as int));
                lemma_linked_step(iv, s.cluster[j2] as int, m as int, x as int);
                lemma_linked_sym(iv, s.cluster[j2] as int, x as int);
            }
        }
        if end > s.cluster_end {
            assert(iv[r.cluster[s.cluster.len() as int] as int].1 == r.cluster_end);
        } else {
            assert(r.cluster[j] == m);
            assert(iv[r.cluster[j] as int].1 == r.cluster_end);
        }
    }
}

proof fn lemma_link_fold(iv: Seq<(i64, i64)>, k: nat)
    requires
        k <= iv.len(),
        iv.len() <= usize::MAX,
        intervals_nonempty(iv),
    ensures
        link_inv(iv, layout_fold(iv, sorted_order(iv, iv.len()), k)),
    decreases k,
{
    let order = sorted_order(iv, iv.len());
    lemma_sorted_order_indices(iv, iv.len());
    if k > 0 {
        assert(intervals_well_formed(iv)) by {
            assert forall|i: int| 0 <= i < iv.len() implies (#[trigger] iv[i]).0 <= iv[i].1 by {
                assert(iv[i].0 < iv[i].1);
            }
        }
        lemma_link_fold(iv, (k - 1) as nat);
        lemma_separation_fold(iv, (k - 1) as nat);
        lemma_link_step(iv, order, (k - 1) as nat);
    }
}

/// Every block of `w` is joined to block `p` by a chain of overlapping blocks.
spec fn linked_to_all(iv: Seq<(i64, i64)>, p: int, w: Seq<usize>) -> bool {
    forall|q: int| 0 <= q < w.len() ==> linked(iv, p, (#[trigger] w[q]) as int)
}

/// `w` lists, once each, as many members of the open cluster as it has columns.
spec fn open_witness(s: LayoutState, w: Seq<usize>) -> bool {
    &&& w.len() == s.column_ends.len()
    &&& w.no_duplicates()
    &&& forall|q: int| 0 <= q < w.len() ==> s.cluster.contains(#[trigger] w[q])
}

/// `w` lists, once each, `width` intervals of a closed cluster of that width, none of them
/// still to be placed, each joined to `p` by a chain of overlapping blocks.
spec fn closed_witness(
    iv: Seq<(i64, i64)>,
    order: Seq<usize>,
    k: nat,
    s: LayoutState,
    w: Seq<usize>,
    width: usize,
    p: usize,
) -> bool {
    &&& w.len() == width
    &&& linked_to_all(iv, p as int, w)
    &&& w.no_duplicates()
    &&& forall|q: int|
        0 <= q < w.len() ==> {
            let m = #[trigger] w[q];
            &&& m < iv.len()
            &&& !s.cluster.contains(m)
            &&& s.cluster_columns[m as int] == width
        }
    &&& forall|q: int, b: int| #![trigger w[q], order[b]] 0 <= q < w.len() && k <= b < order.len() ==> w[q] != order[b]
}

/// Column `c` of the open cluster ends with one of the cluster's members.
spec fn column_owned(iv: Seq<(i64, i64)>, s: LayoutState, c: int) -> bool {
    exists|j: int|
        0 <= j < s.cluster.len() && s.column[(#[trigger] s.cluster[j]) as int] == c && iv[s.cluster[j] as int].1
            == s.column_ends[c]
}

/// A member of the open cluster that column `c` ends with.
spec fn column_owner(iv: Seq<(i64, i64)>, s: LayoutState, c: int) -> int {
    choose|j: int|
        0 <= j < s.cluster.len() && s.column[(#[trigger] s.cluster[j]) as int] == c && iv[s.cluster[j] as int].1
            == s.column_ends[c]
}

/// Column counts are needed: each column of the open cluster ends with one of its members,
/// the open cluster has a witness instant at which as many of its members run as it has
/// columns, and so does every closed cluster.
spec fn need_inv(iv: Seq<(i64, i64)>, order: Seq<usize>, k: nat, s: LayoutState) -> bool {
    &&& forall|c: int| 0 <= c < s.column_ends.len() ==> #[trigger] column_owned(iv, s, c)
    &&& s.cluster.len() > 0 ==> exists|t: i64, w: Seq<usize>| #[trigger] all_running_at(iv, w, t) && open_witness(s, w)
    &&& forall|a: int|
        0 <= a < k && !s.cluster.contains(#[trigger] order[a]) ==> exists|t: i64, w: Seq<usize>|
            #[trigger] all_running_at(iv, w, t) && closed_witness(iv, order, k, s, w, s.cluster_columns[order[a] as int], order[a])
}

proof fn lemma_need_step(iv: Seq<(i64, i64)>, order: Seq<usize>, k: nat)
    requires
        k < order.len(),
        order.len() == iv.len(),
        iv.len() <= usize::MAX,
        intervals_nonempty(iv),
        forall|j: int| 0 <= j < order.len() ==> #[trigger] order[j] < iv.len(),
        forall|a: int, b: int|
            #![trigger order[a], order[b]]
            0 <= a < b < order.len() ==> interval_le(iv[order[a] as int], iv[order[b] as int])
                && order[a] != order[b],
        separation_inv(iv, order, k, layout_fold(iv, order, k)),
        need_inv(iv, order, k, layout_fold(iv, order, k)),
        link_inv(iv, layout_fold(iv, order, k)),
        layout_inv(layout_fold(iv, order, k), iv.len()),
        layout_fold(iv, order, k).column_ends.len() <= k,
    ensures
        need_inv(iv, order, k + 1, layout_fold(iv, order, k + 1)),
{
    let n = order.len();
    let s = layout_fold(iv, order, k);
    let x = order[k as int];
    let start = iv[x as int].0;
    let end = iv[x as int].1;
    assert(start < end);
    let fresh = start >= s.cluster_end && s.cluster.len() > 0;
    let closed = close_cluster(s);
    let s1 = if fresh {
        LayoutState {
            column: s.column,
            cluster_columns: closed,
            cluster: Seq::empty(),
            column_ends: Seq::empty(),
            cluster_end: i64::MIN,
        }
    } else {
        s
    };
    let len1 = s1.column_ends.len();
    let c = first_free(s1.column_ends, start);
    lemma_first_free_bound(s1.column_ends, start);
    lemma_first_free_props(s1.column_ends, start);
    let r = layout_fold(iv, order, k + 1);
    assert(r == layout_step(iv, s, x));
    assert(r.cluster == s1.cluster.push(x));
    assert(r.column == s1.column.update(x as int, c as usize));
    assert(r.cluster_columns == s1.cluster_columns);
    assert(c as usize as int == c);
    // Cluster members are not the interval placed now.
    assert forall|j: int| 0 <= j < s.cluster.len() implies (#[trigger] s.cluster[j]) != x && s.cluster[j]
        < n && iv[s.cluster[j] as int].0 <= start by {
        assert(s.cluster[j] != order[k as int]);
    }
    assert(!s.cluster.contains(x));
    assert forall|m: usize| #[trigger] r.cluster.contains(m) == (s1.cluster.contains(m) || m == x) by {
        lemma_push_contains(s1.cluster, x, m);
    }
    assert(r.cluster[s1.cluster.len() as int] == x);
    // Part 1: every column ends with a member.
    assert forall|c2: int| 0 <= c2 < r.column_ends.len() implies #[trigger] column_owned(iv, r, c2) by {
        if c2 == c {
            assert(r.column[r.cluster[s1.cluster.len() as int] as int] == c2);
        } else {
            assert(!fresh);
            assert(column_owned(iv, s, c2));
            let j = choose|j: int|
                0 <= j < s.cluster.len() && s.column[(#[trigger] s.cluster[j]) as int] == c2
                    && iv[s.cluster[j] as int].1 == s.column_ends[c2];
            assert(r.cluster[j] == s.cluster[j]);
            assert(r.column[s.cluster[j] as int] == s.column[s.cluster[j] as int]);
        }
    }
    // Part 2: the open cluster's witness.
    if c == len1 {
        let w0 = Seq::new(len1, |c0: int| s1.cluster[column_owner(iv, s1, c0)]);
        let w = w0.push(x);
        assert forall|c0: int| 0 <= c0 < len1 implies {
            &&& 0 <= #[trigger] column_owner(iv, s1, c0) < s1.cluster.len()
            &&& s1.column[s1.cluster[column_owner(iv, s1, c0)] as int] == c0
            &&& iv[s1.cluster[column_owner(iv, s1, c0)] as int].1 == s1.column_ends[c0]
        } by {
            assert(!fresh);
            assert(column_owned(iv, s, c0));
        }
        assert forall|q: int| 0 <= q < w.len() implies iv[(#[trigger] w[q]) as int].0 <= start < iv[w[q] as int].1 by {
            if q < len1 {
                let j = column_owner(iv, s1, q);
                assert(w[q] == s1.cluster[j]);
                assert(s1.column_ends[q] > start);
            } else {
                assert(w[q] == x);
            }
        }
        assert(all_running_at(iv, w, start));
        assert(w.no_duplicates()) by {
            assert forall|p: int, q: int| 0 <= p < w.len() && 0 <= q < w.len() && p != q implies w[p] != w[q] by {
                if p < len1 && q < len1 {
                    assert(s1.column[w[p] as int] == p);
                    assert(s1.column[w[q] as int] == q);
                } else if p < len1 {
                    assert(s1.cluster.contains(w[p]));
                } else {
                    assert(s1.cluster.contains(w[q]));
                }
            }
        }
        assert forall|q: int| 0 <= q < w.len() implies r.cluster.contains(#[trigger] w[q]) by {
            if q < len1 {
                assert(s1.cluster[column_owner(iv, s1, q)] == w[q]);
                assert(s1.cluster.contains(w[q]));
            }
        }
        assert(open_witness(r, w));
    } else {
        assert(!fresh);
        assert(column_owned(iv, s, c));
        assert(s.cluster.len() > 0);
        let (t, w) = choose|t: i64, w: Seq<usize>| #[trigger] all_running_at(iv, w, t) && open_witness(s, w);
        assert forall|q: int| 0 <= q < w.len() implies r.cluster.contains(#[trigger] w[q]) by {
            assert(s.cluster.contains(w[q]));
        }
        assert(open_witness(r, w));
    }
    // Part 3: closed clusters keep their witnesses.
    assert forall|a: int|
        0 <= a < k + 1 && !r.cluster.contains(#[trigger] order[a]) implies exists|t: i64, w: Seq<usize>|
            #[trigger] all_running_at(iv, w, t) && closed_witness(iv, order, k + 1, r, w, r.cluster_columns[order[a] as int], order[a])
    by {
        let p = order[a];
        assert(a < k);
        assert(p < n);
        if fresh && s.cluster.contains(p) {
            let (t, w) = choose|t: i64, w: Seq<usize>| #[trigger] all_running_at(iv, w, t) && open_witness(s, w);
            assert(closed[p as int] == s.column_ends.len());
            assert forall|q: int| 0 <= q < w.len() implies {
                let m = #[trigger] w[q];
                &&& m < iv.len()
                &&& !r.cluster.contains(m)
                &&& r.cluster_columns[m as int] == r.cluster_columns[p as int]
            } by {
                let m = w[q];
                assert(s.cluster.contains(m));
                let j = choose|j: int| 0 <= j < s.cluster.len() && s.cluster[j] == m;
                assert(s.cluster[j] == m);
                assert(closed[m as int] == s.column_ends.len());
            }
            assert(linked_to_all(iv, p as int, w)) by {
                let jp = choose|j: int| 0 <= j < s.cluster.len() && s.cluster[j] == p;
                assert forall|q: int| 0 <= q < w.len() implies linked(iv, p as int, (#[trigger] w[q]) as int) by {
                    assert(s.cluster.contains(w[q]));
                    let jq = choose|j: int| 0 <= j < s.cluster.len() && s.cluster[j] == w[q];
                    assert(linked(iv, s.cluster[jp] as int, s.cluster[jq] as int));
                }
            }
            assert forall|q: int, b: int| #![trigger w[q], order[b]] 0 <= q < w.len() && k + 1 <= b < n implies w[q] != order[b] by {
                let m = w[q];
                assert(s.cluster.contains(m));
                let j = choose|j: int| 0 <= j < s.cluster.len() && s.cluster[j] == m;
                assert(s.cluster[j] != order[b]);
            }
            assert(closed_witness(iv, order, k + 1, r, w, r.cluster_columns[order[a] as int], order[a]));
        } else {
            assert(!s.cluster.contains(p)) by {
                if !fresh && s.cluster.contains(p) {
                    assert(r.cluster.contains(p));
                }
            }
            let (t, w) = choose|t: i64, w: Seq<usize>|
                #[trigger] all_running_at(iv, w, t) && closed_witness(iv, order, k, s, w, s.cluster_columns[order[a] as int], order[a]);
            assert(r.cluster_columns[p as int] == s.cluster_columns[p as int]);
            assert forall|q: int| 0 <= q < w.len() implies {
                let m = #[trigger] w[q];
                &&& m < iv.len()
                &&& !r.cluster.contains(m)
                &&& r.cluster_columns[m as int] == r.cluster_columns[p as int]
            } by {
                let m = w[q];
                assert(w[q] != order[k as int]);
                assert(!s.cluster.contains(m));
                assert(r.cluster_columns[m as int] == s.cluster_columns[m as int]);
            }
            assert forall|q: int, b: int| #![trigger w[q], order[b]] 0 <= q < w.len() && k + 1 <= b < n implies w[q] != order[b] by {}
            assert(closed_witness(iv, order, k + 1, r, w, r.cluster_columns[order[a] as int], order[a]));
        }
    }
}

proof fn lemma_need_fold(iv: Seq<(i64, i64)>, k: nat)
    requires
        k <= iv.len(),
        iv.len() <= usize::MAX,
        intervals_nonempty(iv),
    ensures
        need_inv(iv, sorted_order(iv, iv.len()), k, layout_fold(iv, sorted_order(iv, iv.len()), k)),
    decreases k,
{
    let order = sorted_order(iv, iv.len());
    lemma_sorted_order_indices(iv, iv.len());
    lemma_sorted_order_perm(iv, iv.len());
    if k > 0 {
        assert(intervals_well_formed(iv)) by {
            assert forall|i: int| 0 <= i < iv.len() implies (#[trigger] iv[i]).0 <= iv[i].1 by {
                assert(iv[i].0 < iv[i].1);
            }
        }
        lemma_need_fold(iv, (k - 1) as nat);
        lemma_link_fold(iv, (k - 1) as nat);
        lemma_separation_fold(iv, (k - 1) as nat);
        lemma_layout_fold_inv(iv, order, (k - 1) as nat);
        lemma_need_step(iv, order, (k - 1) as nat);
    }
}

/// Law: a block's column count is needed. At some instant as many blocks run at once as the
/// count says, each drawn with that same count and each joined to the block by a chain of
/// overlapping blocks, so no narrower layout could show them side by side (for blocks that
/// start before they end).
pub proof fn lemma_layout_width_needed(iv: Seq<(i64, i64)>, i: int)
    requires
        iv.len() <= usize::MAX,
        intervals_nonempty(iv),
        0 <= i < iv.len(),
    ensures
        exists|t: i64, w: Seq<usize>|
            #[trigger] all_running_at(iv, w, t) && w.len() == layout(iv)[i].1 && w.no_duplicates()
                && forall|q: int|
                0 <= q < w.len() ==> (#[trigger] w[q]) < iv.len() && layout(iv)[w[q] as int].1 == layout(iv)[i].1
                    && linked(iv, i, w[q] as int),
{
    let n = iv.len();
    let order = sorted_order(iv, n);
    lemma_sorted_order_indices(iv, n);
    lemma_sorted_order_perm(iv, n);
    assert(intervals_well_formed(iv)) by {
        assert forall|j: int| 0 <= j < iv.len() implies (#[trigger] iv[j]).0 <= iv[j].1 by {
            assert(iv[j].0 < iv[j].1);
        }
    }
    lemma_need_fold(iv, n);
    lemma_link_fold(iv, n);
    lemma_separation_fold(iv, n);
    lemma_layout_fold_inv(iv, order, n);
    let s = layout_fold(iv, order, n);
    let widths = if s.cluster.len() > 0 {
        close_cluster(s)
    } else {
        s.cluster_columns
    };
    assert(forall|j: int| 0 <= j < n ==> #[trigger] layout(iv)[j] == (s.column[j], widths[j]));
    assert(order.contains(i as usize));
    let a = choose|a: int| 0 <= a < order.len() && order[a] == i as usize;
    assert(order[a] == i);
    if s.cluster.contains(i as usize) {
        let (t, w) = choose|t: i64, w: Seq<usize>| #[trigger] all_running_at(iv, w, t) && open_witness(s, w);
        assert(widths[i] == s.column_ends.len());
        let ji = choose|j: int| 0 <= j < s.cluster.len() && s.cluster[j] == i as usize;
        assert forall|q: int| 0 <= q < w.len() implies (#[trigger] w[q]) < iv.len() && layout(iv)[w[q] as int].1
            == layout(iv)[i].1 && linked(iv, i, w[q] as int) by {
            let m = w[q];
            assert(s.cluster.contains(m));
            let j = choose|j: int| 0 <= j < s.cluster.len() && s.cluster[j] == m;
            assert(s.cluster[j] == m);
            assert(widths[m as int] == s.column_ends.len());
            assert(linked(iv, s.cluster[ji] as int, s.cluster[j] as int));
        }
    } else {
        assert(!s.cluster.contains(order[a]));
        let (t, w) = choose|t: i64, w: Seq<usize>|
            #[trigger] all_running_at(iv, w, t) && closed_witness(iv, order, n, s, w, s.cluster_columns[order[a] as int], order[a]);
        assert(widths[i] == s.cluster_columns[i]);
        assert forall|q: int| 0 <= q < w.len() implies (#[trigger] w[q]) < iv.len() && layout(iv)[w[q] as int].1
            == layout(iv)[i].1 && linked(iv, i, w[q] as int) by {
            let m = w[q];
            assert(!s.cluster.contains(m));
            assert(widths[m as int] == s.cluster_columns[m as int]);
        }
    }
}

/// Law: two blocks whose times overlap never share a column, so the day timeline shows
/// concurrent blocks side by side and none hides another (for blocks that end no earlier
/// than they start).
pub proof fn lemma_layout_overlaps_separated(iv: Seq<(i64, i64)>, i: int, j: int)
    requires
        iv.len() <= usize::MAX,
        intervals_well_formed(iv),
        0 <= i < iv.len(),
        0 <= j < iv.len(),
        i != j,
        overlaps(iv[i], iv[j]),
    ensures
        layout(iv)[i].0 != layout(iv)[j].0,
{
    let n = iv.len();
    let order = sorted_order(iv, n);
    lemma_sorted_order_indices(iv, n);
    lemma_sorted_order_perm(iv, n);
    lemma_separation_fold(iv, n);
    let s = layout_fold(iv, order, n);
    assert(order.contains(i as usize));
    assert(order.contains(j as usize));
    let a = choose|a: int| 0 <= a < order.len() && order[a] == i as usize;
    let b = choose|b: int| 0 <= b < order.len() && order[b] == j as usize;
    assert(order[a] == i && order[b] == j);
    assert(s.column[order[a] as int] != s.column[order[b] as int]);
    assert(layout(iv)[i].0 == s.column[i]);
    assert(layout(iv)[j].0 == s.column[j]);
}

/// Law: two blocks whose times overlap belong to one cluster and are drawn with the same
/// column count, so their equal-width slots at distinct columns do not cover each other
/// (for blocks that end no earlier than they start).
pub proof fn lemma_layout_overlaps_same_width(iv: Seq<(i64, i64)>, i: int, j: int)
    requires
        iv.len() <= usize::MAX,
        intervals_well_formed(iv),
        0 <= i < iv.len(),
        0 <= j < iv.len(),
        i != j,
        overlaps(iv[i], iv[j]),
    ensures
        layout(iv)[i].1 == layout(iv)[j].1,
{
    let n = iv.len();
    let order = sorted_order(iv, n);
    lemma_sorted_order_indices(iv, n);
    lemma_sorted_order_perm(iv, n);
    lemma_width_fold(iv, n);
    lemma_layout_fold_inv(iv, order, n);
    let s = layout_fold(iv, order, n);
    assert(order.contains(i as usize));
    assert(order.contains(j as usize));
    let a = choose|a: int| 0 <= a < order.len() && order[a] == i as usize;
    let b = choose|b: int| 0 <= b < order.len() && order[b] == j as usize;
    assert(order[a] == i && order[b] == j);
    assert(s.cluster.contains(order[a]) == s.cluster.contains(order[b]));
    if s.cluster.len() > 0 {
        let w = close_cluster(s);
        assert(w[i] == if s.cluster.contains(i as usize) {
            s.column_ends.len() as usize
        } else {
            s.cluster_columns[i]
        });
        assert(w[j] == if s.cluster.contains(j as usize) {
            s.column_ends.len() as usize
        } else {
            s.cluster_columns[j]
        });
    } else {
        assert(!s.cluster.contains(order[a]));
    }
}

/// The indices `0..n` of `intervals` in stable order of their intervals.
fn sort_indices(intervals: &[(i64, i64)]) -> (order: Vec<usize>)
    ensures
        order@ == sorted_order(intervals@, intervals@.len()),
{
    let n = intervals.len();
    let mut order: Vec<usize> = Vec::new();
    let mut x: usize = 0;
    while x < n
        invariant
            n == intervals@.len(),
            x <= n,
            order@ == sorted_order(intervals@, x as nat),
        decreases n - x,
    {
        proof {
            lemma_sorted_order_indices(intervals@, x as nat);
        }
        let m = order.len();
        let mut i: usize = 0;
        while i < m && (intervals[order[i]].0 < intervals[x].0 || (intervals[order[i]].0
            == intervals[x].0 && intervals[order[i]].1 <= intervals[x].1))
            invariant
                n == intervals@.len(),
                x < n,
                m == order@.len(),
                m == x,
                forall|k: int| 0 <= k < m ==> order@[k] < n,
                i <= m,
                forall|k: int|
                    0 <= k < i ==> interval_le(intervals@[order@[k] as int], intervals@[x as int]),
            decreases m - i,
        {
            i = i + 1;
        }
        proof {
            lemma_order_pos_at(intervals@, order@, x, i as int);
        }
        let ghost before = order@;
        order.insert(i, x);
        assert(order@ =~= before.take(i as int).push(x) + before.skip(i as int));
        x = x + 1;
    }
    order
}

/// Pack overlapping `[start, end)` intervals (minutes) into side-by-side columns so a day
/// timeline can render concurrent blocks without hiding one behind the other. Returns, in the
/// input order, each interval's `(column, column_count)`.
pub fn layout_columns(intervals: &[(i64, i64)]) -> (r: Vec<(usize, usize)>)
    ensures
        r@ == layout(intervals@),
{
    let n = intervals.len();
    let order = sort_indices(intervals);
    proof {
        lemma_sorted_order_indices(intervals@, n as nat);
    }
    let ghost iv = intervals@;
    let mut column: Vec<usize> = Vec::new();
    let mut cluster_columns: Vec<usize> = Vec::new();
    let mut j: usize = 0;
    while j < n
        invariant
            j <= n,
            column@.len() == j,
            cluster_columns@.len() == j,
            forall|k: int| 0 <= k < j ==> column@[k] == 0usize,
            forall|k: int| 0 <= k < j ==> cluster_columns@[k] == 1usize,
        decreases n - j,
    {
        column.push(0);
        cluster_columns.push(1);
        j = j + 1;
    }
    let mut cluster: Vec<usize> = Vec::new();
    let mut column_ends: Vec<i64> = Vec::new();
    let mut cluster_end: i64 = i64::MIN;
    proof {
        let s0 = layout_fold(iv, order@, 0);
        assert(column@ =~= s0.column);
        assert(cluster_columns@ =~= s0.cluster_columns);
        assert(cluster@ =~= s0.cluster);
        assert(column_ends@ =~= s0.column_ends);
    }
    let mut k: usize = 0;
    while k < n
        invariant
            n == iv.len(),
            iv == intervals@,
            order@ == sorted_order(iv, n as nat),
            order@.len() == n,
            forall|q: int| 0 <= q < n ==> order@[q] < n,
            k <= n,
            column@ == layout_fold(iv, order@, k as nat).column,
            cluster_columns@ == layout_fold(iv, order@, k as nat).cluster_columns,
            cluster@ == layout_fold(iv, order@, k as nat).cluster,
            column_ends@ == layout_fold(iv, order@, k as nat).column_ends,
            cluster_end == layout_fold(iv, order@, k as nat).cluster_end,
            column@.len() == n,
            cluster_columns@.len() == n,
        decreases n - k,
    {
        let ghost s = layout_fold(iv, order@, k as nat);
        let i = order[k];
        let (start, end) = intervals[i];
        if start >= cluster_end && cluster.len() > 0 {
            let cols = column_ends.len();
            let mut q: usize = 0;
            let ghost closed = close_cluster(s);
            while q < n
                invariant
                    n == cluster_columns@.len(),
                    n == s.cluster_columns.len(),
                    cluster@ == s.cluster,
                    cols == s.column_ends.len(),
                    closed == close_cluster(s),
                    q <= n,
                    forall|p: int| 0 <= p < q ==> cluster_columns@[p] == closed[p],
                    forall|p: int| q <= p < n ==> cluster_columns@[p] == s.cluster_columns[p],
                decreases n - q,
            {
                if contains_index(&cluster, q) {
                    cluster_columns.set(q, cols);
                }
                q = q + 1;
            }
            assert(cluster_columns@ =~= closed);
            cluster.clear();
            column_ends.clear();
            cluster_end = i64::MIN;
        }
        let ghost s1 = LayoutState {
            column: column@,
            cluster_columns: cluster_columns@,
            cluster: cluster@,
            column_ends: column_ends@,
            cluster_end: cluster_end,
        };
        let m = column_ends.len();
        let mut c: usize = 0;
        while c < m && column_ends[c] > start
            invariant
                m == column_ends@.len(),
                c <= m,
                forall|p: int| 0 <= p < c ==> column_ends@[p] > start,
            decreases m - c,
        {
            c = c + 1;
        }
        proof {
            lemma_first_free_at(column_ends@, start, c as int);
        }
        if c < m {
            column_ends.set(c, end);
        } else {
            column_ends.push(end);
        }
        column.set(i, c);
        cluster.push(i);
        if end > cluster_end {
            cluster_end = end;
        }
        proof {
            let next = layout_fold(iv, order@, (k + 1) as nat);
            assert(next == layout_step(iv, s, i));
            assert(column@ =~= next.column);
            assert(cluster_columns@ =~= next.cluster_columns);
            assert(cluster@ =~= next.cluster);
            assert(column_ends@ =~= next.column_ends);
        }
        k = k + 1;
    }
    let ghost fin = layout_fold(iv, order@, n as nat);
    if cluster.len() > 0 {
        let cols = column_ends.len();
        let mut q: usize = 0;
        let ghost closed = close_cluster(fin);
        while q < n
            invariant
                n == cluster_columns@.len(),
                n == fin.cluster_columns.len(),
                cluster@ == fin.cluster,
                cols == fin.column_ends.len(),
                closed == close_cluster(fin),
                q <= n,
                forall|p: int| 0 <= p < q ==> cluster_columns@[p] == closed[p],
                forall|p: int| q <= p < n ==> cluster_columns@[p] == fin.cluster_columns[p],
            decreases n - q,
        {
            if contains_index(&cluster, q) {
                cluster_columns.set(q, cols);
            }
            q = q + 1;
        }
        assert(cluster_columns@ =~= closed);
    }
    let mut result: Vec<(usize, usize)> = Vec::new();
    let mut p: usize = 0;
    while p < n
        invariant
            p <= n,
            n == column@.len(),
            n == cluster_columns@.len(),
            result@.len() == p,
            forall|q: int| 0 <= q < p ==> result@[q] == (column@[q], cluster_columns@[q]),
        decreases n - p,
    {
        result.push((column[p], cluster_columns[p]));
        p = p + 1;
    }
    assert(result@ =~= layout(intervals@));
    result
}

/// Whether `v` holds `x`.
fn contains_index(v: &Vec<usize>, x: usize) -> (r: bool)
    ensures
        r == v@.contains(x),
{
    let mut i: usize = 0;
    while i < v.len()
        invariant
            i <= v@.len(),
            forall|k: int| 0 <= k < i ==> v@[k] != x,
        decreases v@.len() - i,
    {
        if v[i] == x {
            return true;
        }
        i = i + 1;
    }
    false
}

/// The text of a calendar value with line breaks normalized (CRLF and lone CR become LF) and
/// backslash, line break, comma and semicolon escaped, as iCalendar requires.
pub open spec fn ics_escaped(s: Seq<char>) -> Seq<char>
    decreases s.len(),
{
    if s.len() == 0 {
        Seq::empty()
    } else if s[0] == '\r' && s.len() > 1 && s[1] == '\n' {
        seq!['\\', 'n'] + ics_escaped(s.skip(2))
    } else if s[0] == '\r' || s[0] == '\n' {
        seq!['\\', 'n'] + ics_escaped(s.skip(1))
    } else if s[0] == '\\' {
        seq!['\\', '\\'] + ics_escaped(s.skip(1))
    } else if s[0] == ',' {
        seq!['\\', ','] + ics_escaped(s.skip(1))
    } else if s[0] == ';' {
        seq!['\\', ';'] + ics_escaped(s.skip(1))
    } else {
        seq![s[0]] + ics_escaped(s.skip(1))
    }
}

/// Law: an escaped value holds no line break, so it never splits an iCalendar line.
pub proof fn lemma_ics_escaped_one_line(s: Seq<char>)
    ensures
        forall|i: int| 0 <= i < ics_escaped(s).len() ==> #[trigger] ics_escaped(s)[i] != '\r' && ics_escaped(s)[i]
            != '\n',
    decreases s.len(),
{
    if s.len() > 0 {
        let (head, rest) = if s[0] == '\r' && s.len() > 1 && s[1] == '\n' {
            (seq!['\\', 'n'], s.skip(2))
        } else if s[0] == '\r' || s[0] == '\n' {
            (seq!['\\', 'n'], s.skip(1))
        } else if s[0] == '\\' {
            (seq!['\\', '\\'], s.skip(1))
        } else if s[0] == ',' {
            (seq!['\\', ','], s.skip(1))
        } else if s[0] == ';' {
            (seq!['\\', ';'], s.skip(1))
        } else {
            (seq![s[0]], s.skip(1))
        };
        assert(ics_escaped(s) == head + ics_escaped(rest));
        lemma_ics_escaped_one_line(rest);
        assert forall|i: int| 0 <= i < ics_escaped(s).len() implies #[trigger] ics_escaped(s)[i] != '\r'
            && ics_escaped(s)[i] != '\n' by {
            if i >= head.len() {
                assert(ics_escaped(s)[i] == ics_escaped(rest)[i - head.len()]);
            }
        }
    }
}

/// Escape a value for an iCalendar text property.
pub fn ics_escape(value: &str) -> (r: String)
    ensures
        r@ == ics_escaped(value@),
{
    let n = value.unicode_len();
    let mut out = String::new();
    let mut i: usize = 0;
    proof {
        assert(value@.skip(0) =~= value@);
    }
    while i < n
        invariant
            n == value@.len(),
            i <= n,
            out@ + ics_escaped(value@.skip(i as int)) == ics_escaped(value@),
        decreases n - i,
    {
        let ghost rest = value@.skip(i as int);
        let c = value.get_char(i);
        assert(rest[0] == c);
        if c == '\r' && i + 1 < n && value.get_char(i + 1) == '\n' {
            assert(rest[1] == value@[i + 1]);
            assert(rest.skip(2) =~= value@.skip(i + 2));
            out.push('\\');
            out.push('n');
            i = i + 2;
        } else {
            assert(rest.skip(1) =~= value@.skip(i + 1));
            if c == '\r' || c == '\n' {
                assert(!(rest.len() > 1 && rest[1] == '\n') || c == '\n') by {
                    if rest.len() > 1 {
                        assert(rest[1] == value@[i + 1]);
                    }
                }
                out.push('\\');
                out.push('n');
            } else if c == '\\' {
                out.push('\\');
                out.push('\\');
            } else if c == ',' {
                out.push('\\');
                out.push(',');
            } else if c == ';' {
                out.push('\\');
                out.push(';');
            } else {
                out.push(c);
            }
            i = i + 1;
        }
        proof {
            let prev = out@;
            assert(out@ + ics_escaped(value@.skip(i as int)) =~= ics_escaped(value@)) by {
                assert(ics_escaped(rest) == (out@.subrange(0, 0) + ics_escaped(rest)));
            }
        }
    }
    proof {
        assert(value@.skip(n as int) =~= Seq::<char>::empty());
        assert(out@ =~= out@ + ics_escaped(Seq::<char>::empty()));
    }
    out
}

/// The `STATUS` value of a calendar block.
pub open spec fn ics_status_text(status: CalendarBlockStatus) -> Seq<char> {
    match status {
        CalendarBlockStatus::Completed => "COMPLETED"@,
        CalendarBlockStatus::Canceled => "CANCELLED"@,
        _ => "CONFIRMED"@,
    }
}

fn ics_status(status: CalendarBlockStatus) -> (s: &'static str)
    ensures
        s@ == ics_status_text(status),
{
    match status {
        CalendarBlockStatus::Completed => "COMPLETED",
        CalendarBlockStatus::Canceled => "CANCELLED",
        _ => "CONFIRMED",
    }
}

/// An instant in the iCalendar UTC form `YYYYMMDDTHHMMSSZ`.
pub uninterp spec fn ics_stamp_text(t: Timestamp) -> Seq<char>;

/// `chrono`'s `format("%Y%m%dT%H%M%SZ")` of the UTC instant `t`. The contract claims only
/// that the text is a function of `t`.
#[verifier::external_body]
fn ics_stamp(t: Timestamp) -> (s: String)
    ensures
        s@ == ics_stamp_text(t),
{
    chrono::DateTime::from_timestamp_nanos(t).format("%Y%m%dT%H%M%SZ").to_string()
}

/// Whether a block appears in the calendar export (canceled, skipped, moved and on-hold
/// blocks do not).
pub open spec fn ics_exported(status: CalendarBlockStatus) -> bool {
    !(status == CalendarBlockStatus::Canceled || status == CalendarBlockStatus::Skipped || status
        == CalendarBlockStatus::Moved || status == CalendarBlockStatus::OnHold)
}

/// The `VEVENT` of one block.
pub open spec fn ics_event(b: CalendarBlock) -> Seq<char> {
    "BEGIN:VEVENT\r\n"@ + "UID:"@ + ics_escaped(b.id@) + "@openmgmt\r\n"@ + "DTSTAMP:"@
        + ics_stamp_text(b.updated_at) + "\r\n"@ + "DTSTART:"@ + ics_stamp_text(b.start_at)
        + "\r\n"@ + "DTEND:"@ + ics_stamp_text(b.end_at) + "\r\n"@ + "SUMMARY:"@ + ics_escaped(
        b.title@,
    ) + "\r\n"@ + (match b.description {
        Some(d) => "DESCRIPTION:"@ + ics_escaped(d@) + "\r\n"@,
        None => Seq::empty(),
    }) + "STATUS:"@ + ics_status_text(b.status) + "\r\n"@ + "END:VEVENT\r\n"@
}

/// The events of the exported blocks, in order.
pub open spec fn ics_events(blocks: Seq<CalendarBlock>) -> Seq<char>
    decreases blocks.len(),
{
    if blocks.len() == 0 {
        Seq::empty()
    } else if ics_exported(blocks.last().status) {
        ics_events(blocks.drop_last()) + ics_event(blocks.last())
    } else {
        ics_events(blocks.drop_last())
    }
}

/// The calendar header lines.
pub open spec fn ics_header() -> Seq<char> {
    "BEGIN:VCALENDAR\r\nVERSION:2.0\r\nPRODID:-//OpenMgmt//Scheduling Core//EN\r\nCALSCALE:GREGORIAN\r\n"@
}

/// The whole iCalendar document of `blocks`.
pub open spec fn ics_calendar(blocks: Seq<CalendarBlock>) -> Seq<char> {
    ics_header() + ics_events(blocks) + "END:VCALENDAR\r\n"@
}

fn push_event(out: &mut String, block: &CalendarBlock)
    ensures
        final(out)@ == old(out)@ + ics_event(*block),
{
    let ghost start = out@;
    push_str(out, "BEGIN:VEVENT\r\n");
    push_str(out, "UID:");
    let id = ics_escape(block.id.as_str());
    push_str(out, id.as_str());
    push_str(out, "@openmgmt\r\n");
    push_str(out, "DTSTAMP:");
    let s1 = ics_stamp(block.updated_at);
    push_str(out, s1.as_str());
    push_str(out, "\r\n");
    push_str(out, "DTSTART:");
    let s2 = ics_stamp(block.start_at);
    push_str(out, s2.as_str());
    push_str(out, "\r\n");
    push_str(out, "DTEND:");
    let s3 = ics_stamp(block.end_at);
    push_str(out, s3.as_str());
    push_str(out, "\r\n");
    push_str(out, "SUMMARY:");
    let title = ics_escape(block.title.as_str());
    push_str(out, title.as_str());
    push_str(out, "\r\n");
    let ghost mid = out@;
    match &block.description {
        Some(d) => {
            push_str(out, "DESCRIPTION:");
            let e = ics_escape(d.as_str());
            push_str(out, e.as_str());
            push_str(out, "\r\n");
        },
        None => {},
    }
    let ghost after_desc = out@;
    push_str(out, "STATUS:");
    push_str(out, ics_status(block.status));
    push_str(out, "\r\n");
    push_str(out, "END:VEVENT\r\n");
    proof {
        let desc = match &block.description {
            Some(d) => "DESCRIPTION:"@ + ics_escaped(d@) + "\r\n"@,
            None => Seq::empty(),
        };
        assert(after_desc =~= mid + desc);
        assert(out@ =~= start + ics_event(*block));
    }
}

/// The iCalendar document of the active blocks.
pub fn generate_schedule_ics(blocks: &[CalendarBlock]) -> (r: String)
    ensures
        r@ == ics_calendar(blocks@),
{
    let mut output = to_string(
        "BEGIN:VCALENDAR\r\nVERSION:2.0\r\nPRODID:-//OpenMgmt//Scheduling Core//EN\r\nCALSCALE:GREGORIAN\r\n",
    );
    let n = blocks.len();
    let mut i: usize = 0;
    while i < n
        invariant
            n == blocks@.len(),
            i <= n,
            output@ == ics_header() + ics_events(blocks@.take(i as int)),
        decreases n - i,
    {
        let block = &blocks[i];
        let ghost prev = output@;
        proof {
            assert(blocks@.take(i + 1).drop_last() =~= blocks@.take(i as int));
            assert(blocks@.take(i + 1).last() == blocks@[i as int]);
        }
        let status = block.status;
        if !(status == CalendarBlockStatus::Canceled || status == CalendarBlockStatus::Skipped
            || status == CalendarBlockStatus::Moved || status == CalendarBlockStatus::OnHold) {
            push_event(&mut output, block);
            assert(output@ =~= ics_header() + ics_events(blocks@.take(i + 1)));
        }
        i = i + 1;
    }
    push_str(&mut output, "END:VCALENDAR\r\n");
    assert(blocks@.take(n as int) =~= blocks@);
    output
}

/// Day of the week of an instant in UTC, counted from Monday (0) to Sunday (6);
/// 1970-01-01 was a Thursday.
pub open spec fn weekday(t: int) -> int {
    (utc_day(t) + 3) % 7
}

/// Day of the week of an instant in UTC, Monday = 0.
pub fn weekday_of(t: Timestamp) -> (w: i64)
    ensures
        w == weekday(t as int),
        0 <= w < 7,
{
    let d = utc_day_of(t);
    let shifted: i64 = d + 3;
    if shifted >= 0 {
        shifted % 7
    } else {
        let r = (-shifted) % 7;
        assert((shifted as int) % 7 == (if r == 0 { 0 } else { 7 - r })) by {
            assert((-shifted) as int == ((-shifted) as int / 7) * 7 + r);
        }
        if r == 0 { 0 } else { 7 - r }
    }
}

/// Whether an instant falls on a Saturday or Sunday (UTC).
pub open spec fn is_weekend(t: int) -> bool {
    weekday(t) == 5 || weekday(t) == 6
}

/// The first instant a whole number of days after `t` (at least one) that is not on a weekend.
pub open spec fn next_weekday_occurrence(t: int) -> int {
    let next = t + NANOS_PER_DAY;
    if !is_weekend(next) {
        next
    } else if !is_weekend(next + NANOS_PER_DAY) {
        next + NANOS_PER_DAY
    } else {
        next + 2 * NANOS_PER_DAY
    }
}

/// The instant `months` calendar months after `t` (same day of month and time of day, the day
/// clamped to the length of the target month), when it is representable.
pub uninterp spec fn months_later(t: Timestamp, months: u32) -> Option<Timestamp>;

/// `chrono::DateTime::checked_add_months` on the instant `t`, converted back to nanoseconds.
/// The contract claims only that the result is a function of `t` and `months`.
#[verifier::external_body]
fn add_months(t: Timestamp, months: u32) -> (r: Option<Timestamp>)
    ensures
        r == months_later(t, months),
{
    chrono::DateTime::from_timestamp_nanos(t)
        .checked_add_months(chrono::Months::new(months))
        .and_then(|d| d.timestamp_nanos_opt())
}

/// The next occurrence of a recurring task after `occurrence`.
pub open spec fn next_recurrence(rule: RecurrenceRule, occurrence: Timestamp) -> Option<int> {
    match rule {
        RecurrenceRule::NoRecurrence => None,
        RecurrenceRule::Daily => Some(occurrence + NANOS_PER_DAY),
        RecurrenceRule::Weekdays => Some(next_weekday_occurrence(occurrence as int)),
        RecurrenceRule::Weekly => Some(occurrence + NANOS_PER_WEEK),
        RecurrenceRule::Monthly => match months_later(occurrence, 1) {
            Some(t) => Some(t as int),
            None => None,
        },
    }
}

/// The next occurrence of a task repeating by `rule` after `occurrence`; `None` when it does
/// not repeat or the next month is not representable.
pub fn next_recurrence_at(rule: RecurrenceRule, occurrence: Timestamp) -> (r: Option<Timestamp>)
    requires
        occurrence + 3 * NANOS_PER_DAY <= i64::MAX,
        occurrence + NANOS_PER_WEEK <= i64::MAX,
    ensures
        match r {
            Some(t) => next_recurrence(rule, occurrence) == Some(t as int),
            None => next_recurrence(rule, occurrence) is None,
        },
{
    match rule {
        RecurrenceRule::NoRecurrence => None,
        RecurrenceRule::Daily => Some(occurrence + NANOS_PER_DAY),
        RecurrenceRule::Weekdays => {
            let mut next = occurrence + NANOS_PER_DAY;
            let w1 = weekday_of(next);
            if w1 == 5 || w1 == 6 {
                next = next + NANOS_PER_DAY;
                let w2 = weekday_of(next);
                if w2 == 5 || w2 == 6 {
                    next = next + NANOS_PER_DAY;
                }
            }
            Some(next)
        },
        RecurrenceRule::Weekly => Some(occurrence + NANOS_PER_WEEK),
        RecurrenceRule::Monthly => add_months(occurrence, 1),
    }
}

/// A weekday recurrence never lands on a weekend.
pub proof fn lemma_weekday_recurrence_skips_weekends(t: int)
    ensures
        !is_weekend(next_weekday_occurrence(t)),
        next_weekday_occurrence(t) > t,
{
    let a = t + NANOS_PER_DAY;
    assert(utc_day(a + NANOS_PER_DAY) == utc_day(a) + 1);
    assert(utc_day(a + 2 * NANOS_PER_DAY) == utc_day(a) + 2);
}

} // verus!
