//! A project: its tasks, their one-level hierarchy and its dependencies.
use vstd::prelude::*;

use crate::task::{children, copy_task, has_child, lemma_children_prefix_grows, lemma_children_step, Dependency, Task, TaskId, PROGRESS_FULL};

verus! {

/// Earliest start among `cs` (meaningful for a non-empty `cs`).
pub open spec fn min_start(cs: Seq<Task>) -> i64
    decreases cs.len(),
{
    if cs.len() <= 1 {
        cs[0].start
    } else if cs.last().start < min_start(cs.drop_last()) {
        cs.last().start
    } else {
        min_start(cs.drop_last())
    }
}

/// Latest end among `cs` (meaningful for a non-empty `cs`).
pub open spec fn max_end(cs: Seq<Task>) -> i64
    decreases cs.len(),
{
    if cs.len() <= 1 {
        cs[0].end
    } else if cs.last().end > max_end(cs.drop_last()) {
        cs.last().end
    } else {
        max_end(cs.drop_last())
    }
}

/// Sum of the progress values of `cs`.
pub open spec fn progress_sum(cs: Seq<Task>) -> nat
    decreases cs.len(),
{
    if cs.len() == 0 {
        0
    } else {
        progress_sum(cs.drop_last()) + cs.last().progress as nat
    }
}

/// Mean progress of a non-empty `cs`, rounded down to a whole millionth.
pub open spec fn mean_progress(cs: Seq<Task>) -> nat {
    progress_sum(cs) / cs.len()
}

/// What `t` becomes when its dates and progress are derived from its
/// children in `ts`; a task without children stays as it is.
pub open spec fn derived(ts: Seq<Task>, t: Task) -> Task {
    let cs = children(ts, t.id);
    if cs.len() == 0 {
        t
    } else {
        Task { start: min_start(cs), end: max_end(cs), progress: mean_progress(cs) as u32, ..t }
    }
}

/// The task list after every parent has been derived from its children.
pub open spec fn recalculated(ts: Seq<Task>) -> Seq<Task> {
    ts.map_values(|t: Task| derived(ts, t))
}

/// One level of nesting: a task that has a parent has no children.
pub open spec fn single_level(ts: Seq<Task>) -> bool {
    forall|k: int|
        0 <= k < ts.len() && (#[trigger] ts[k]).parent_id.is_some() ==> children(ts, ts[k].id).len()
            == 0
}

/// The tasks of `ts` that have no parent, in order.
pub open spec fn top_level(ts: Seq<Task>) -> Seq<Task>
    decreases ts.len(),
{
    if ts.len() == 0 {
        Seq::empty()
    } else if ts.last().parent_id.is_none() {
        top_level(ts.drop_last()).push(ts.last())
    } else {
        top_level(ts.drop_last())
    }
}

/// Each task of `tops` followed by its children in `ts`.
pub open spec fn groups(ts: Seq<Task>, tops: Seq<Task>) -> Seq<Task>
    decreases tops.len(),
{
    if tops.len() == 0 {
        Seq::empty()
    } else {
        groups(ts, tops.drop_last()) + seq![tops.last()] + children(ts, tops.last().id)
    }
}

/// Whether `p` is the id of a top-level task of `all`.
pub open spec fn is_top_level_id(all: Seq<Task>, p: TaskId) -> bool {
    exists|k: int| 0 <= k < all.len() && (#[trigger] all[k]).parent_id.is_none() && all[k].id == p
}

/// The tasks of `ts` whose parent is not a top-level task of `all`, in order.
pub open spec fn orphans(ts: Seq<Task>, all: Seq<Task>) -> Seq<Task>
    decreases ts.len(),
{
    if ts.len() == 0 {
        Seq::empty()
    } else if ts.last().parent_id.is_some() && !is_top_level_id(all, ts.last().parent_id.unwrap()) {
        orphans(ts.drop_last(), all).push(ts.last())
    } else {
        orphans(ts.drop_last(), all)
    }
}

/// The grouped order of `ts`: every top-level task followed by its children,
/// then the tasks whose parent cannot be found.
pub open spec fn grouped(ts: Seq<Task>) -> Seq<Task> {
    groups(ts, top_level(ts)) + orphans(ts, ts)
}

/// Two task lists that agree on every parent link, and on every task that has
/// a parent, have the same children under every parent.
pub proof fn lemma_children_agree(a: Seq<Task>, b: Seq<Task>, pid: TaskId)
    requires
        a.len() == b.len(),
        forall|k: int| 0 <= k < a.len() ==> (#[trigger] a[k]).parent_id == b[k].parent_id,
        forall|k: int| 0 <= k < a.len() && (#[trigger] a[k]).parent_id.is_some() ==> a[k] == b[k],
    ensures
        children(a, pid) == children(b, pid),
    decreases a.len(),
{
    if a.len() > 0 {
        let (a0, b0) = (a.drop_last(), b.drop_last());
        assert forall|k: int| 0 <= k < a0.len() implies (#[trigger] a0[k]).parent_id == b0[k].parent_id by {
            assert(a[k].parent_id == b[k].parent_id);
        }
        assert forall|k: int| 0 <= k < a0.len() && (#[trigger] a0[k]).parent_id.is_some() implies a0[k] == b0[k] by {
            assert(a[k].parent_id.is_some());
        }
        lemma_children_agree(a0, b0, pid);
        assert(a.last().parent_id == b.last().parent_id);
    }
}

/// Recalculating the parents a second time, with no change to the children
/// in between, changes nothing: the derived values are already in place.
/// This holds for task lists with one level of nesting.
pub proof fn lemma_recalculate_idempotent(ts: Seq<Task>)
    requires
        single_level(ts),
    ensures
        recalculated(recalculated(ts)) == recalculated(ts),
{
    let r = recalculated(ts);
    assert forall|k: int| 0 <= k < r.len() implies (#[trigger] r[k]).parent_id == ts[k].parent_id by {}
    assert forall|k: int| 0 <= k < r.len() && (#[trigger] r[k]).parent_id.is_some() implies r[k] == ts[k] by {
        assert(ts[k].parent_id.is_some());
    }
    assert forall|k: int| 0 <= k < r.len() implies (#[trigger] recalculated(r)[k]) == r[k] by {
        lemma_children_agree(r, ts, r[k].id);
    }
    assert(recalculated(r) =~= r);
}

/// A parent with exactly two children takes the earlier start, the later end
/// and the mean of the two progress values.
pub proof fn lemma_two_children_derivation(ts: Seq<Task>, parent: Task, c1: Task, c2: Task)
    requires
        children(ts, parent.id) == seq![c1, c2],
    ensures
        derived(ts, parent).start == if c1.start <= c2.start { c1.start } else { c2.start },
        derived(ts, parent).end == if c1.end >= c2.end { c1.end } else { c2.end },
        derived(ts, parent).progress == (c1.progress + c2.progress) / 2,
{
    let cs = seq![c1, c2];
    assert(cs.drop_last() =~= seq![c1]);
    assert(progress_sum(seq![c1].drop_last()) == 0);
    assert(min_start(seq![c1]) == c1.start);
    assert(max_end(seq![c1]) == c1.end);
    assert(cs.last() == c2);
    assert(progress_sum(seq![c1]) == c1.progress);
    assert(progress_sum(cs) == c1.progress + c2.progress);
    assert(mean_progress(cs) == (c1.progress + c2.progress) / 2);
    let (pa, pb) = (c1.progress as int, c2.progress as int);
    assert((pa + pb) / 2 <= u32::MAX) by (nonlinear_arith)
        requires
            0 <= pa <= u32::MAX,
            0 <= pb <= u32::MAX,
    ;
    assert((mean_progress(cs) as u32) as int == mean_progress(cs));
    assert(min_start(cs) == if c2.start < c1.start { c2.start } else { c1.start });
    assert(max_end(cs) == if c2.end > c1.end { c2.end } else { c1.end });
}

/// Every task's progress lies between 0% and 100%.
pub open spec fn progress_in_range(ts: Seq<Task>) -> bool {
    forall|k: int| 0 <= k < ts.len() ==> (#[trigger] ts[k]).progress <= PROGRESS_FULL
}

proof fn lemma_children_progress_sum(ts: Seq<Task>, pid: TaskId)
    requires
        progress_in_range(ts),
    ensures
        progress_sum(children(ts, pid)) <= children(ts, pid).len() * PROGRESS_FULL,
    decreases ts.len(),
{
    if ts.len() > 0 {
        let prev = ts.drop_last();
        assert(progress_in_range(prev)) by {
            assert forall|k: int| 0 <= k < prev.len() implies (#[trigger] prev[k]).progress <= PROGRESS_FULL by {
                assert(prev[k] == ts[k]);
            }
        }
        lemma_children_progress_sum(prev, pid);
        let cs = children(prev, pid);
        if ts.last().parent_id == Some(pid) {
            assert(cs.push(ts.last()).drop_last() =~= cs);
            assert(ts.last().progress <= PROGRESS_FULL) by {
                assert(ts[ts.len() - 1].progress <= PROGRESS_FULL);
            }
        }
    }
}

/// Deriving the parents keeps every progress value between 0% and 100%.
pub proof fn lemma_recalculate_keeps_progress_in_range(ts: Seq<Task>)
    requires
        progress_in_range(ts),
    ensures
        progress_in_range(recalculated(ts)),
{
    let r = recalculated(ts);
    assert forall|k: int| 0 <= k < r.len() implies (#[trigger] r[k]).progress <= PROGRESS_FULL by {
        let cs = children(ts, ts[k].id);
        if cs.len() > 0 {
            lemma_children_progress_sum(ts, ts[k].id);
            let (sum, n) = (progress_sum(cs) as int, cs.len() as int);
            assert(sum / n <= PROGRESS_FULL) by (nonlinear_arith)
                requires
                    sum <= n * PROGRESS_FULL,
                    n > 0,
                    sum >= 0,
                    PROGRESS_FULL == 1_000_000,
            ;
        }
    }
}

/// No two tasks share an id.
pub open spec fn unique_ids(ts: Seq<Task>) -> bool {
    forall|i: int, j: int| 0 <= i < ts.len() && 0 <= j < ts.len() && i != j ==> #[trigger] ts[i].id != #[trigger] ts[j].id
}

/// The tasks of `ts` whose parent is a top-level task of `all`, in order.
pub open spec fn linked(ts: Seq<Task>, all: Seq<Task>) -> Seq<Task>
    decreases ts.len(),
{
    if ts.len() == 0 {
        Seq::empty()
    } else if ts.last().parent_id.is_some() && is_top_level_id(all, ts.last().parent_id.unwrap()) {
        linked(ts.drop_last(), all).push(ts.last())
    } else {
        linked(ts.drop_last(), all)
    }
}

/// Every task is top-level, linked to a top-level task of `all`, or an
/// orphan with respect to `all`, and only one of these.
proof fn lemma_partition(ts: Seq<Task>, all: Seq<Task>)
    ensures
        top_level(ts).len() + linked(ts, all).len() + orphans(ts, all).len() == ts.len(),
    decreases ts.len(),
{
    if ts.len() > 0 {
        lemma_partition(ts.drop_last(), all);
    }
}

/// Adding a top-level task with a new id to `all` adds exactly its children
/// to the linked tasks.
proof fn lemma_linked_grows(xs: Seq<Task>, all: Seq<Task>, t: Task)
    requires
        t.parent_id.is_none(),
        !is_top_level_id(all, t.id),
    ensures
        linked(xs, all.push(t)).len() == linked(xs, all).len() + children(xs, t.id).len(),
    decreases xs.len(),
{
    if xs.len() > 0 {
        lemma_linked_grows(xs.drop_last(), all, t);
        let x = xs.last();
        if let Some(p) = x.parent_id {
            let big = all.push(t);
            if is_top_level_id(all, p) {
                let k = choose|k: int| 0 <= k < all.len() && (#[trigger] all[k]).parent_id.is_none() && all[k].id == p;
                assert(big[k] == all[k]);
                assert(is_top_level_id(big, p));
            } else if p == t.id {
                assert(big[all.len() as int] == t);
                assert(is_top_level_id(big, p));
            } else {
                assert(!is_top_level_id(big, p)) by {
                    if is_top_level_id(big, p) {
                        let k = choose|k: int| 0 <= k < big.len() && (#[trigger] big[k]).parent_id.is_none() && big[k].id == p;
                        if k < all.len() {
                            assert(all[k] == big[k]);
                        }
                    }
                }
            }
        }
    }
}

/// The groups of the top-level tasks of a prefix hold those tasks and every
/// task linked to them.
proof fn lemma_groups_len(ts: Seq<Task>, i: int)
    requires
        unique_ids(ts),
        0 <= i <= ts.len(),
    ensures
        groups(ts, top_level(ts.subrange(0, i))).len() == top_level(ts.subrange(0, i)).len() + linked(
            ts,
            ts.subrange(0, i),
        ).len(),
    decreases i,
{
    if i == 0 {
        assert(ts.subrange(0, 0).len() == 0);
        lemma_linked_empty(ts, ts.subrange(0, 0));
    } else {
        lemma_groups_len(ts, i - 1);
        let (pre, cur) = (ts.subrange(0, i - 1), ts.subrange(0, i));
        assert(cur.drop_last() =~= pre);
        assert(cur =~= pre.push(ts[i - 1]));
        let t = ts[i - 1];
        if t.parent_id.is_none() {
            assert(!is_top_level_id(pre, t.id)) by {
                if is_top_level_id(pre, t.id) {
                    let k = choose|k: int| 0 <= k < pre.len() && (#[trigger] pre[k]).parent_id.is_none() && pre[k].id == t.id;
                    assert(ts[k].id == ts[i - 1].id);
                }
            }
            lemma_linked_grows(ts, pre, t);
            let tops = top_level(pre);
            assert(top_level(cur) == tops.push(t));
            assert(tops.push(t).drop_last() =~= tops);
        } else {
            lemma_linked_same(ts, pre, t);
        }
    }
}

proof fn lemma_linked_empty(xs: Seq<Task>, all: Seq<Task>)
    requires
        all.len() == 0,
    ensures
        linked(xs, all).len() == 0,
    decreases xs.len(),
{
    if xs.len() > 0 {
        lemma_linked_empty(xs.drop_last(), all);
    }
}

/// Adding a task that has a parent to `all` changes no link.
proof fn lemma_linked_same(xs: Seq<Task>, all: Seq<Task>, t: Task)
    requires
        t.parent_id.is_some(),
    ensures
        linked(xs, all.push(t)) == linked(xs, all),
    decreases xs.len(),
{
    if xs.len() > 0 {
        lemma_linked_same(xs.drop_last(), all, t);
        let big = all.push(t);
        if let Some(p) = xs.last().parent_id {
            if is_top_level_id(all, p) {
                let k = choose|k: int| 0 <= k < all.len() && (#[trigger] all[k]).parent_id.is_none() && all[k].id == p;
                assert(big[k] == all[k]);
            }
            if is_top_level_id(big, p) {
                let k = choose|k: int| 0 <= k < big.len() && (#[trigger] big[k]).parent_id.is_none() && big[k].id == p;
                assert(k < all.len());
                assert(all[k] == big[k]);
            }
        }
    }
}

/// With unique ids, the grouped order has exactly as many tasks as the
/// list it was made from: every task stands in one group or among the
/// orphans.
pub proof fn lemma_grouped_keeps_count(ts: Seq<Task>)
    requires
        unique_ids(ts),
    ensures
        grouped(ts).len() == ts.len(),
{
    lemma_groups_len(ts, ts.len() as int);
    assert(ts.subrange(0, ts.len() as int) =~= ts);
    lemma_partition(ts, ts);
}

proof fn lemma_top_level_concat(a: Seq<Task>, b: Seq<Task>)
    ensures
        top_level(a + b) == top_level(a) + top_level(b),
    decreases b.len(),
{
    if b.len() == 0 {
        assert(a + b =~= a);
        assert(top_level(a) + top_level(b) =~= top_level(a));
    } else {
        assert((a + b).drop_last() =~= a + b.drop_last());
        lemma_top_level_concat(a, b.drop_last());
        if b.last().parent_id.is_none() {
            assert(top_level(a) + top_level(b.drop_last()).push(b.last()) =~= (top_level(a) + top_level(
                b.drop_last(),
            )).push(b.last()));
        }
    }
}

proof fn lemma_children_concat(a: Seq<Task>, b: Seq<Task>, q: TaskId)
    ensures
        children(a + b, q) == children(a, q) + children(b, q),
    decreases b.len(),
{
    if b.len() == 0 {
        assert(a + b =~= a);
        assert(children(a, q) + children(b, q) =~= children(a, q));
    } else {
        assert((a + b).drop_last() =~= a + b.drop_last());
        lemma_children_concat(a, b.drop_last(), q);
        if b.last().parent_id == Some(q) {
            assert(children(a, q) + children(b.drop_last(), q).push(b.last()) =~= (children(a, q)
                + children(b.drop_last(), q)).push(b.last()));
        }
    }
}

proof fn lemma_no_top_level_children(ts: Seq<Task>, p: TaskId)
    ensures
        top_level(children(ts, p)) == Seq::<Task>::empty(),
    decreases ts.len(),
{
    if ts.len() > 0 {
        lemma_no_top_level_children(ts.drop_last(), p);
        let c = children(ts.drop_last(), p);
        if ts.last().parent_id == Some(p) {
            assert(c.push(ts.last()).drop_last() =~= c);
        }
    }
}

proof fn lemma_no_top_level_orphans(ts: Seq<Task>, all: Seq<Task>)
    ensures
        top_level(orphans(ts, all)) == Seq::<Task>::empty(),
    decreases ts.len(),
{
    if ts.len() > 0 {
        lemma_no_top_level_orphans(ts.drop_last(), all);
        let o = orphans(ts.drop_last(), all);
        if orphans(ts, all) != o {
            assert(o.push(ts.last()).drop_last() =~= o);
        }
    }
}

proof fn lemma_children_of_children(ts: Seq<Task>, p: TaskId, q: TaskId)
    ensures
        children(children(ts, p), q) == if p == q { children(ts, p) } else { Seq::<Task>::empty() },
    decreases ts.len(),
{
    if ts.len() > 0 {
        lemma_children_of_children(ts.drop_last(), p, q);
        let c = children(ts.drop_last(), p);
        if ts.last().parent_id == Some(p) {
            assert(c.push(ts.last()).drop_last() =~= c);
        }
    }
}

proof fn lemma_children_of_orphans(ts: Seq<Task>, all: Seq<Task>, q: TaskId)
    ensures
        children(orphans(ts, all), q) == if is_top_level_id(all, q) {
            Seq::<Task>::empty()
        } else {
            children(ts, q)
        },
    decreases ts.len(),
{
    if ts.len() > 0 {
        lemma_children_of_orphans(ts.drop_last(), all, q);
        let o = orphans(ts.drop_last(), all);
        if orphans(ts, all) != o {
            assert(o.push(ts.last()).drop_last() =~= o);
        }
    }
}

/// `is_top_level_id` on a list with one more task.
proof fn lemma_top_level_id_push(all: Seq<Task>, t: Task, q: TaskId)
    ensures
        is_top_level_id(all.push(t), q) == (is_top_level_id(all, q) || (t.parent_id.is_none() && t.id
            == q)),
{
    let big = all.push(t);
    if is_top_level_id(all, q) {
        let k = choose|k: int| 0 <= k < all.len() && (#[trigger] all[k]).parent_id.is_none() && all[k].id == q;
        assert(big[k] == all[k]);
    }
    if t.parent_id.is_none() && t.id == q {
        assert(big[all.len() as int] == t);
    }
    if is_top_level_id(big, q) {
        let k = choose|k: int| 0 <= k < big.len() && (#[trigger] big[k]).parent_id.is_none() && big[k].id == q;
        if k < all.len() {
            assert(all[k] == big[k]);
        }
    }
}

/// The groups of the top-level tasks of a prefix, as seen through their
/// parent links.
proof fn lemma_children_of_groups(ts: Seq<Task>, i: int, q: TaskId)
    requires
        unique_ids(ts),
        0 <= i <= ts.len(),
    ensures
        children(groups(ts, top_level(ts.subrange(0, i))), q) == if is_top_level_id(ts.subrange(0, i), q) {
            children(ts, q)
        } else {
            Seq::<Task>::empty()
        },
    decreases i,
{
    if i == 0 {
        assert(top_level(ts.subrange(0, 0)) == Seq::<Task>::empty());
    } else {
        lemma_children_of_groups(ts, i - 1, q);
        let (pre, cur) = (ts.subrange(0, i - 1), ts.subrange(0, i));
        assert(cur.drop_last() =~= pre);
        assert(cur =~= pre.push(ts[i - 1]));
        let t = ts[i - 1];
        lemma_top_level_id_push(pre, t, q);
        if t.parent_id.is_none() {
            assert(!is_top_level_id(pre, t.id)) by {
                if is_top_level_id(pre, t.id) {
                    let k = choose|k: int| 0 <= k < pre.len() && (#[trigger] pre[k]).parent_id.is_none() && pre[k].id == t.id;
                    assert(ts[k].id == ts[i - 1].id);
                }
            }
            let tops = top_level(pre);
            assert(top_level(cur) == tops.push(t));
            assert(tops.push(t).drop_last() =~= tops);
            let g = groups(ts, tops);
            lemma_children_concat(g + seq![t], children(ts, t.id), q);
            lemma_children_concat(g, seq![t], q);
            assert(seq![t].drop_last() =~= Seq::<Task>::empty());
            lemma_children_of_children(ts, t.id, q);
            assert(groups(ts, tops.push(t)) == g + seq![t] + children(ts, t.id));
            assert(seq![t].last() == t);
            assert(children(Seq::<Task>::empty(), q) == Seq::<Task>::empty());
            assert(children(seq![t], q) == children(seq![t].drop_last(), q));
            assert(children(seq![t], q) =~= Seq::<Task>::empty());
            assert(children(groups(ts, top_level(cur)), q) =~= if is_top_level_id(cur, q) {
                children(ts, q)
            } else {
                Seq::<Task>::empty()
            });
        }
    }
}

/// Top-level tasks of `tops` in order, followed by children and orphans:
/// the top-level tasks of the groups are `tops` themselves.
proof fn lemma_top_level_of_groups(ts: Seq<Task>, tops: Seq<Task>)
    requires
        forall|i: int| 0 <= i < tops.len() ==> (#[trigger] tops[i]).parent_id.is_none(),
    ensures
        top_level(groups(ts, tops)) == tops,
    decreases tops.len(),
{
    if tops.len() > 0 {
        let t = tops.last();
        let t0 = tops.drop_last();
        assert forall|i: int| 0 <= i < t0.len() implies (#[trigger] t0[i]).parent_id.is_none() by {
            assert(t0[i] == tops[i]);
        }
        lemma_top_level_of_groups(ts, t0);
        let g = groups(ts, t0);
        lemma_top_level_concat(g + seq![t], children(ts, t.id));
        lemma_top_level_concat(g, seq![t]);
        assert(seq![t].drop_last() =~= Seq::<Task>::empty());
        assert(t == tops[tops.len() - 1]);
        lemma_no_top_level_children(ts, t.id);
        assert(groups(ts, tops) == g + seq![t] + children(ts, t.id));
        assert(seq![t].last() == t);
        assert(top_level(Seq::<Task>::empty()) == Seq::<Task>::empty());
        assert(top_level(seq![t]) == top_level(seq![t].drop_last()).push(t));
        assert(Seq::<Task>::empty().push(t) =~= seq![t]);
        assert(top_level(seq![t]) =~= seq![t]);
        assert(t0.push(t) =~= tops);
        assert(top_level(groups(ts, tops)) =~= tops);
    }
}

proof fn lemma_top_level_has_no_parent(ts: Seq<Task>)
    ensures
        forall|i: int| 0 <= i < top_level(ts).len() ==> (#[trigger] top_level(ts)[i]).parent_id.is_none(),
    decreases ts.len(),
{
    if ts.len() > 0 {
        lemma_top_level_has_no_parent(ts.drop_last());
        let t0 = top_level(ts.drop_last());
        assert forall|i: int| 0 <= i < top_level(ts).len() implies (#[trigger] top_level(ts)[i]).parent_id.is_none() by {
            if i < t0.len() {
                assert(t0[i] == top_level(ts)[i]);
            }
        }
    }
}

/// Grouping keeps the top-level tasks in the order they had.
pub proof fn lemma_grouped_keeps_top_level_order(ts: Seq<Task>)
    ensures
        top_level(grouped(ts)) == top_level(ts),
{
    lemma_top_level_has_no_parent(ts);
    lemma_top_level_of_groups(ts, top_level(ts));
    lemma_top_level_concat(groups(ts, top_level(ts)), orphans(ts, ts));
    lemma_no_top_level_orphans(ts, ts);
    assert(top_level(grouped(ts)) =~= top_level(ts));
}

/// With unique ids, grouping keeps the children of every parent in the
/// order they had; the same holds of the tasks whose parent is missing.
pub proof fn lemma_grouped_keeps_child_order(ts: Seq<Task>, q: TaskId)
    requires
        unique_ids(ts),
    ensures
        children(grouped(ts), q) == children(ts, q),
{
    lemma_children_of_groups(ts, ts.len() as int, q);
    assert(ts.subrange(0, ts.len() as int) =~= ts);
    lemma_children_concat(groups(ts, top_level(ts)), orphans(ts, ts), q);
    lemma_children_of_orphans(ts, ts, q);
    assert(children(grouped(ts), q) =~= children(ts, q));
}

proof fn lemma_groups_prefix(ts: Seq<Task>, tops: Seq<Task>, j: int)
    requires
        0 <= j <= tops.len(),
    ensures
        groups(ts, tops.take(j)).len() <= groups(ts, tops).len(),
        groups(ts, tops).subrange(0, groups(ts, tops.take(j)).len() as int) == groups(ts, tops.take(j)),
    decreases tops.len(),
{
    if j == tops.len() {
        assert(tops.take(j) =~= tops);
        assert(groups(ts, tops).subrange(0, groups(ts, tops).len() as int) =~= groups(ts, tops));
    } else {
        let t0 = tops.drop_last();
        assert(t0.take(j) =~= tops.take(j));
        lemma_groups_prefix(ts, t0, j);
        let g0 = groups(ts, t0);
        let gj = groups(ts, tops.take(j));
        assert(groups(ts, tops) == g0 + seq![tops.last()] + children(ts, tops.last().id));
        assert(groups(ts, tops).subrange(0, gj.len() as int) =~= g0.subrange(0, gj.len() as int));
    }
}

/// In the grouped order every top-level task is immediately followed by all
/// of its children, in the order they had: the block starts where the groups
/// of the earlier top-level tasks end.
pub proof fn lemma_grouped_parent_then_children(ts: Seq<Task>, k: int)
    requires
        0 <= k < top_level(ts).len(),
    ensures
        ({
            let (tops, t) = (top_level(ts), top_level(ts)[k]);
            let o = groups(ts, tops.take(k)).len() as int;
            &&& o + 1 + children(ts, t.id).len() <= grouped(ts).len()
            &&& grouped(ts).subrange(o, o + 1 + children(ts, t.id).len()) == seq![t] + children(ts, t.id)
        }),
{
    let (tops, t) = (top_level(ts), top_level(ts)[k]);
    let o = groups(ts, tops.take(k)).len() as int;
    let block = seq![t] + children(ts, t.id);
    lemma_groups_prefix(ts, tops, k + 1);
    let next = tops.take(k + 1);
    assert(next.drop_last() =~= tops.take(k));
    assert(next.last() == t);
    let gk1 = groups(ts, next);
    assert(gk1 == groups(ts, tops.take(k)) + seq![t] + children(ts, t.id));
    assert(gk1.len() == o + block.len());
    let g = grouped(ts);
    assert(g.subrange(0, gk1.len() as int) =~= gk1) by {
        assert(g.subrange(0, gk1.len() as int) =~= groups(ts, tops).subrange(0, gk1.len() as int));
    }
    assert(g.subrange(o, o + block.len()) =~= block) by {
        assert forall|i: int| 0 <= i < block.len() implies g.subrange(o, o + block.len())[i] == block[i] by {
            assert(g[o + i] == g.subrange(0, gk1.len() as int)[o + i]);
            assert(gk1[o + i] == block[i]);
        }
    }
}

/// Whether some task of `all` has the id `p`.
pub open spec fn has_task_id(all: Seq<Task>, p: TaskId) -> bool {
    exists|u: int| 0 <= u < all.len() && (#[trigger] all[u]).id == p
}

/// The tasks of `ts` whose parent id names no task of `all`, in order.
pub open spec fn dangling(ts: Seq<Task>, all: Seq<Task>) -> Seq<Task>
    decreases ts.len(),
{
    if ts.len() == 0 {
        Seq::empty()
    } else if ts.last().parent_id.is_some() && !has_task_id(all, ts.last().parent_id.unwrap()) {
        dangling(ts.drop_last(), all).push(ts.last())
    } else {
        dangling(ts.drop_last(), all)
    }
}

proof fn lemma_orphans_are_dangling(xs: Seq<Task>, all: Seq<Task>)
    requires
        forall|i: int|
            0 <= i < xs.len() && (#[trigger] xs[i]).parent_id.is_some() ==> is_top_level_id(
                all,
                xs[i].parent_id.unwrap(),
            ) == has_task_id(all, xs[i].parent_id.unwrap()),
    ensures
        orphans(xs, all) == dangling(xs, all),
    decreases xs.len(),
{
    if xs.len() > 0 {
        let x0 = xs.drop_last();
        assert forall|i: int|
            0 <= i < x0.len() && (#[trigger] x0[i]).parent_id.is_some() implies is_top_level_id(
                all,
                x0[i].parent_id.unwrap(),
            ) == has_task_id(all, x0[i].parent_id.unwrap()) by {
            assert(x0[i] == xs[i]);
        }
        lemma_orphans_are_dangling(x0, all);
        assert(xs.last() == xs[xs.len() - 1]);
    }
}

/// With one level of nesting, the tasks placed after all groups are exactly
/// those whose parent id names no task at all, in the order they had.
pub proof fn lemma_grouped_ends_with_dangling(ts: Seq<Task>)
    requires
        single_level(ts),
    ensures
        grouped(ts) == groups(ts, top_level(ts)) + dangling(ts, ts),
{
    assert forall|i: int|
        0 <= i < ts.len() && (#[trigger] ts[i]).parent_id.is_some() implies is_top_level_id(
            ts,
            ts[i].parent_id.unwrap(),
        ) == has_task_id(ts, ts[i].parent_id.unwrap()) by {
        let p = ts[i].parent_id.unwrap();
        if is_top_level_id(ts, p) {
            let k = choose|k: int| 0 <= k < ts.len() && (#[trigger] ts[k]).parent_id.is_none() && ts[k].id == p;
            assert(ts[k].id == p);
        }
        if has_task_id(ts, p) {
            let u = choose|u: int| 0 <= u < ts.len() && (#[trigger] ts[u]).id == p;
            lemma_children_step(ts, p, i);
            assert(children(ts.subrange(0, i + 1), p).len() > 0);
            lemma_children_prefix_grows(ts, p, i + 1);
            assert(ts[u].parent_id.is_none());
            assert(ts[u].parent_id.is_none() && ts[u].id == p);
        }
    }
    lemma_orphans_are_dangling(ts, ts);
}

/// Relies on chrono::Utc::now, the current time of the system clock; nothing
/// is promised of it.
#[verifier::external_body]
fn now_timestamp() -> (t: i64) {
    chrono::Utc::now().timestamp()
}

/// Schema version assumed for a record that states none.
pub fn default_version() -> (v: u32)
    ensures
        v == 1,
{
    1
}

/// Schema version that this library writes: full timestamp resolution.
pub const CURRENT_VERSION: u32 = 3;

/// A Gantt project: tasks, dependencies and metadata. `created` and
/// `modified` count seconds from 1970-01-01T00:00:00 UTC.
#[derive(Debug, Clone)]
pub struct Project {
    /// Schema version of the record.
    pub version: u32,
    pub name: String,
    pub tasks: Vec<Task>,
    pub dependencies: Vec<Dependency>,
    pub created: i64,
    pub modified: i64,
}

impl Default for Project {
    fn default() -> (p: Project)
        ensures
            p.version == CURRENT_VERSION,
            p.name@ == "Untitled Project"@,
            p.tasks@.len() == 0,
            p.dependencies@.len() == 0,
    {
        let created = now_timestamp();
        let modified = now_timestamp();
        Project {
            version: CURRENT_VERSION,
            name: String::from_str("Untitled Project"),
            tasks: Vec::new(),
            dependencies: Vec::new(),
            created,
            modified,
        }
    }
}

/// Earliest start, latest end and mean progress of the children of `pid`,
/// or `None` when it has none.
fn child_summary(ts: &Vec<Task>, pid: TaskId) -> (r: Option<(i64, i64, u32)>)
    ensures
        children(ts@, pid).len() == 0 <==> r.is_none(),
        r matches Some(v) ==> v == (
            min_start(children(ts@, pid)),
            max_end(children(ts@, pid)),
            mean_progress(children(ts@, pid)) as u32,
        ),
{
    let mut count: usize = 0;
    let mut lo: i64 = 0;
    let mut hi: i64 = 0;
    let mut sum: u128 = 0;
    let mut i: usize = 0;
    while i < ts.len()
        invariant
            i <= ts@.len(),
            count == children(ts@.subrange(0, i as int), pid).len(),
            count <= i,
            count > 0 ==> lo == min_start(children(ts@.subrange(0, i as int), pid)),
            count > 0 ==> hi == max_end(children(ts@.subrange(0, i as int), pid)),
            sum == progress_sum(children(ts@.subrange(0, i as int), pid)),
            sum <= count * 0xFFFF_FFFFu128,
        decreases ts@.len() - i,
    {
        proof {
            lemma_children_step(ts@, pid, i as int);
        }
        let t = &ts[i];
        if t.parent_id == Some(pid) {
            let ghost before = children(ts@.subrange(0, i as int), pid);
            proof {
                assert(before.push(*t).drop_last() =~= before);
            }
            if count == 0 || t.start < lo {
                lo = t.start;
            }
            if count == 0 || t.end > hi {
                hi = t.end;
            }
            sum = sum + t.progress as u128;
            count = count + 1;
        }
        i = i + 1;
    }
    assert(ts@.subrange(0, i as int) =~= ts@);
    if count == 0 {
        None
    } else {
        let mean = sum / (count as u128);
        proof {
            assert(mean <= 0xFFFF_FFFFu128) by (nonlinear_arith)
                requires
                    mean == sum / (count as u128),
                    sum <= count * 0xFFFF_FFFFu128,
                    count > 0,
            ;
        }
        Some((lo, hi, mean as u32))
    }
}

/// Whether `p` is the id of a top-level task of `ts`.
fn has_top_level_id(ts: &Vec<Task>, p: TaskId) -> (r: bool)
    ensures
        r == is_top_level_id(ts@, p),
{
    let mut i: usize = 0;
    while i < ts.len()
        invariant
            i <= ts@.len(),
            forall|k: int| 0 <= k < i ==> !((#[trigger] ts@[k]).parent_id.is_none() && ts@[k].id == p),
        decreases ts@.len() - i,
    {
        if ts[i].parent_id.is_none() && ts[i].id == p {
            assert(ts@[i as int].parent_id.is_none() && ts@[i as int].id == p);
            return true;
        }
        i = i + 1;
    }
    false
}

impl Project {
    /// An empty project named `name`.
    pub fn new(name: String) -> (p: Project)
        ensures
            p.version == CURRENT_VERSION,
            p.name == name,
            p.tasks@.len() == 0,
            p.dependencies@.len() == 0,
    {
        let created = now_timestamp();
        let modified = now_timestamp();
        Project { version: CURRENT_VERSION, name, tasks: Vec::new(), dependencies: Vec::new(), created, modified }
    }

    /// Whether `parent` may become the parent of `child` without breaking
    /// the one-level nesting: it is another task, a top-level one, and
    /// `child` has no children of its own.
    pub fn can_assign_parent(&self, child: TaskId, parent: TaskId) -> (r: bool)
        ensures
            r == (parent != child && is_top_level_id(self.tasks@, parent) && children(
                self.tasks@,
                child,
            ).len() == 0),
    {
        parent != child && has_top_level_id(&self.tasks, parent) && !has_child(self.tasks.as_slice(), child)
    }

    /// Sets the modification time to now.
    pub fn touch(&mut self)
        ensures
            final(self).version == old(self).version,
            final(self).name == old(self).name,
            final(self).tasks == old(self).tasks,
            final(self).dependencies == old(self).dependencies,
            final(self).created == old(self).created,
    {
        let now = now_timestamp();
        self.touch_at(now);
    }

    /// Sets the modification time to `now`.
    pub fn touch_at(&mut self, now: i64)
        ensures
            final(self).modified == now,
            final(self).version == old(self).version,
            final(self).name == old(self).name,
            final(self).tasks == old(self).tasks,
            final(self).dependencies == old(self).dependencies,
            final(self).created == old(self).created,
    {
        self.modified = now;
    }

    /// Derives the start, end and progress of every parent from its
    /// children: earliest start, latest end, mean progress. Parents without
    /// children and all other tasks are left as they are.
    pub fn recalculate_parent_dates(&mut self)
        ensures
            final(self).tasks@ == recalculated(old(self).tasks@),
            final(self).version == old(self).version,
            final(self).name == old(self).name,
            final(self).dependencies == old(self).dependencies,
            final(self).created == old(self).created,
            final(self).modified == old(self).modified,
    {
        let ghost ts = self.tasks@;
        let mut out: Vec<Task> = Vec::new();
        let mut i: usize = 0;
        while i < self.tasks.len()
            invariant
                self.tasks@ == ts,
                i <= ts.len(),
                out@ == recalculated(ts).subrange(0, i as int),
            decreases ts.len() - i,
        {
            let t = &self.tasks[i];
            let mut n = copy_task(t);
            match child_summary(&self.tasks, t.id) {
                Some((lo, hi, mean)) => {
                    n.start = lo;
                    n.end = hi;
                    n.progress = mean;
                },
                None => {},
            }
            out.push(n);
            proof {
                assert(out@ =~= recalculated(ts).subrange(0, i as int + 1));
            }
            i = i + 1;
        }
        assert(out@ =~= recalculated(ts));
        self.tasks = out;
    }

    /// Reorders the tasks so that each top-level task is followed by its
    /// children, keeping the order of the top-level tasks and of the children
    /// within a group. Tasks whose parent is not a top-level task of the
    /// project come last, in the order they had.
    pub fn sort_tasks_grouped(&mut self)
        ensures
            final(self).tasks@ == grouped(old(self).tasks@),
            final(self).version == old(self).version,
            final(self).name == old(self).name,
            final(self).dependencies == old(self).dependencies,
            final(self).created == old(self).created,
            final(self).modified == old(self).modified,
    {
        let ghost ts = self.tasks@;
        let mut out: Vec<Task> = Vec::new();
        let mut i: usize = 0;
        while i < self.tasks.len()
            invariant
                self.tasks@ == ts,
                i <= ts.len(),
                out@ == groups(ts, top_level(ts.subrange(0, i as int))),
            decreases ts.len() - i,
        {
            let ghost tops = top_level(ts.subrange(0, i as int));
            proof {
                assert(ts.subrange(0, i as int + 1).drop_last() =~= ts.subrange(0, i as int));
            }
            if self.tasks[i].parent_id.is_none() {
                let pid = self.tasks[i].id;
                out.push(copy_task(&self.tasks[i]));
                let ghost head = out@;
                let mut j: usize = 0;
                while j < self.tasks.len()
                    invariant
                        self.tasks@ == ts,
                        j <= ts.len(),
                        out@ == head + children(ts.subrange(0, j as int), pid),
                    decreases ts.len() - j,
                {
                    proof {
                        lemma_children_step(ts, pid, j as int);
                    }
                    if self.tasks[j].parent_id == Some(pid) {
                        out.push(copy_task(&self.tasks[j]));
                    }
                    proof {
                        assert(out@ =~= head + children(ts.subrange(0, j as int + 1), pid));
                    }
                    j = j + 1;
                }
                proof {
                    assert(ts.subrange(0, j as int) =~= ts);
                    assert(tops.push(ts[i as int]).drop_last() =~= tops);
                    assert(out@ =~= groups(ts, tops.push(ts[i as int])));
                }
            }
            i = i + 1;
        }
        assert(ts.subrange(0, i as int) =~= ts);
        let ghost head = out@;
        let mut k: usize = 0;
        while k < self.tasks.len()
            invariant
                self.tasks@ == ts,
                k <= ts.len(),
                out@ == head + orphans(ts.subrange(0, k as int), ts),
            decreases ts.len() - k,
        {
            proof {
                assert(ts.subrange(0, k as int + 1).drop_last() =~= ts.subrange(0, k as int));
            }
            match self.tasks[k].parent_id {
                Some(p) => {
                    if !has_top_level_id(&self.tasks, p) {
                        out.push(copy_task(&self.tasks[k]));
                    }
                },
                None => {},
            }
            proof {
                assert(out@ =~= head + orphans(ts.subrange(0, k as int + 1), ts));
            }
            k = k + 1;
        }
        assert(ts.subrange(0, k as int) =~= ts);
        self.tasks = out;
    }
}

} // verus!
