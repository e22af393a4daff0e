//! Decisions of the task editor that do not depend on how it is drawn.
use vstd::prelude::*;

use crate::project::{is_top_level_id, unique_ids};
use crate::task::{children, has_child, Task, TaskId};

verus! {

/// What the editor asks its owner to do after a frame.
#[derive(Debug, Clone, Copy, PartialEq, Eq, Structural)]
pub enum EditorAction {
    /// Nothing was edited.
    NoChange,
    /// The edited task changed.
    Changed,
    /// Remove the dependency from the first task to the second.
    RemoveDependency(TaskId, TaskId),
    /// Add a new child under the given task.
    AddSubtask(TaskId),
}

/// Whether `t` may be offered as the parent of the task `task_id`: not the
/// task itself, not one of its children, and a top-level task.
pub open spec fn offered_as_parent(t: Task, task_id: TaskId) -> bool {
    t.id != task_id && t.parent_id != Some(task_id) && t.parent_id.is_none()
}

/// The tasks of `ts` that may be offered as parent of `task_id`, in order.
pub open spec fn parent_choices(ts: Seq<Task>, task_id: TaskId) -> Seq<Task>
    decreases ts.len(),
{
    if ts.len() == 0 {
        Seq::empty()
    } else if offered_as_parent(ts.last(), task_id) {
        parent_choices(ts.drop_last(), task_id).push(ts.last())
    } else {
        parent_choices(ts.drop_last(), task_id)
    }
}

/// The parents that the editor offers to the task `task_id`: none when it
/// has children of its own, since nesting stops at one level; otherwise
/// `parent_choices`.
pub open spec fn offered_parents(ts: Seq<Task>, task_id: TaskId) -> Seq<Task> {
    if children(ts, task_id).len() > 0 {
        Seq::empty()
    } else {
        parent_choices(ts, task_id)
    }
}

proof fn lemma_choices_are_offered(ts: Seq<Task>, task_id: TaskId)
    ensures
        forall|i: int|
            0 <= i < parent_choices(ts, task_id).len() ==> offered_as_parent(
                #[trigger] parent_choices(ts, task_id)[i],
                task_id,
            ),
    decreases ts.len(),
{
    if ts.len() > 0 {
        let c = parent_choices(ts.drop_last(), task_id);
        lemma_choices_are_offered(ts.drop_last(), task_id);
        assert forall|i: int| 0 <= i < parent_choices(ts, task_id).len() implies offered_as_parent(
            #[trigger] parent_choices(ts, task_id)[i],
            task_id,
        ) by {
            if i < c.len() {
                assert(c[i] == parent_choices(ts, task_id)[i]);
            }
        }
    }
}

proof fn lemma_choices_member(ts: Seq<Task>, task_id: TaskId, k: int)
    requires
        0 <= k < ts.len(),
    ensures
        parent_choices(ts, task_id).contains(ts[k]) == offered_as_parent(ts[k], task_id),
    decreases ts.len(),
{
    lemma_choices_are_offered(ts, task_id);
    let pre = ts.drop_last();
    let c = parent_choices(pre, task_id);
    if k < ts.len() - 1 {
        lemma_choices_member(pre, task_id, k);
        assert(pre[k] == ts[k]);
        if c.contains(ts[k]) {
            let j = choose|j: int| 0 <= j < c.len() && c[j] == ts[k];
            assert(c.push(ts.last())[j] == ts[k]);
        }
    } else if offered_as_parent(ts[k], task_id) {
        assert(c.push(ts.last())[c.len() as int] == ts[k]);
    }
    if parent_choices(ts, task_id).contains(ts[k]) {
        let j = choose|j: int| 0 <= j < parent_choices(ts, task_id).len() && parent_choices(ts, task_id)[j] == ts[k];
        assert(offered_as_parent(parent_choices(ts, task_id)[j], task_id));
    }
}

/// The editor offers a task as parent exactly when the project would accept
/// it as parent (`Project::can_assign_parent`): another task, a top-level
/// one, while the edited task has no children. Both layers apply the same
/// one-level nesting rule.
pub proof fn lemma_offered_parents_match_model(ts: Seq<Task>, task_id: TaskId, k: int)
    requires
        unique_ids(ts),
        0 <= k < ts.len(),
    ensures
        offered_parents(ts, task_id).contains(ts[k]) == (ts[k].id != task_id && is_top_level_id(
            ts,
            ts[k].id,
        ) && children(ts, task_id).len() == 0),
{
    lemma_choices_member(ts, task_id, k);
    if is_top_level_id(ts, ts[k].id) {
        let j = choose|j: int| 0 <= j < ts.len() && (#[trigger] ts[j]).parent_id.is_none() && ts[j].id == ts[k].id;
        assert(j == k);
    }
    if ts[k].parent_id.is_none() {
        assert(ts[k].parent_id.is_none() && ts[k].id == ts[k].id);
    }
}

/// Id and name of each task that may be offered as parent of `task_id`;
/// none when `task_id` has children of its own.
pub fn parent_candidates(all_tasks: &[Task], task_id: TaskId) -> (r: Vec<(TaskId, String)>)
    ensures
        r@.len() == offered_parents(all_tasks@, task_id).len(),
        forall|k: int|
            0 <= k < r@.len() ==> (#[trigger] r@[k]).0 == offered_parents(all_tasks@, task_id)[k].id
                && r@[k].1 == offered_parents(all_tasks@, task_id)[k].name,
{
    let mut r: Vec<(TaskId, String)> = Vec::new();
    if has_child(all_tasks, task_id) {
        return r;
    }
    let mut i: usize = 0;
    while i < all_tasks.len()
        invariant
            i <= all_tasks@.len(),
            r@.len() == parent_choices(all_tasks@.subrange(0, i as int), task_id).len(),
            forall|k: int|
                0 <= k < r@.len() ==> (#[trigger] r@[k]).0 == parent_choices(
                    all_tasks@.subrange(0, i as int),
                    task_id,
                )[k].id && r@[k].1 == parent_choices(all_tasks@.subrange(0, i as int), task_id)[k].name,
        decreases all_tasks@.len() - i,
    {
        proof {
            assert(all_tasks@.subrange(0, i as int + 1).drop_last() =~= all_tasks@.subrange(0, i as int));
        }
        let t = &all_tasks[i];
        if t.id != task_id && t.parent_id != Some(task_id) && t.parent_id.is_none() {
            r.push((t.id, t.name.clone()));
        }
        i = i + 1;
    }
    assert(all_tasks@.subrange(0, i as int) =~= all_tasks@);
    r
}

} // verus!
