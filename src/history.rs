//! Bounded undo / redo log of whole-project snapshots.
use vstd::prelude::*;

use crate::task::{copy_dependencies, copy_tasks, Dependency, Task};

verus! {

/// Most snapshots that the log keeps, past and future together.
pub const MAX_HISTORY: usize = 50;

/// The content of a snapshot: its tasks and its dependencies.
pub type SnapshotView = (Seq<Task>, Seq<Dependency>);

/// A full copy of the editable project data.
#[derive(Debug, Clone)]
pub struct ProjectSnapshot {
    pub tasks: Vec<Task>,
    pub dependencies: Vec<Dependency>,
}

impl View for ProjectSnapshot {
    type V = SnapshotView;

    open spec fn view(&self) -> SnapshotView {
        (self.tasks@, self.dependencies@)
    }
}

fn snapshot_of(tasks: &[Task], dependencies: &[Dependency]) -> (s: ProjectSnapshot)
    ensures
        s@ == (tasks@, dependencies@),
{
    ProjectSnapshot { tasks: copy_tasks(tasks), dependencies: copy_dependencies(dependencies) }
}

/// The past stack after recording `s`: the oldest entry goes first when the
/// stack is full.
pub open spec fn pushed(past: Seq<SnapshotView>, s: SnapshotView) -> Seq<SnapshotView> {
    if past.len() >= MAX_HISTORY {
        past.drop_first().push(s)
    } else {
        past.push(s)
    }
}

/// The past stack after recording each of `ss` in turn.
pub open spec fn pushed_all(past: Seq<SnapshotView>, ss: Seq<SnapshotView>) -> Seq<SnapshotView>
    decreases ss.len(),
{
    if ss.len() == 0 {
        past
    } else {
        pushed(pushed_all(past, ss.drop_last()), ss.last())
    }
}

/// Recording snapshots one after another from an empty log keeps the most
/// recent `MAX_HISTORY` of them, in order: after one more than that, the
/// oldest has been evicted.
pub proof fn lemma_pushed_all_keeps_latest(ss: Seq<SnapshotView>)
    ensures
        pushed_all(Seq::empty(), ss) == ss.subrange(
            if ss.len() > MAX_HISTORY { ss.len() - MAX_HISTORY } else { 0 },
            ss.len() as int,
        ),
    decreases ss.len(),
{
    if ss.len() > 0 {
        let n = ss.len() as int;
        let prev = ss.drop_last();
        lemma_pushed_all_keeps_latest(prev);
        if n - 1 >= MAX_HISTORY {
            assert(pushed_all(Seq::empty(), ss) =~= ss.subrange(n - MAX_HISTORY, n));
        } else {
            assert(pushed_all(Seq::empty(), ss) =~= ss.subrange(0, n));
        }
    } else {
        assert(ss.subrange(0, 0) =~= Seq::<SnapshotView>::empty());
    }
}

/// From an empty log, recording `a` and then `b` leaves `b` to be undone
/// first and `a` after it.
pub proof fn lemma_two_pushes(a: SnapshotView, b: SnapshotView)
    ensures
        pushed(pushed(Seq::empty(), a), b) == seq![a, b],
        pushed(pushed(Seq::empty(), a), b).last() == b,
        pushed(pushed(Seq::empty(), a), b).drop_last().last() == a,
{
    assert(pushed(pushed(Seq::empty(), a), b) =~= seq![a, b]);
    assert(seq![a, b].drop_last() =~= seq![a]);
}

/// An undo given the current state `cur`, followed by a redo given the
/// snapshot that the undo returned, hands `cur` back and leaves both stacks
/// as they were before the undo.
pub proof fn lemma_undo_redo_round_trip(
    past: Seq<SnapshotView>,
    future: Seq<SnapshotView>,
    cur: SnapshotView,
)
    requires
        past.len() > 0,
    ensures
        ({
            let (restored, past1, future1) = (past.last(), past.drop_last(), future.push(cur));
            &&& future1.last() == cur
            &&& future1.drop_last() == future
            &&& past1.push(restored) == past
        }),
{
    assert(future.push(cur).drop_last() =~= future);
    assert(past.drop_last().push(past.last()) =~= past);
}

/// Undo / redo stacks of snapshots. The current state is never stored: every
/// call that needs it is given it.
pub struct UndoHistory {
    past: Vec<ProjectSnapshot>,
    future: Vec<ProjectSnapshot>,
}

impl UndoHistory {
    /// Snapshots that undo restores, oldest first.
    pub closed spec fn past(&self) -> Seq<SnapshotView> {
        self.past@.map_values(|s: ProjectSnapshot| s@)
    }

    /// Snapshots that redo restores, oldest first.
    pub closed spec fn future(&self) -> Seq<SnapshotView> {
        self.future@.map_values(|s: ProjectSnapshot| s@)
    }

    /// The two stacks together never hold more than `MAX_HISTORY` entries.
    pub open spec fn wf(&self) -> bool {
        self.past().len() + self.future().len() <= MAX_HISTORY
    }

    pub fn new() -> (h: UndoHistory)
        ensures
            h.wf(),
            h.past().len() == 0,
            h.future().len() == 0,
    {
        let h = UndoHistory { past: Vec::new(), future: Vec::new() };
        assert(h.past() =~= Seq::empty());
        assert(h.future() =~= Seq::empty());
        h
    }

    /// Records the given state before a change is applied, evicting the
    /// oldest entry when full, and forgets every redo step.
    pub fn push(&mut self, tasks: &[Task], dependencies: &[Dependency])
        requires
            old(self).wf(),
        ensures
            final(self).wf(),
            final(self).past() == pushed(old(self).past(), (tasks@, dependencies@)),
            final(self).future().len() == 0,
    {
        let ghost before = self.past();
        if self.past.len() >= MAX_HISTORY {
            self.past.remove(0);
            assert(self.past() =~= before.drop_first());
        }
        let ghost mid = self.past();
        self.past.push(snapshot_of(tasks, dependencies));
        assert(self.past() =~= mid.push((tasks@, dependencies@)));
        self.future.clear();
        assert(self.future() =~= Seq::empty());
    }

    /// Steps back: returns the most recent recorded snapshot and keeps the
    /// given current state for redo. With nothing to undo, returns `None`
    /// and changes nothing.
    pub fn undo(&mut self, current_tasks: &[Task], current_deps: &[Dependency]) -> (r: Option<
        ProjectSnapshot,
    >)
        requires
            old(self).wf(),
        ensures
            final(self).wf(),
            old(self).past().len() == 0 ==> r.is_none() && final(self).past() == old(self).past()
                && final(self).future() == old(self).future(),
            old(self).past().len() > 0 ==> r.is_some() && r.unwrap()@ == old(self).past().last()
                && final(self).past() == old(self).past().drop_last() && final(self).future()
                == old(self).future().push((current_tasks@, current_deps@)),
    {
        let ghost (p, f) = (self.past(), self.future());
        match self.past.pop() {
            None => None,
            Some(s) => {
                assert(self.past() =~= p.drop_last());
                self.future.push(snapshot_of(current_tasks, current_deps));
                assert(self.future() =~= f.push((current_tasks@, current_deps@)));
                Some(s)
            },
        }
    }

    /// Steps forward again: returns the most recent undone snapshot and
    /// records the given current state for undo. With nothing to redo,
    /// returns `None` and changes nothing.
    pub fn redo(&mut self, current_tasks: &[Task], current_deps: &[Dependency]) -> (r: Option<
        ProjectSnapshot,
    >)
        requires
            old(self).wf(),
        ensures
            final(self).wf(),
            old(self).future().len() == 0 ==> r.is_none() && final(self).past() == old(self).past()
                && final(self).future() == old(self).future(),
            old(self).future().len() > 0 ==> r.is_some() && r.unwrap()@ == old(self).future().last()
                && final(self).future() == old(self).future().drop_last() && final(self).past()
                == old(self).past().push((current_tasks@, current_deps@)),
    {
        let ghost (p, f) = (self.past(), self.future());
        match self.future.pop() {
            None => None,
            Some(s) => {
                assert(self.future() =~= f.drop_last());
                self.past.push(snapshot_of(current_tasks, current_deps));
                assert(self.past() =~= p.push((current_tasks@, current_deps@)));
                Some(s)
            },
        }
    }

    pub fn can_undo(&self) -> (r: bool)
        ensures
            r == (self.past().len() > 0),
    {
        self.past.len() > 0
    }

    pub fn can_redo(&self) -> (r: bool)
        ensures
            r == (self.future().len() > 0),
    {
        self.future.len() > 0
    }

    /// Forgets both stacks.
    pub fn clear(&mut self)
        ensures
            final(self).wf(),
            final(self).past().len() == 0,
            final(self).future().len() == 0,
    {
        self.past.clear();
        self.future.clear();
        assert(self.past() =~= Seq::empty());
        assert(self.future() =~= Seq::empty());
    }
}

} // verus!
