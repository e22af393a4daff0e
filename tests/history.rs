use gantt_core::history::{UndoHistory, MAX_HISTORY};
use gantt_core::task::{Dependency, DependencyKind, Task};

fn state(n: i64) -> (Vec<Task>, Vec<Dependency>) {
    let t = Task::new(format!("task {}", n), n, n + 1);
    let d = Dependency { from_task: t.id, to_task: n as u128, kind: DependencyKind::StartToStart };
    (vec![t], vec![d])
}

fn start_of(tasks: &[Task]) -> i64 {
    tasks[0].start
}

#[test]
fn undo_and_redo_walk_the_log() {
    let mut h = UndoHistory::new();
    assert!(!h.can_undo() && !h.can_redo());
    let (a, da) = state(1);
    let (b, db) = state(2);
    let (c, dc) = state(3);
    h.push(&a, &da);
    h.push(&b, &db);
    let undone = h.undo(&c, &dc).unwrap();
    assert_eq!(start_of(&undone.tasks), 2);
    assert_eq!(undone.dependencies, db);
    assert!(h.can_undo() && h.can_redo());
    let redone = h.redo(&undone.tasks, &undone.dependencies).unwrap();
    assert_eq!(start_of(&redone.tasks), 3);
    assert_eq!(redone.dependencies, dc);
    let again = h.undo(&redone.tasks, &redone.dependencies).unwrap();
    assert_eq!(start_of(&again.tasks), 2);
    let first = h.undo(&again.tasks, &again.dependencies).unwrap();
    assert_eq!(start_of(&first.tasks), 1);
    assert_eq!(first.tasks[0].name, "task 1");
    assert!(h.undo(&first.tasks, &first.dependencies).is_none());
}

#[test]
fn empty_log_gives_nothing() {
    let mut h = UndoHistory::new();
    let (a, da) = state(1);
    assert!(h.undo(&a, &da).is_none());
    assert!(h.redo(&a, &da).is_none());
    assert!(!h.can_undo() && !h.can_redo());
}

#[test]
fn oldest_entry_is_evicted() {
    let mut h = UndoHistory::new();
    for n in 0..51 {
        let (t, d) = state(n);
        h.push(&t, &d);
    }
    let (cur, dcur) = state(100);
    let mut seen = Vec::new();
    let (mut t, mut d) = (cur, dcur);
    while let Some(s) = h.undo(&t, &d) {
        seen.push(start_of(&s.tasks));
        t = s.tasks;
        d = s.dependencies;
    }
    assert_eq!(seen.len(), MAX_HISTORY);
    assert_eq!(seen[0], 50);
    assert_eq!(*seen.last().unwrap(), 1);
}

#[test]
fn push_after_undo_forgets_redo() {
    let mut h = UndoHistory::new();
    let (a, da) = state(1);
    let (b, db) = state(2);
    h.push(&a, &da);
    h.undo(&b, &db).unwrap();
    assert!(h.can_redo());
    h.push(&b, &db);
    assert!(!h.can_redo());
    assert!(h.redo(&a, &da).is_none());
}

#[test]
fn clear_drops_everything() {
    let mut h = UndoHistory::new();
    let (a, da) = state(1);
    h.push(&a, &da);
    h.push(&a, &da);
    h.undo(&a, &da);
    h.clear();
    assert!(!h.can_undo() && !h.can_redo());
}
