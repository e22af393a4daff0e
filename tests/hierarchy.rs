use gantt_core::datetime_serde::deserialize;
use gantt_core::project::{default_version, Project, CURRENT_VERSION};
use gantt_core::task::{dep_kind_label, DependencyKind, Rgba, Task, TaskPriority, PROGRESS_FULL};
use gantt_core::task_editor::parent_candidates;

fn at(s: &str) -> i64 {
    deserialize(s).unwrap()
}

fn child_of(name: &str, parent: &Task, start: &str, end: &str, progress: u32) -> Task {
    let mut t = Task::new(name.to_string(), at(start), at(end));
    t.parent_id = Some(parent.id);
    t.progress = progress;
    t
}

#[test]
fn sole_child_determines_parent() {
    let parent = Task::new("P".to_string(), at("2023-06-01T00:00:00"), at("2023-06-02T00:00:00"));
    let a = child_of("A", &parent, "2024-01-01T00:00:00", "2024-01-05T00:00:00", PROGRESS_FULL / 2);
    let mut p = Project::new("plan".to_string());
    p.tasks.push(parent.clone());
    p.tasks.push(a);
    p.recalculate_parent_dates();
    assert_eq!(p.tasks[0].start, at("2024-01-01T00:00:00"));
    assert_eq!(p.tasks[0].end, at("2024-01-05T00:00:00"));
    assert_eq!(p.tasks[0].progress, 500_000);
}

#[test]
fn two_children_give_min_max_mean() {
    let parent = Task::new("P".to_string(), 0, 0);
    let c1 = child_of("C1", &parent, "2024-03-04T08:00:00", "2024-03-10T12:00:00", 200_000);
    let c2 = child_of("C2", &parent, "2024-03-01T09:30:00", "2024-03-08T00:00:00", 700_000);
    let mut p = Project::new("plan".to_string());
    p.tasks.push(c1);
    p.tasks.push(parent);
    p.tasks.push(c2);
    p.recalculate_parent_dates();
    assert_eq!(p.tasks[1].start, at("2024-03-01T09:30:00"));
    assert_eq!(p.tasks[1].end, at("2024-03-10T12:00:00"));
    assert_eq!(p.tasks[1].progress, 450_000);
    assert_eq!(p.tasks[0].start, at("2024-03-04T08:00:00"));
}

#[test]
fn mean_progress_rounds_down() {
    let parent = Task::new("P".to_string(), 0, 0);
    let mut p = Project::new("plan".to_string());
    p.tasks.push(parent.clone());
    p.tasks.push(child_of("a", &parent, "2024-01-01", "2024-01-02", 1));
    p.tasks.push(child_of("b", &parent, "2024-01-01", "2024-01-02", 0));
    p.tasks.push(child_of("c", &parent, "2024-01-01", "2024-01-02", 1));
    p.recalculate_parent_dates();
    assert_eq!(p.tasks[0].progress, 0);
}

#[test]
fn recalculation_is_idempotent() {
    let parent = Task::new("P".to_string(), 0, 0);
    let mut p = Project::new("plan".to_string());
    p.tasks.push(parent.clone());
    p.tasks.push(child_of("a", &parent, "2024-02-01", "2024-02-03", 300_000));
    p.tasks.push(child_of("b", &parent, "2024-02-02", "2024-02-09", 1_000_000));
    p.recalculate_parent_dates();
    let first = (p.tasks[0].start, p.tasks[0].end, p.tasks[0].progress);
    p.recalculate_parent_dates();
    let second = (p.tasks[0].start, p.tasks[0].end, p.tasks[0].progress);
    assert_eq!(first, second);
    assert_eq!(first.2, 650_000);
}

#[test]
fn parent_without_children_is_untouched() {
    let lone = Task::new("lone".to_string(), 10, 20);
    let mut p = Project::new("plan".to_string());
    p.tasks.push(lone);
    p.recalculate_parent_dates();
    assert_eq!((p.tasks[0].start, p.tasks[0].end, p.tasks[0].progress), (10, 20, 0));
}

#[test]
fn grouping_keeps_orders_and_appends_orphans() {
    let a = Task::new("A".to_string(), 0, 1);
    let b = Task::new("B".to_string(), 0, 1);
    let ghost_parent = Task::new("gone".to_string(), 0, 1);
    let b1 = child_of("B1", &b, "2024-01-01", "2024-01-02", 0);
    let a1 = child_of("A1", &a, "2024-01-01", "2024-01-02", 0);
    let o1 = child_of("O1", &ghost_parent, "2024-01-01", "2024-01-02", 0);
    let a2 = child_of("A2", &a, "2024-01-01", "2024-01-02", 0);
    let b2 = child_of("B2", &b, "2024-01-01", "2024-01-02", 0);
    let o2 = child_of("O2", &ghost_parent, "2024-01-01", "2024-01-02", 0);
    let mut p = Project::new("plan".to_string());
    for t in [b1, o1, a, a1, b, o2, a2, b2] {
        p.tasks.push(t);
    }
    p.sort_tasks_grouped();
    let names: Vec<&str> = p.tasks.iter().map(|t| t.name.as_str()).collect();
    assert_eq!(names, vec!["A", "A1", "A2", "B", "B1", "B2", "O1", "O2"]);
}

#[test]
fn grouping_of_empty_list_is_empty() {
    let mut p = Project::new("plan".to_string());
    p.sort_tasks_grouped();
    assert!(p.tasks.is_empty());
}

#[test]
fn children_queries() {
    let a = Task::new("A".to_string(), 0, 1);
    let other = Task::new("X".to_string(), 0, 1);
    let a1 = child_of("A1", &a, "2024-01-01", "2024-01-02", 0);
    let a2 = child_of("A2", &a, "2024-01-01", "2024-01-02", 0);
    let tasks = vec![a1, other.clone(), a.clone(), a2];
    assert!(a.has_children(&tasks));
    assert!(!other.has_children(&tasks));
    let kids: Vec<&str> = a.children_ids(&tasks).iter().map(|t| t.name.as_str()).collect();
    assert_eq!(kids, vec!["A1", "A2"]);
}

#[test]
fn nesting_stays_one_level() {
    let a = Task::new("A".to_string(), 0, 1);
    let b = Task::new("B".to_string(), 0, 1);
    let a1 = child_of("A1", &a, "2024-01-01", "2024-01-02", 0);
    let mut p = Project::new("plan".to_string());
    p.tasks.push(a.clone());
    p.tasks.push(b.clone());
    p.tasks.push(a1.clone());
    assert!(p.can_assign_parent(b.id, a.id));
    assert!(!p.can_assign_parent(b.id, a1.id));
    assert!(!p.can_assign_parent(a.id, b.id));
    assert!(!p.can_assign_parent(b.id, b.id));
    assert!(p.can_assign_parent(a1.id, b.id));
    let offered = parent_candidates(&p.tasks, b.id);
    assert_eq!(offered.len(), 1);
    assert_eq!(offered[0].0, a.id);
    assert_eq!(offered[0].1, "A");
    assert!(parent_candidates(&p.tasks, a.id).is_empty());
}

#[test]
fn new_entities_have_defaults() {
    let t = Task::new("T".to_string(), 5, 9);
    assert_eq!((t.start, t.end, t.progress), (5, 9, 0));
    assert!(!t.is_milestone && t.parent_id.is_none() && t.description.is_empty());
    assert_eq!(t.priority, TaskPriority::Unset);
    assert_eq!(t.color, Rgba::from_rgb(70, 130, 180));
    let m = Task::new_milestone("M".to_string(), 42);
    assert!(m.is_milestone);
    assert_eq!((m.start, m.end), (42, 42));
    assert_eq!(m.color, Rgba { r: 255, g: 165, b: 0, a: 255 });
    assert_ne!(t.id, m.id);
    let p = Project::new("Plan".to_string());
    assert_eq!(p.version, CURRENT_VERSION);
    assert_eq!(p.name, "Plan");
    assert!(p.created > 1_600_000_000);
    let d = Project::default();
    assert_eq!(d.name, "Untitled Project");
    assert_eq!(default_version(), 1);
}

#[test]
fn touch_moves_modified_only() {
    let mut p = Project::new("Plan".to_string());
    p.modified = 0;
    p.touch();
    assert!(p.modified > 1_600_000_000);
    assert_eq!(p.name, "Plan");
    let created = p.created;
    p.touch_at(1_704_067_200);
    assert_eq!(p.modified, 1_704_067_200);
    assert_eq!(p.created, created);
}

#[test]
fn defaults_of_small_types() {
    assert_eq!(TaskPriority::default(), TaskPriority::Unset);
    assert_eq!(DependencyKind::default(), DependencyKind::FinishToStart);
}

#[test]
fn labels() {
    assert_eq!(TaskPriority::High.label(), "High");
    assert_eq!(TaskPriority::Unset.label(), "\u{2014}");
    assert_eq!(TaskPriority::all().len(), 5);
    assert_eq!(TaskPriority::Unset.icon(), "");
    assert_eq!(TaskPriority::Low.icon(), "\u{E03E}");
    assert_eq!(TaskPriority::Critical.icon(), "\u{E4E0}");
    assert_eq!(DependencyKind::StartToFinish.short_label(), "SF");
    assert_eq!(DependencyKind::all()[2], DependencyKind::FinishToFinish);
    assert!(DependencyKind::FinishToStart.description().starts_with("Finish-to-Start (FS)"));
    assert_eq!(dep_kind_label(DependencyKind::StartToStart, true), "[SS] \u{2192}");
    assert_eq!(dep_kind_label(DependencyKind::FinishToStart, false), "[FS] \u{2190}");
}
