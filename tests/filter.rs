use gantt_core::filter_bar::{matches_folded, task_matches, FilterState};
use gantt_core::task::TaskPriority;

#[test]
fn search_ignores_case() {
    assert!(task_matches("Write REPORT", "", TaskPriority::Unset, "report", None));
    assert!(task_matches("draft", "Review the Budget", TaskPriority::Low, "BUDGET", None));
    assert!(!task_matches("draft", "review", TaskPriority::Low, "budget", None));
    assert!(task_matches("anything", "", TaskPriority::Low, "", None));
}

#[test]
fn priority_filter_applies() {
    assert!(task_matches("a", "", TaskPriority::High, "", Some(TaskPriority::High)));
    assert!(!task_matches("a", "", TaskPriority::Low, "", Some(TaskPriority::High)));
    assert!(!task_matches("Report", "", TaskPriority::Low, "rep", Some(TaskPriority::High)));
    assert!(task_matches("Report", "", TaskPriority::High, "rep", Some(TaskPriority::High)));
}

#[test]
fn folded_matching_is_exact() {
    assert!(matches_folded("write report", "", TaskPriority::Unset, "report", None));
    assert!(!matches_folded("write report", "", TaskPriority::Unset, "REPORT", None));
    assert!(matches_folded("x", "", TaskPriority::Critical, "", Some(TaskPriority::Critical)));
    assert!(!matches_folded("x", "", TaskPriority::Medium, "", Some(TaskPriority::Critical)));
}

#[test]
fn filter_activity() {
    let mut f = FilterState::default();
    assert!(f.search.is_empty() && f.priority.is_none() && !f.only_overdue && !f.only_in_progress);
    assert!(!f.is_active());
    f.search = "x".to_string();
    assert!(f.is_active());
    f.search.clear();
    f.only_in_progress = true;
    assert!(f.is_active());
    f.only_in_progress = false;
    f.priority = Some(TaskPriority::Medium);
    assert!(f.is_active());
}
