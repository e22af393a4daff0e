//! Which tasks a search text and a priority filter let through.
use vstd::prelude::*;

use crate::task::TaskPriority;

verus! {

/// What `str::to_lowercase` makes of a text.
pub uninterp spec fn lower_of(s: Seq<char>) -> Seq<char>;

/// Relies on str::to_lowercase: the result depends on the characters alone.
#[verifier::external_body]
fn lowercase(s: &str) -> (r: String)
    ensures
        r@ == lower_of(s@),
{
    s.to_lowercase()
}

/// Whether `needle` occurs in `hay` as a run of consecutive characters.
pub open spec fn occurs_in(needle: Seq<char>, hay: Seq<char>) -> bool {
    exists|i: int| 0 <= i && i + needle.len() <= hay.len() && #[trigger] hay.subrange(i, i + needle.len()) == needle
}

/// Relies on str::contains with a `&str` pattern: true exactly when the
/// pattern occurs in the text.
#[verifier::external_body]
fn contains_text(hay: &str, needle: &str) -> (r: bool)
    ensures
        r == occurs_in(needle@, hay@),
{
    hay.contains(needle)
}

/// Whether a task of the given priority passes the priority filter.
pub open spec fn priority_passes(priority: TaskPriority, filter_priority: Option<TaskPriority>) -> bool {
    match filter_priority {
        Some(fp) => priority == fp,
        None => true,
    }
}

/// Whether a task passes the filter, given its name, its description and
/// the query already in lower case.
pub open spec fn passes_folded(
    name: Seq<char>,
    description: Seq<char>,
    priority: TaskPriority,
    query: Seq<char>,
    filter_priority: Option<TaskPriority>,
) -> bool {
    &&& priority_passes(priority, filter_priority)
    &&& (query.len() == 0 || occurs_in(query, name) || occurs_in(query, description))
}

/// The filter state of the task list.
#[derive(Debug, Clone)]
pub struct FilterState {
    pub search: String,
    pub priority: Option<TaskPriority>,
    pub only_overdue: bool,
    pub only_in_progress: bool,
}

impl Default for FilterState {
    /// No search text, no priority chosen, no flag set.
    fn default() -> (f: FilterState)
        ensures
            f.search@.len() == 0,
            f.priority.is_none(),
            !f.only_overdue,
            !f.only_in_progress,
    {
        FilterState { search: String::new(), priority: None, only_overdue: false, only_in_progress: false }
    }
}

impl FilterState {
    /// Whether any part of the filter would hide a task.
    pub fn is_active(&self) -> (r: bool)
        ensures
            r == (self.search@.len() > 0 || self.priority.is_some() || self.only_overdue
                || self.only_in_progress),
    {
        !self.search.as_str().is_empty() || self.priority.is_some() || self.only_overdue || self.only_in_progress
    }
}

/// Whether a task passes the filter when the name, the description and the
/// query have already been brought to lower case.
pub fn matches_folded(
    name: &str,
    description: &str,
    priority: TaskPriority,
    query: &str,
    filter_priority: Option<TaskPriority>,
) -> (r: bool)
    ensures
        r == passes_folded(name@, description@, priority, query@, filter_priority),
{
    if let Some(fp) = filter_priority {
        if priority != fp {
            return false;
        }
    }
    if !query.is_empty() {
        if !contains_text(name, query) && !contains_text(description, query) {
            return false;
        }
    }
    true
}

/// Whether a task passes the filter: the priority, when one is chosen, must
/// be the task's, and a non-empty search text must occur, ignoring case, in
/// the name or in the description.
pub fn task_matches(
    name: &str,
    description: &str,
    priority: TaskPriority,
    search: &str,
    filter_priority: Option<TaskPriority>,
) -> (r: bool)
    ensures
        r == (priority_passes(priority, filter_priority) && (search@.len() == 0 || passes_folded(
            lower_of(name@),
            lower_of(description@),
            priority,
            lower_of(search@),
            filter_priority,
        ))),
{
    if let Some(fp) = filter_priority {
        if priority != fp {
            return false;
        }
    }
    if search.is_empty() {
        return true;
    }
    let query = lowercase(search);
    let name_lower = lowercase(name);
    let description_lower = lowercase(description);
    matches_folded(name_lower.as_str(), description_lower.as_str(), priority, query.as_str(), filter_priority)
}

} // verus!
