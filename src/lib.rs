//! Core of a Gantt-chart planner: tasks and dependencies, hierarchy
//! aggregation, an undo history of snapshots and the timeline's pixel axis.
pub mod color_serde;
pub mod datetime_serde;
pub mod filter_bar;
pub mod history;
pub mod project;
pub mod task;
pub mod task_editor;
pub mod timeline;

pub use history::UndoHistory;
pub use project::Project;
pub use task::Task;
pub use timeline::{TimelineScale, TimelineViewport};
