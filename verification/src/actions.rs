//! Operations of the single-file store layout, grouped by subject: the
//! user's settings, the tasks, and the task lists.
pub mod config_management;
pub mod task_management;
pub mod tasklist_management;
