//! The typed command structs handed to the library by the command-line
//! front end. The library never parses raw process arguments: a collaborator
//! decodes them once into these values.
use vstd::prelude::*;

verus! {

/// The top-level command line: one command.
#[derive(Debug)]
pub struct TodoArgs {
    pub command: Commands,
}

/// The closed set of commands.
#[derive(Debug)]
pub enum Commands {
    /// Lists the tasks in the current list.
    Tasks(TasksCommand),
    /// Sorts the tasks in the current list.
    Sort,
    /// Removes the completed tasks in the current list.
    Cleanup(CleanupCommand),
    /// Adds a task to the current list.
    Add(AddCommand),
    /// Updates an existing task's description.
    Update(UpdateCommand),
    /// Deletes tasks from the current list.
    Delete(DeleteCommand),
    /// Sets the status of tasks to InProgress.
    Start(StartCommand),
    /// Sets the status of tasks to Completed.
    Finish(FinishCommand),
    /// Sets the status of tasks to NotStarted.
    Restart(RestartCommand),
    /// Views, creates, switches and deletes lists.
    List(ListCommand),
    /// Changes configuration options.
    Config(ConfigCommand),
    /// Deletes the whole store.
    Nuke,
}

/// Options of the listing command.
#[derive(Debug)]
pub struct TasksCommand {
    /// Lists the tasks of every list instead of only the current one.
    pub all: bool,
    /// Sorts the current list before listing it.
    pub sort: bool,
}

/// Options of the cleanup command.
#[derive(Debug)]
pub struct CleanupCommand {
    /// Also removes completed tasks from the other lists.
    pub all: bool,
}

/// The description of the task to add; without one, the caller enters its
/// interactive add mode.
#[derive(Debug)]
pub struct AddCommand {
    pub description: Option<String>,
}

/// The 1-based ids of the tasks to delete.
#[derive(Debug)]
pub struct DeleteCommand {
    pub task_ids: Vec<usize>,
}

/// The 1-based ids of the tasks to start.
#[derive(Debug)]
pub struct StartCommand {
    pub task_ids: Vec<usize>,
}

/// The 1-based ids of the tasks to finish.
#[derive(Debug)]
pub struct FinishCommand {
    pub task_ids: Vec<usize>,
}

/// The 1-based ids of the tasks to restart.
#[derive(Debug)]
pub struct RestartCommand {
    pub task_ids: Vec<usize>,
}

/// The id of the task to update and its new description.
#[derive(Debug)]
pub struct UpdateCommand {
    pub task_id: usize,
    pub new_description: String,
    /// Appends to the existing description instead of replacing it.
    pub append: bool,
}

/// The list-management command: create, switch to, or delete a list; with
/// no option, the lists are listed.
#[derive(Debug)]
pub struct ListCommand {
    pub new: Option<String>,
    pub switch: Option<String>,
    pub delete: Option<String>,
}

/// The configuration command: at most one option is applied, in field
/// order; with no option, the options are listed.
#[derive(Debug)]
pub struct ConfigCommand {
    pub always_show_task_ids: Option<bool>,
    pub smart_task_ids: Option<bool>,
    pub num_of_tasks: Option<usize>,
    pub always_show_list_name: Option<bool>,
    pub smart_list_names: Option<bool>,
}

} // verus!
