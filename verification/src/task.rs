//! The task entity: a description, a three-state status, and the name of the
//! list the task belongs to.
use vstd::prelude::*;

verus! {

/// The status of a task. Every one of the six transitions between distinct
/// states is legal; rejecting a transition to the current state is the
/// responsibility of the management layer, not of the entity.
#[derive(Clone, Copy, Debug, PartialEq, Eq, Structural)]
pub enum TaskStatus {
    Completed,
    InProgress,
    NotStarted,
}

/// Validation errors raised when constructing or editing a task.
#[derive(Clone, Copy, Debug, PartialEq, Eq, Structural)]
pub enum TaskErrors {
    EmptyDescription,
    EmptyList,
}

/// A task. The invariant [`Task::wf`] (non-empty description, non-empty list
/// name) is established by [`Task::new`] and preserved by every method.
#[derive(Debug, PartialEq, Eq)]
pub struct Task {
    description: String,
    status: TaskStatus,
    list: String,
}

/// The mathematical value of a [`Task`]: both strings as character sequences.
#[verifier::ext_equal]
pub ghost struct TaskView {
    pub description: Seq<char>,
    pub status: TaskStatus,
    pub list: Seq<char>,
}

impl View for Task {
    type V = TaskView;

    closed spec fn view(&self) -> TaskView {
        TaskView {
            description: self.description@,
            status: self.status,
            list: self.list@,
        }
    }
}

/// The sequence of all views of a sequence of tasks.
pub open spec fn task_views(tasks: Seq<Task>) -> Seq<TaskView> {
    Seq::new(tasks.len(), |i: int| tasks[i]@)
}

/// The persistence token of a status.
pub open spec fn status_seq(status: TaskStatus) -> Seq<char> {
    match status {
        TaskStatus::Completed => "Completed"@,
        TaskStatus::InProgress => "InProgress"@,
        TaskStatus::NotStarted => "NotStarted"@,
    }
}

/// What parsing a status token yields.
pub open spec fn parse_status_seq(s: Seq<char>) -> Option<TaskStatus> {
    if s == "Completed"@ {
        Some(TaskStatus::Completed)
    } else if s == "InProgress"@ {
        Some(TaskStatus::InProgress)
    } else if s == "NotStarted"@ {
        Some(TaskStatus::NotStarted)
    } else {
        None
    }
}

/// The status tokens are non-empty, free of the field and line delimiters,
/// and parse back to the status they render.
pub proof fn lemma_status_tokens(status: TaskStatus)
    ensures
        status_seq(status).len() > 0,
        !status_seq(status).contains('|'),
        !status_seq(status).contains('\n'),
        parse_status_seq(status_seq(status)) == Some(status),
{
    reveal_strlit("Completed");
    reveal_strlit("InProgress");
    reveal_strlit("NotStarted");
    assert("Completed"@ =~= seq!['C', 'o', 'm', 'p', 'l', 'e', 't', 'e', 'd']);
    assert("InProgress"@ =~= seq!['I', 'n', 'P', 'r', 'o', 'g', 'r', 'e', 's', 's']);
    assert("NotStarted"@ =~= seq!['N', 'o', 't', 'S', 't', 'a', 'r', 't', 'e', 'd']);
    assert("Completed"@[0] != "InProgress"@[0]);
    assert("Completed"@.len() != "NotStarted"@.len());
    assert("InProgress"@[0] != "NotStarted"@[0]);
}

/// The persistence token of a status.
pub fn status_to_string(status: TaskStatus) -> (r: &'static str)
    ensures
        r@ == status_seq(status),
{
    match status {
        TaskStatus::Completed => "Completed",
        TaskStatus::InProgress => "InProgress",
        TaskStatus::NotStarted => "NotStarted",
    }
}

/// Parses a persistence token of a status.
pub fn parse_status(s: &str) -> (r: Option<TaskStatus>)
    ensures
        r == parse_status_seq(s@),
{
    if crate::text::str_eq(s, "Completed") {
        Some(TaskStatus::Completed)
    } else if crate::text::str_eq(s, "InProgress") {
        Some(TaskStatus::InProgress)
    } else if crate::text::str_eq(s, "NotStarted") {
        Some(TaskStatus::NotStarted)
    } else {
        None
    }
}

/// The glyph of a status, as shown in a listing.
pub open spec fn status_glyph(status: TaskStatus) -> Seq<char> {
    match status {
        TaskStatus::NotStarted => "[x]"@,
        TaskStatus::InProgress => "[~]"@,
        TaskStatus::Completed => "[+]"@,
    }
}

/// The rendering of a task: its status glyph and its description.
pub open spec fn task_render(t: TaskView) -> Seq<char> {
    status_glyph(t.status) + " "@ + t.description
}

impl Clone for Task {
    /// A clone is equal to the original, field for field.
    fn clone(&self) -> (r: Self)
        ensures
            r == *self,
    {
        Task {
            description: self.description.clone(),
            status: self.status,
            list: self.list.clone(),
        }
    }
}

impl Task {
    /// The entity invariant: the description and the owning list name are
    /// never empty.
    pub open spec fn wf(&self) -> bool {
        self@.description.len() > 0 && self@.list.len() > 0
    }

    /// Builds a task, rejecting an empty description or an empty list name.
    pub fn new(description: String, status: TaskStatus, list: String) -> (r: Result<
        Task,
        TaskErrors,
    >)
        ensures
            description@.len() == 0 ==> r == Err::<Task, TaskErrors>(TaskErrors::EmptyDescription),
            description@.len() > 0 && list@.len() == 0 ==> r == Err::<Task, TaskErrors>(
                TaskErrors::EmptyList,
            ),
            description@.len() > 0 && list@.len() > 0 ==> ({
                &&& r matches Ok(t)
                &&& t@ == (TaskView { description: description@, status, list: list@ })
                &&& t.wf()
            }),
    {
        if description.as_str().is_empty() {
            return Err(TaskErrors::EmptyDescription);
        }
        if list.as_str().is_empty() {
            return Err(TaskErrors::EmptyList);
        }
        Ok(Task { description, status, list })
    }

    /// Returns a copy of the task's description.
    pub fn description(&self) -> (r: String)
        ensures
            r@ == self@.description,
    {
        self.description.clone()
    }

    /// Returns the task's status.
    pub fn status(&self) -> (r: TaskStatus)
        ensures
            r == self@.status,
    {
        self.status
    }

    /// Returns a copy of the name of the list the task belongs to.
    pub fn list(&self) -> (r: String)
        ensures
            r@ == self@.list,
    {
        self.list.clone()
    }

    /// Replaces the description, rejecting an empty replacement; on failure
    /// the task is unchanged.
    pub fn update_description(&mut self, new_description: String) -> (r: Result<(), TaskErrors>)
        ensures
            new_description@.len() == 0 ==> r == Err::<(), TaskErrors>(TaskErrors::EmptyDescription)
                && *final(self) == *old(self),
            new_description@.len() > 0 ==> r == Ok::<(), TaskErrors>(()) && final(self)@ == (
            TaskView { description: new_description@, ..old(self)@ }),
            old(self).wf() && new_description@.len() > 0 ==> final(self).wf(),
    {
        if new_description.as_str().is_empty() {
            return Err(TaskErrors::EmptyDescription);
        }
        self.description = new_description;
        Ok(())
    }

    /// Renders the task for display: its status glyph and its description.
    pub fn render(&self) -> (r: String)
        ensures
            r@ == task_render(self@),
    {
        let mut out = String::new();
        match self.status {
            TaskStatus::NotStarted => out.append("[x]"),
            TaskStatus::InProgress => out.append("[~]"),
            TaskStatus::Completed => out.append("[+]"),
        }
        out.append(" ");
        out.append(self.description.as_str());
        out
    }

    /// Renders the task in the short saved form `description|status`.
    pub fn to_save_string(&self) -> (r: String)
        ensures
            r@ == self@.description + "|"@ + status_seq(self@.status),
    {
        let mut out = String::new();
        out.append(self.description.as_str());
        out.append("|");
        out.append(status_to_string(self.status));
        out
    }

    /// Rewrites the name of the owning list; used in bulk when a list is
    /// renamed. The new name must not be empty.
    pub(crate) fn set_list(&mut self, new_list: String)
        requires
            new_list@.len() > 0,
        ensures
            final(self)@ == (TaskView { list: new_list@, ..old(self)@ }),
            old(self).wf() ==> final(self).wf(),
    {
        self.list = new_list;
    }

    /// Sets the status unconditionally; the entity has no illegal status.
    pub fn update_status(&mut self, new_status: TaskStatus)
        ensures
            final(self)@ == (TaskView { status: new_status, ..old(self)@ }),
            old(self).wf() ==> final(self).wf(),
    {
        self.status = new_status;
    }
}

} // verus!
