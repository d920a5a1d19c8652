//! Task operations of the single-file store layout: status transitions
//! with user-facing messages, adding, removing, updating, sorting, and
//! cleanup.
use vstd::prelude::*;

use crate::task::{Task, TaskStatus, TaskView};
use crate::task_management::{
    lemma_not_completed_push, lemma_with_status_empty, lemma_with_status_push, not_completed,
    sorted_order, with_status,
};
use crate::text::dec_rep;

verus! {

/// Starts a task; every transition to InProgress from another status is
/// legal, and only a task that is already in progress is reported, and
/// left unchanged.
pub fn start_task(task: &mut Task) -> (r: Result<String, &'static str>)
    ensures
        old(task)@.status == TaskStatus::InProgress ==> ({
            &&& r matches Err(e)
            &&& e@ == "Task already in progress!"@
            &&& final(task)@ == old(task)@
        }),
        old(task)@.status != TaskStatus::InProgress ==> ({
            &&& r matches Ok(s)
            &&& s@ == "Started task '"@ + old(task)@.description + "'"@
            &&& final(task)@ == (TaskView { status: TaskStatus::InProgress, ..old(task)@ })
        }),
{
    match task.status() {
        TaskStatus::InProgress => Err("Task already in progress!"),
        _ => {
            task.update_status(TaskStatus::InProgress);
            let mut message = String::new();
            message.append("Started task '");
            let desc = task.description();
            message.append(desc.as_str());
            message.append("'");
            Ok(message)
        },
    }
}

/// Completes a task; a task that is already completed is reported, and
/// left unchanged.
pub fn finish_task(task: &mut Task) -> (r: Result<String, &'static str>)
    ensures
        old(task)@.status == TaskStatus::Completed ==> ({
            &&& r matches Err(e)
            &&& e@ == "Task already completed!"@
            &&& final(task)@ == old(task)@
        }),
        old(task)@.status != TaskStatus::Completed ==> ({
            &&& r matches Ok(s)
            &&& s@ == "Completed '"@ + old(task)@.description + "'!"@
            &&& final(task)@ == (TaskView { status: TaskStatus::Completed, ..old(task)@ })
        }),
{
    match task.status() {
        TaskStatus::Completed => Err("Task already completed!"),
        _ => {
            task.update_status(TaskStatus::Completed);
            let mut message = String::new();
            message.append("Completed '");
            let desc = task.description();
            message.append(desc.as_str());
            message.append("'!");
            Ok(message)
        },
    }
}

/// Restarts a task; a transition to the task's current status is a no-op,
/// which is reported as an error rather than silently accepted, leaving
/// the task unchanged.
pub fn restart_task(task: &mut Task) -> (r: Result<String, &'static str>)
    ensures
        old(task)@.status == TaskStatus::NotStarted ==> ({
            &&& r matches Err(e)
            &&& e@ == "Task is already Not Started!"@
            &&& final(task)@ == old(task)@
        }),
        old(task)@.status != TaskStatus::NotStarted ==> ({
            &&& r matches Ok(s)
            &&& s@ == "Restarted task '"@ + old(task)@.description + "'!"@
            &&& final(task)@ == (TaskView { status: TaskStatus::NotStarted, ..old(task)@ })
        }),
{
    match task.status() {
        TaskStatus::NotStarted => Err("Task is already Not Started!"),
        _ => {
            task.update_status(TaskStatus::NotStarted);
            let mut message = String::new();
            message.append("Restarted task '");
            let desc = task.description();
            message.append(desc.as_str());
            message.append("'!");
            Ok(message)
        },
    }
}

/// Builds a task and appends it to the given collection; fails on an empty
/// description or an empty list name, leaving the collection unchanged.
pub fn add_task(tasks: &mut Vec<Task>, desc: String, list: String) -> (r: Result<
    String,
    &'static str,
>)
    ensures
        desc@.len() == 0 ==> ({
            &&& r matches Err(e)
            &&& e@ == "Tasks cannot have empty descriptions!"@
            &&& final(tasks)@ == old(tasks)@
        }),
        desc@.len() > 0 && list@.len() == 0 ==> ({
            &&& r matches Err(e)
            &&& e@ == "A task must have a list!"@
            &&& final(tasks)@ == old(tasks)@
        }),
        desc@.len() > 0 && list@.len() > 0 ==> ({
            &&& r matches Ok(s)
            &&& s@ == "Added task '"@ + desc@ + "'!"@
            &&& final(tasks)@.len() == old(tasks)@.len() + 1
            &&& final(tasks)@.last()@ == (TaskView {
                description: desc@,
                status: TaskStatus::NotStarted,
                list: list@,
            })
            &&& forall|k: int|
                0 <= k < old(tasks)@.len() ==> final(tasks)@[k] == old(tasks)@[k]
        }),
{
    let new_task = match Task::new(desc, TaskStatus::NotStarted, list) {
        Ok(new_task) => new_task,
        Err(err) => match err {
            crate::task::TaskErrors::EmptyDescription => {
                return Err("Tasks cannot have empty descriptions!");
            },
            crate::task::TaskErrors::EmptyList => {
                return Err("A task must have a list!");
            },
        },
    };
    let mut success = String::new();
    success.append("Added task '");
    let d = new_task.description();
    success.append(d.as_str());
    success.append("'!");
    tasks.push(new_task);
    Ok(success)
}

/// Removes the task at the given index, which must be in range, and
/// reports which task was removed.
pub fn remove_task(tasks: &mut Vec<Task>, task_index: usize) -> (r: String)
    requires
        task_index < old(tasks)@.len(),
    ensures
        final(tasks)@ == old(tasks)@.remove(task_index as int),
        r@ == "Removed task '"@ + old(tasks)@[task_index as int]@.description + "'!"@,
{
    let mut message = String::new();
    message.append("Removed task '");
    let desc = tasks[task_index].description();
    message.append(desc.as_str());
    message.append("'!");
    tasks.remove(task_index);
    message
}

/// Builds the task that an update would produce — same status and list,
/// new description — so that the caller can swap it in; fails on an empty
/// new description or a task without a list.
pub fn update_task(task: &Task, new_desc: String) -> (r: Result<(Task, String), &'static str>)
    ensures
        new_desc@.len() == 0 ==> ({
            &&& r matches Err(e)
            &&& e@ == "Tasks cannot have empty descriptions!"@
        }),
        new_desc@.len() > 0 && task@.list.len() == 0 ==> ({
            &&& r matches Err(e)
            &&& e@ == "A task must have a list!"@
        }),
        new_desc@.len() > 0 && task@.list.len() > 0 ==> ({
            &&& r matches Ok(p)
            &&& p.0@ == (TaskView { description: new_desc@, ..task@ })
            &&& p.1@ == "Updated Task to '"@ + new_desc@ + "'"@
        }),
{
    let new_task = match Task::new(new_desc, task.status(), task.list()) {
        Ok(new_task) => new_task,
        Err(err) => match err {
            crate::task::TaskErrors::EmptyDescription => {
                return Err("Tasks cannot have empty descriptions!");
            },
            crate::task::TaskErrors::EmptyList => {
                return Err("A task must have a list!");
            },
        },
    };
    let mut success_message = String::new();
    success_message.append("Updated Task to '");
    let d = new_task.description();
    success_message.append(d.as_str());
    success_message.append("'");
    Ok((new_task, success_message))
}

/// Returns the tasks in descending order of progress: the completed tasks,
/// then those in progress, then those not started, each group in input
/// order.
pub fn sort_tasks(tasks: Vec<Task>) -> (r: Vec<Task>)
    ensures
        r@ == sorted_order(tasks@),
{
    let mut completed: Vec<Task> = Vec::new();
    let mut in_progress: Vec<Task> = Vec::new();
    let mut not_started: Vec<Task> = Vec::new();
    proof {
        assert(tasks@.take(0) =~= Seq::<Task>::empty());
        lemma_with_status_empty(TaskStatus::Completed);
        lemma_with_status_empty(TaskStatus::InProgress);
        lemma_with_status_empty(TaskStatus::NotStarted);
    }
    let mut i: usize = 0;
    while i < tasks.len()
        invariant
            i <= tasks.len(),
            completed@ == with_status(tasks@.take(i as int), TaskStatus::Completed),
            in_progress@ == with_status(tasks@.take(i as int), TaskStatus::InProgress),
            not_started@ == with_status(tasks@.take(i as int), TaskStatus::NotStarted),
        decreases tasks.len() - i,
    {
        let t = tasks[i].clone();
        match t.status() {
            TaskStatus::Completed => completed.push(t),
            TaskStatus::InProgress => in_progress.push(t),
            TaskStatus::NotStarted => not_started.push(t),
        }
        proof {
            let pre = tasks@.take(i as int);
            let x = tasks@[i as int];
            assert(pre.push(x) =~= tasks@.take(i + 1));
            lemma_with_status_push(pre, x, TaskStatus::Completed);
            lemma_with_status_push(pre, x, TaskStatus::InProgress);
            lemma_with_status_push(pre, x, TaskStatus::NotStarted);
        }
        i = i + 1;
    }
    proof {
        assert(tasks@.take(tasks@.len() as int) =~= tasks@);
    }
    let mut sorted_tasks: Vec<Task> = completed;
    sorted_tasks.append(&mut in_progress);
    sorted_tasks.append(&mut not_started);
    sorted_tasks
}

/// Deletes every completed task and reports how many were deleted.
pub fn cleanup_list(tasks: &mut Vec<Task>) -> (r: String)
    ensures
        final(tasks)@ == not_completed(old(tasks)@),
        r@ == "Removed "@ + dec_rep(with_status(old(tasks)@, TaskStatus::Completed).len())
            + " Completed tasks!"@,
{
    let mut kept: Vec<Task> = Vec::new();
    let mut removed: usize = 0;
    proof {
        assert(old(tasks)@.take(0) =~= Seq::<Task>::empty());
        lemma_with_status_empty(TaskStatus::Completed);
        crate::task_management::lemma_filters_empty(Seq::<char>::empty());
    }
    let mut i: usize = 0;
    while i < tasks.len()
        invariant
            i <= tasks.len(),
            tasks@ == old(tasks)@,
            kept@ == not_completed(old(tasks)@.take(i as int)),
            removed == with_status(old(tasks)@.take(i as int), TaskStatus::Completed).len(),
            removed <= i,
        decreases tasks.len() - i,
    {
        let t = tasks[i].clone();
        proof {
            let pre = old(tasks)@.take(i as int);
            let x = old(tasks)@[i as int];
            assert(pre.push(x) =~= old(tasks)@.take(i + 1));
            lemma_with_status_push(pre, x, TaskStatus::Completed);
            lemma_not_completed_push(pre, x);
        }
        match t.status() {
            TaskStatus::Completed => {
                removed = removed + 1;
            },
            _ => {
                kept.push(t);
            },
        }
        i = i + 1;
    }
    proof {
        assert(old(tasks)@.take(tasks@.len() as int) =~= old(tasks)@);
    }
    let mut message = String::new();
    message.append("Removed ");
    let num = crate::text::usize_to_string(removed);
    message.append(num.as_str());
    message.append(" Completed tasks!");
    *tasks = kept;
    message
}

} // verus!
