//! Operations over a caller-owned sequence of tasks: listing, sorting,
//! status transitions, description edits, and deletion, all addressed by a
//! zero-based index.
use vstd::prelude::*;

use crate::config::{Config, ConfigView};
use crate::task::{task_render, Task, TaskErrors, TaskStatus, TaskView};
use crate::text::dec_rep;

verus! {

/// Errors of the task-management operations.
#[derive(Clone, Copy, Debug, PartialEq, Eq, Structural)]
pub enum TaskManagementErrors {
    TaskAlreadyGivenStatus,
    TaskDoesntExist,
    EmptyTasklist,
}

/// Errors of a description update: either from the management layer (bad
/// index, empty list) or from the task entity (empty description). The two
/// families are kept distinct.
#[derive(Clone, Copy, Debug, PartialEq, Eq, Structural)]
pub enum UpdateTaskErrors {
    ManagementErrors(TaskManagementErrors),
    TaskErrors(TaskErrors),
}

/// The subsequence of `tasks` whose status is `status`, in input order.
pub open spec fn with_status(tasks: Seq<Task>, status: TaskStatus) -> Seq<Task> {
    tasks.filter(|t: Task| t@.status == status)
}

/// The order produced by sorting: a Completed block, then InProgress, then
/// NotStarted, each block in input order.
pub open spec fn sorted_order(tasks: Seq<Task>) -> Seq<Task> {
    with_status(tasks, TaskStatus::Completed) + with_status(tasks, TaskStatus::InProgress)
        + with_status(tasks, TaskStatus::NotStarted)
}

/// Extending the input by one task extends exactly the block of its status.
pub proof fn lemma_with_status_push(tasks: Seq<Task>, t: Task, status: TaskStatus)
    ensures
        with_status(tasks.push(t), status) == if t@.status == status {
            with_status(tasks, status).push(t)
        } else {
            with_status(tasks, status)
        },
{
    reveal(Seq::filter);
    assert(tasks.push(t).drop_last() =~= tasks);
    assert(tasks.push(t).last() == t);
}

/// No tasks, no blocks.
pub proof fn lemma_with_status_empty(status: TaskStatus)
    ensures
        with_status(Seq::<Task>::empty(), status) == Seq::<Task>::empty(),
{
    reveal(Seq::filter);
}

/// The subsequence of `tasks` that belong to the list `list`, in input
/// order.
pub open spec fn tasks_in_list(tasks: Seq<Task>, list: Seq<char>) -> Seq<Task> {
    tasks.filter(|t: Task| t@.list == list)
}

/// The subsequence of `tasks` that belong to any other list, in input
/// order.
pub open spec fn tasks_not_in_list(tasks: Seq<Task>, list: Seq<char>) -> Seq<Task> {
    tasks.filter(|t: Task| t@.list != list)
}

/// The subsequence of `tasks` that are not completed, in input order.
pub open spec fn not_completed(tasks: Seq<Task>) -> Seq<Task> {
    tasks.filter(|t: Task| t@.status != TaskStatus::Completed)
}

/// The subsequence of `tasks` whose list is one of `lists`, in input order.
pub open spec fn tasks_in_lists(tasks: Seq<Task>, lists: Seq<Seq<char>>) -> Seq<Task> {
    tasks.filter(|t: Task| lists.contains(t@.list))
}

/// Extending the input by one task extends the retained tasks exactly when
/// its list is known.
pub proof fn lemma_in_lists_push(tasks: Seq<Task>, t: Task, lists: Seq<Seq<char>>)
    ensures
        tasks_in_lists(tasks.push(t), lists) == if lists.contains(t@.list) {
            tasks_in_lists(tasks, lists).push(t)
        } else {
            tasks_in_lists(tasks, lists)
        },
{
    reveal(Seq::filter);
    assert(tasks.push(t).drop_last() =~= tasks);
    assert(tasks.push(t).last() == t);
}

/// Of no tasks, none are retained.
pub proof fn lemma_in_lists_empty(lists: Seq<Seq<char>>)
    ensures
        tasks_in_lists(Seq::<Task>::empty(), lists) == Seq::<Task>::empty(),
{
    reveal(Seq::filter);
}

/// Extending the input by one task extends exactly the partition it falls
/// in.
pub proof fn lemma_list_filters_push(tasks: Seq<Task>, t: Task, list: Seq<char>)
    ensures
        tasks_in_list(tasks.push(t), list) == if t@.list == list {
            tasks_in_list(tasks, list).push(t)
        } else {
            tasks_in_list(tasks, list)
        },
        tasks_not_in_list(tasks.push(t), list) == if t@.list != list {
            tasks_not_in_list(tasks, list).push(t)
        } else {
            tasks_not_in_list(tasks, list)
        },
{
    reveal(Seq::filter);
    assert(tasks.push(t).drop_last() =~= tasks);
    assert(tasks.push(t).last() == t);
}

/// Extending the input by one task extends the retained tasks exactly when
/// the task is not completed.
pub proof fn lemma_not_completed_push(tasks: Seq<Task>, t: Task)
    ensures
        not_completed(tasks.push(t)) == if t@.status != TaskStatus::Completed {
            not_completed(tasks).push(t)
        } else {
            not_completed(tasks)
        },
{
    reveal(Seq::filter);
    assert(tasks.push(t).drop_last() =~= tasks);
    assert(tasks.push(t).last() == t);
}

/// Of no tasks, every partition is empty.
pub proof fn lemma_filters_empty(list: Seq<char>)
    ensures
        tasks_in_list(Seq::<Task>::empty(), list) == Seq::<Task>::empty(),
        tasks_not_in_list(Seq::<Task>::empty(), list) == Seq::<Task>::empty(),
        not_completed(Seq::<Task>::empty()) == Seq::<Task>::empty(),
{
    reveal(Seq::filter);
}

/// Law: the two partitions of a filter hold together exactly the input —
/// their multisets add up to the input's multiset, for every list name and
/// every task sequence.
pub proof fn lemma_filter_partition(tasks: Seq<Task>, list: Seq<char>)
    ensures
        tasks_in_list(tasks, list).to_multiset().add(tasks_not_in_list(tasks, list).to_multiset())
            == tasks.to_multiset(),
    decreases tasks.len(),
{
    broadcast use vstd::seq_lib::group_to_multiset_ensures;

    if tasks.len() == 0 {
        lemma_filters_empty(list);
        assert(tasks =~= Seq::<Task>::empty());
        assert(tasks_in_list(tasks, list).to_multiset().add(
            tasks_not_in_list(tasks, list).to_multiset(),
        ) =~= tasks.to_multiset());
    } else {
        let front = tasks.drop_last();
        let t = tasks.last();
        lemma_filter_partition(front, list);
        lemma_list_filters_push(front, t, list);
        assert(front.push(t) =~= tasks);
        assert(tasks_in_list(tasks, list).to_multiset().add(
            tasks_not_in_list(tasks, list).to_multiset(),
        ) =~= tasks.to_multiset());
    }
}

/// Whether the listing shows the current list's name above the tasks: always
/// when `always_show_list_names` is set, or under `smart_list_names` once
/// there is more than one list.
pub open spec fn shows_list_name(c: ConfigView) -> bool {
    c.always_show_list_names || (c.smart_list_names && c.lists.len() > 1)
}

/// Whether the listing shows 1-based task ids: always when
/// `always_show_task_ids` is set, or under `smart_task_ids` once the list
/// has at least `num_of_tasks` tasks.
pub open spec fn shows_task_ids(c: ConfigView, len: nat) -> bool {
    c.always_show_task_ids || (c.smart_task_ids && len >= c.num_of_tasks)
}

/// One line of a listing: the optional 1-based id, the rendered task, and a
/// line break.
pub open spec fn listing_line(t: TaskView, id: nat, show_ids: bool) -> Seq<char> {
    if show_ids {
        dec_rep(id) + ". "@ + task_render(t) + "\n"@
    } else {
        task_render(t) + "\n"@
    }
}

/// The task lines of a listing, ids counted from 1.
pub open spec fn listing_lines(tasks: Seq<Task>, show_ids: bool) -> Seq<char>
    decreases tasks.len(),
{
    if tasks.len() == 0 {
        Seq::empty()
    } else {
        listing_lines(tasks.drop_last(), show_ids) + listing_line(
            tasks.last()@,
            tasks.len(),
            show_ids,
        )
    }
}

/// The full listing of `tasks` under the configuration `c`: the optional
/// list-name header, then one line per task.
pub open spec fn listing(tasks: Seq<Task>, c: ConfigView) -> Seq<char> {
    let header = if shows_list_name(c) {
        c.current_list + "\n"@
    } else {
        Seq::<char>::empty()
    };
    header + listing_lines(tasks, shows_task_ids(c, tasks.len()))
}

/// Renders the tasks with 1-based positional ids; fails on an empty list.
pub fn list_tasks(tasks: &Vec<Task>, config: &Config) -> (r: Result<
    String,
    TaskManagementErrors,
>)
    ensures
        tasks@.len() == 0 ==> r == Err::<String, TaskManagementErrors>(
            TaskManagementErrors::EmptyTasklist,
        ),
        tasks@.len() > 0 ==> ({
            &&& r matches Ok(s)
            &&& s@ == listing(tasks@, config@)
        }),
{
    if tasks.len() == 0 {
        return Err(TaskManagementErrors::EmptyTasklist);
    }
    let mut out = String::new();
    if config.always_show_list_names() || (config.smart_list_names() && config.lists_len() > 1) {
        let name = config.current_list();
        out.append(name.as_str());
        out.append("\n");
    }
    let show_ids = config.always_show_task_ids() || (config.smart_task_ids() && tasks.len()
        >= config.num_of_tasks());
    let ghost header = out@;
    let mut i: usize = 0;
    while i < tasks.len()
        invariant
            i <= tasks.len(),
            show_ids == shows_task_ids(config@, tasks@.len()),
            out@ == header + listing_lines(tasks@.take(i as int), show_ids),
        decreases tasks.len() - i,
    {
        if show_ids {
            let id = crate::text::usize_to_string(i + 1);
            out.append(id.as_str());
            out.append(". ");
        }
        let line = tasks[i].render();
        out.append(line.as_str());
        out.append("\n");
        proof {
            assert(tasks@.take(i + 1).drop_last() =~= tasks@.take(i as int));
            assert(tasks@.take(i + 1).last() == tasks@[i as int]);
            assert(out@ =~= header + listing_lines(tasks@.take(i + 1), show_ids));
        }
        i = i + 1;
    }
    proof {
        assert(tasks@.take(tasks@.len() as int) =~= tasks@);
    }
    Ok(out)
}

/// Sorts the tasks into a Completed block, then InProgress, then NotStarted,
/// each block keeping its input order; fails on an empty list, which is left
/// unchanged.
pub fn sort_tasks(tasks: &mut Vec<Task>) -> (r: Result<(), TaskManagementErrors>)
    ensures
        old(tasks)@.len() == 0 ==> r == Err::<(), TaskManagementErrors>(
            TaskManagementErrors::EmptyTasklist,
        ) && final(tasks)@ == old(tasks)@,
        old(tasks)@.len() > 0 ==> r == Ok::<(), TaskManagementErrors>(()) && final(tasks)@
            == sorted_order(old(tasks)@),
{
    if tasks.len() == 0 {
        return Err(TaskManagementErrors::EmptyTasklist);
    }
    let mut completed: Vec<Task> = Vec::new();
    let mut in_progress: Vec<Task> = Vec::new();
    let mut not_started: Vec<Task> = Vec::new();
    proof {
        assert(old(tasks)@.take(0) =~= Seq::<Task>::empty());
        lemma_with_status_empty(TaskStatus::Completed);
        lemma_with_status_empty(TaskStatus::InProgress);
        lemma_with_status_empty(TaskStatus::NotStarted);
    }
    let mut i: usize = 0;
    while i < tasks.len()
        invariant
            i <= tasks.len(),
            tasks@ == old(tasks)@,
            completed@ == with_status(old(tasks)@.take(i as int), TaskStatus::Completed),
            in_progress@ == with_status(old(tasks)@.take(i as int), TaskStatus::InProgress),
            not_started@ == with_status(old(tasks)@.take(i as int), TaskStatus::NotStarted),
        decreases tasks.len() - i,
    {
        let t = tasks[i].clone();
        match t.status() {
            TaskStatus::Completed => completed.push(t),
            TaskStatus::InProgress => in_progress.push(t),
            TaskStatus::NotStarted => not_started.push(t),
        }
        proof {
            let pre = old(tasks)@.take(i as int);
            let x = old(tasks)@[i as int];
            assert(pre.push(x) =~= old(tasks)@.take(i + 1));
            lemma_with_status_push(pre, x, TaskStatus::Completed);
            lemma_with_status_push(pre, x, TaskStatus::InProgress);
            lemma_with_status_push(pre, x, TaskStatus::NotStarted);
        }
        i = i + 1;
    }
    proof {
        assert(old(tasks)@.take(tasks@.len() as int) =~= old(tasks)@);
    }
    tasks.clear();
    tasks.append(&mut completed);
    tasks.append(&mut in_progress);
    tasks.append(&mut not_started);
    Ok(())
}

/// Sets the status of the task at `index`. Fails on an empty list, an index
/// out of range, or a transition to the task's current status — every
/// transition must be a genuine change — and in each failing case the tasks
/// are left unmodified.
pub fn update_task_status(tasks: &mut Vec<Task>, index: usize, new_status: TaskStatus) -> (r:
    Result<(), TaskManagementErrors>)
    ensures
        old(tasks)@.len() == 0 ==> r == Err::<(), TaskManagementErrors>(
            TaskManagementErrors::EmptyTasklist,
        ) && final(tasks)@ == old(tasks)@,
        old(tasks)@.len() > 0 && index >= old(tasks)@.len() ==> r == Err::<(),
            TaskManagementErrors,
        >(TaskManagementErrors::TaskDoesntExist) && final(tasks)@ == old(tasks)@,
        old(tasks)@.len() > 0 && index < old(tasks)@.len() && old(tasks)@[index as int]@.status
            == new_status ==> r == Err::<(), TaskManagementErrors>(
            TaskManagementErrors::TaskAlreadyGivenStatus,
        ) && final(tasks)@ == old(tasks)@,
        old(tasks)@.len() > 0 && index < old(tasks)@.len() && old(tasks)@[index as int]@.status
            != new_status ==> ({
            &&& r == Ok::<(), TaskManagementErrors>(())
            &&& final(tasks)@.len() == old(tasks)@.len()
            &&& final(tasks)@[index as int]@ == (TaskView {
                status: new_status,
                ..old(tasks)@[index as int]@
            })
            &&& forall|k: int|
                0 <= k < old(tasks)@.len() && k != index ==> final(tasks)@[k] == old(tasks)@[k]
        }),
{
    if tasks.len() == 0 {
        return Err(TaskManagementErrors::EmptyTasklist);
    }
    if index >= tasks.len() {
        return Err(TaskManagementErrors::TaskDoesntExist);
    }
    if tasks[index].status() == new_status {
        return Err(TaskManagementErrors::TaskAlreadyGivenStatus);
    }
    let mut t = tasks.remove(index);
    t.update_status(new_status);
    tasks.insert(index, t);
    Ok(())
}

/// Replaces the description of the task at `index`. Fails on an empty list
/// or a bad index (management errors) or on an empty new description (an
/// entity error); in each failing case the tasks are left unmodified.
pub fn update_task_description(tasks: &mut Vec<Task>, index: usize, new_description: String) -> (r:
    Result<(), UpdateTaskErrors>)
    ensures
        old(tasks)@.len() == 0 ==> r == Err::<(), UpdateTaskErrors>(
            UpdateTaskErrors::ManagementErrors(TaskManagementErrors::EmptyTasklist),
        ) && final(tasks)@ == old(tasks)@,
        old(tasks)@.len() > 0 && index >= old(tasks)@.len() ==> r == Err::<(), UpdateTaskErrors>(
            UpdateTaskErrors::ManagementErrors(TaskManagementErrors::TaskDoesntExist),
        ) && final(tasks)@ == old(tasks)@,
        old(tasks)@.len() > 0 && index < old(tasks)@.len() && new_description@.len() == 0 ==> r
            == Err::<(), UpdateTaskErrors>(UpdateTaskErrors::TaskErrors(
            TaskErrors::EmptyDescription,
        )) && final(tasks)@ == old(tasks)@,
        old(tasks)@.len() > 0 && index < old(tasks)@.len() && new_description@.len() > 0 ==> ({
            &&& r == Ok::<(), UpdateTaskErrors>(())
            &&& final(tasks)@.len() == old(tasks)@.len()
            &&& final(tasks)@[index as int]@ == (TaskView {
                description: new_description@,
                ..old(tasks)@[index as int]@
            })
            &&& forall|k: int|
                0 <= k < old(tasks)@.len() && k != index ==> final(tasks)@[k] == old(tasks)@[k]
        }),
{
    if tasks.len() == 0 {
        return Err(UpdateTaskErrors::ManagementErrors(TaskManagementErrors::EmptyTasklist));
    }
    if index >= tasks.len() {
        return Err(UpdateTaskErrors::ManagementErrors(TaskManagementErrors::TaskDoesntExist));
    }
    if new_description.as_str().is_empty() {
        return Err(UpdateTaskErrors::TaskErrors(TaskErrors::EmptyDescription));
    }
    let mut t = tasks.remove(index);
    match t.update_description(new_description) {
        Ok(()) => {},
        Err(_) => {},
    }
    tasks.insert(index, t);
    Ok(())
}

/// Removes the task at `index`; fails when the index is out of range,
/// leaving the tasks unmodified.
pub fn delete_task(tasks: &mut Vec<Task>, index: usize) -> (r: Result<(), TaskManagementErrors>)
    ensures
        index >= old(tasks)@.len() ==> r == Err::<(), TaskManagementErrors>(
            TaskManagementErrors::TaskDoesntExist,
        ) && final(tasks)@ == old(tasks)@,
        index < old(tasks)@.len() ==> r == Ok::<(), TaskManagementErrors>(()) && final(tasks)@
            == old(tasks)@.remove(index as int),
{
    if index >= tasks.len() {
        return Err(TaskManagementErrors::TaskDoesntExist);
    }
    tasks.remove(index);
    Ok(())
}

} // verus!
