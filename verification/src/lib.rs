//! A single-user task tracker library: tasks with a three-state status,
//! named task lists with per-user display configuration, and a verified
//! line-oriented persistence codec. Every operation takes the state it
//! works on as an argument and returns a typed result; nothing here reads
//! arguments, prints, or touches a file.
use vstd::prelude::*;

pub mod actions;
pub mod args;
pub mod config;
pub mod program_state;
pub mod task;
pub mod task_management;
pub mod text;
pub mod user_config;

use crate::args::{
    CleanupCommand, ConfigCommand, DeleteCommand, FinishCommand, ListCommand, RestartCommand,
    StartCommand, TasksCommand, UpdateCommand,
};
use crate::config::{Config, ConfigView};
use crate::task::{task_render, task_views, Task, TaskStatus, TaskView};
use crate::task_management::{
    listing, not_completed, sorted_order, tasks_in_list, tasks_not_in_list, TaskManagementErrors,
};
use crate::text::{bool_seq, bool_to_str, dec_rep, usize_to_string};

verus! {

/// Translates a 1-based task id into a vector index: one less than the id,
/// except that an id of 0 is clamped to index 0 rather than underflowing.
pub open spec fn id_index(task_id: usize) -> int {
    if task_id == 0 {
        0
    } else {
        task_id - 1
    }
}

/// Translates a 1-based task id into a vector index. Ids start at 1, so the
/// index is one less than the id; an id of 0 is clamped to index 0 rather
/// than underflowing.
pub fn task_id_to_index(task_id: usize) -> (index: usize)
    ensures
        index == id_index(task_id),
{
    if task_id == 0 {
        0
    } else {
        task_id - 1
    }
}

/// Inserts an id into an ascending duplicate-free id sequence, keeping it
/// ascending and duplicate-free.
pub open spec fn insert_id(ids: Seq<usize>, x: usize) -> Seq<usize>
    decreases ids.len(),
{
    if ids.len() == 0 {
        seq![x]
    } else if x == ids.last() {
        ids
    } else if x > ids.last() {
        ids.push(x)
    } else {
        insert_id(ids.drop_last(), x).push(ids.last())
    }
}

/// The ascending, duplicate-free arrangement of the given ids.
pub open spec fn normalize_ids(ids: Seq<usize>) -> Seq<usize>
    decreases ids.len(),
{
    if ids.len() == 0 {
        Seq::empty()
    } else {
        insert_id(normalize_ids(ids.drop_last()), ids.last())
    }
}

/// Inserts an id into a sorted id vector as [`insert_id`] describes.
fn insert_id_exec(ids: Vec<usize>, x: usize) -> (out: Vec<usize>)
    ensures
        out@ == insert_id(ids@, x),
    decreases ids@.len(),
{
    let mut ids = ids;
    if ids.len() == 0 {
        ids.push(x);
        proof {
            assert(ids@ =~= seq![x]);
        }
        ids
    } else {
        let last = ids[ids.len() - 1];
        if x == last {
            ids
        } else if x > last {
            ids.push(x);
            ids
        } else {
            let popped = ids.pop().unwrap();
            let mut out = insert_id_exec(ids, x);
            out.push(popped);
            out
        }
    }
}

/// Sorts the given ids ascending and removes duplicates.
pub fn sort_and_filter_task_ids(indexes: Vec<usize>) -> (r: Vec<usize>)
    ensures
        r@ == normalize_ids(indexes@),
{
    let mut acc: Vec<usize> = Vec::new();
    proof {
        assert(indexes@.take(0) =~= Seq::<usize>::empty());
    }
    let mut i: usize = 0;
    while i < indexes.len()
        invariant
            i <= indexes.len(),
            acc@ == normalize_ids(indexes@.take(i as int)),
        decreases indexes.len() - i,
    {
        proof {
            assert(indexes@.take(i + 1).drop_last() =~= indexes@.take(i as int));
            assert(indexes@.take(i + 1).last() == indexes@[i as int]);
        }
        acc = insert_id_exec(acc, indexes[i]);
        i = i + 1;
    }
    proof {
        assert(indexes@.take(indexes@.len() as int) =~= indexes@);
    }
    acc
}

/// The views of `tasks` with the status of the task at `idx` replaced.
pub open spec fn set_status_at(tasks: Seq<TaskView>, idx: int, status: TaskStatus) -> Seq<
    TaskView,
> {
    tasks.update(idx, TaskView { status, ..tasks[idx] })
}

/// What updating the status of each of `ids` in turn, first id first,
/// yields: the final views, or the views at the first failure together
/// with its error.
pub open spec fn apply_status_updates(
    tasks: Seq<TaskView>,
    ids: Seq<usize>,
    status: TaskStatus,
) -> Result<Seq<TaskView>, (Seq<TaskView>, TaskManagementErrors)>
    decreases ids.len(),
{
    if ids.len() == 0 {
        Ok(tasks)
    } else {
        let idx = id_index(ids[0]);
        if tasks.len() == 0 {
            Err((tasks, TaskManagementErrors::EmptyTasklist))
        } else if idx >= tasks.len() {
            Err((tasks, TaskManagementErrors::TaskDoesntExist))
        } else if tasks[idx].status == status {
            Err((tasks, TaskManagementErrors::TaskAlreadyGivenStatus))
        } else {
            apply_status_updates(set_status_at(tasks, idx, status), ids.drop_first(), status)
        }
    }
}

/// What deleting each of `ids` in turn, last id first, yields: the final
/// views, or the views at the first out-of-range id.
pub open spec fn apply_deletes(tasks: Seq<TaskView>, ids: Seq<usize>) -> Result<
    Seq<TaskView>,
    Seq<TaskView>,
>
    decreases ids.len(),
{
    if ids.len() == 0 {
        Ok(tasks)
    } else {
        let idx = id_index(ids.last());
        if idx >= tasks.len() {
            Err(tasks)
        } else {
            apply_deletes(tasks.remove(idx), ids.drop_last())
        }
    }
}

/// The plain rendering of tasks, one per line, without ids.
pub open spec fn render_tasks_plain(tasks: Seq<Task>) -> Seq<char>
    decreases tasks.len(),
{
    if tasks.len() == 0 {
        Seq::empty()
    } else {
        render_tasks_plain(tasks.drop_last()) + task_render(tasks.last()@) + "\n"@
    }
}

/// The listing of every list: for each list in display order, its name,
/// its tasks, and a blank line.
pub open spec fn all_listing(tasks: Seq<Task>, lists: Seq<Seq<char>>) -> Seq<char>
    decreases lists.len(),
{
    if lists.len() == 0 {
        Seq::empty()
    } else {
        all_listing(tasks, lists.drop_last()) + lists.last() + "\n"@ + render_tasks_plain(
            tasks_in_list(tasks, lists.last()),
        ) + "\n"@
    }
}

/// Renders the current list — or, under the `all` flag, every list —
/// sorting the current list first when asked to; fails when there is
/// nothing to show.
#[verifier::loop_isolation(false)]
pub fn list_tasks(
    tasks: &mut Vec<Task>,
    other_tasks: &Vec<Task>,
    config: &Config,
    arguments: TasksCommand,
) -> (r: Result<String, &'static str>)
    ensures
        final(tasks)@ == if arguments.sort && old(tasks)@.len() > 0 {
            sorted_order(old(tasks)@)
        } else {
            old(tasks)@
        },
        arguments.all ==> ({
            &&& final(tasks)@.len() + other_tasks@.len() == 0 ==> ({
                &&& r matches Err(e)
                &&& e@ == "There are no tasks in any list!"@
            })
            &&& final(tasks)@.len() + other_tasks@.len() > 0 ==> ({
                &&& r matches Ok(s)
                &&& s@ == all_listing(final(tasks)@ + other_tasks@, config@.lists)
            })
        }),
        !arguments.all ==> ({
            &&& final(tasks)@.len() == 0 ==> ({
                &&& r matches Err(e)
                &&& e@ == "There are no tasks in the list!"@
            })
            &&& final(tasks)@.len() > 0 ==> ({
                &&& r matches Ok(s)
                &&& s@ == listing(final(tasks)@, config@)
            })
        }),
{
    if arguments.sort {
        match task_management::sort_tasks(tasks) {
            Ok(_) => {},
            Err(_) => {},
        }
    }
    if arguments.all {
        if tasks.len() == 0 && other_tasks.len() == 0 {
            return Err("There are no tasks in any list!");
        }
        let mut all_tasks: Vec<Task> = Vec::new();
        let mut i: usize = 0;
        while i < tasks.len()
            invariant
                i <= tasks@.len(),
                all_tasks@.len() == i,
                forall|k: int| 0 <= k < i ==> all_tasks@[k] == tasks@[k],
            decreases tasks@.len() - i,
        {
            all_tasks.push(tasks[i].clone());
            i = i + 1;
        }
        let mut j: usize = 0;
        while j < other_tasks.len()
            invariant
                j <= other_tasks@.len(),
                all_tasks@.len() == tasks@.len() + j,
                forall|k: int| 0 <= k < tasks@.len() ==> all_tasks@[k] == tasks@[k],
                forall|k: int|
                    0 <= k < j ==> all_tasks@[tasks@.len() + k] == other_tasks@[k],
            decreases other_tasks@.len() - j,
        {
            all_tasks.push(other_tasks[j].clone());
            j = j + 1;
        }
        proof {
            assert(all_tasks@ =~= tasks@ + other_tasks@);
        }
        let lists = config.lists_iter();
        let ghost lv = config@.lists;
        let mut out = String::new();
        proof {
            assert(lv.take(0) =~= Seq::<Seq<char>>::empty());
        }
        let mut li: usize = 0;
        while li < lists.len()
            invariant
                li <= lists@.len(),
                text::views_of(lists@) == lv,
                out@ == all_listing(all_tasks@, lv.take(li as int)),
            decreases lists@.len() - li,
        {
            out.append(lists[li].as_str());
            out.append("\n");
            let ghost name = lv[li as int];
            let ghost seg_start = out@;
            proof {
                assert(all_tasks@.take(0) =~= Seq::<Task>::empty());
                task_management::lemma_filters_empty(name);
            }
            let mut ti: usize = 0;
            while ti < all_tasks.len()
                invariant
                    ti <= all_tasks@.len(),
                    li < lists@.len(),
                    text::views_of(lists@) == lv,
                    name == lv[li as int],
                    out@ == seg_start + render_tasks_plain(
                        tasks_in_list(all_tasks@.take(ti as int), name),
                    ),
                decreases all_tasks@.len() - ti,
            {
                proof {
                    let pre = all_tasks@.take(ti as int);
                    let x = all_tasks@[ti as int];
                    assert(pre.push(x) =~= all_tasks@.take(ti + 1));
                    task_management::lemma_list_filters_push(pre, x, name);
                    if x@.list == name {
                        let a = tasks_in_list(pre, name);
                        assert(a.push(x).drop_last() =~= a);
                        assert(a.push(x).last() == x);
                    }
                }
                let t_list = all_tasks[ti].list();
                let cur_name = &lists[li];
                if t_list == *cur_name {
                    let line = all_tasks[ti].render();
                    out.append(line.as_str());
                    out.append("\n");
                }
                ti = ti + 1;
            }
            out.append("\n");
            proof {
                assert(all_tasks@.take(all_tasks@.len() as int) =~= all_tasks@);
                assert(lv.take(li + 1).drop_last() =~= lv.take(li as int));
                assert(lv.take(li + 1).last() == name);
                assert(out@ =~= all_listing(all_tasks@, lv.take(li + 1)));
            }
            li = li + 1;
        }
        proof {
            assert(lv.take(lists@.len() as int) =~= lv);
        }
        return Ok(out);
    }
    match task_management::list_tasks(tasks, config) {
        Ok(list) => Ok(list),
        Err(_) => Err("There are no tasks in the list!"),
    }
}

/// Applies one list-management action — create, switch, or delete — or,
/// with no action, renders the list names; reports the outcome.
pub fn manage_lists(config: &mut Config, arguments: ListCommand) -> (r: Option<String>)
    requires
        old(config).wf(),
    ensures
        final(config).wf(),
        arguments.new matches Some(name) ==> ({
            &&& old(config)@.lists.contains(name@) ==> final(config)@ == old(config)@ && ({
                &&& r matches Some(s)
                &&& s@ == "That list already exists!"@
            })
            &&& !old(config)@.lists.contains(name@) ==> final(config)@ == (ConfigView {
                lists: old(config)@.lists.push(name@),
                ..old(config)@
            }) && ({
                &&& r matches Some(s)
                &&& s@ == "List added!"@
            })
        }),
        arguments.new is None ==> ({
            &&& arguments.switch matches Some(name) ==> ({
            &&& !old(config)@.lists.contains(name@) ==> final(config)@ == old(config)@ && ({
                &&& r matches Some(s)
                &&& s@ == "That list doesn't exist!"@
            })
            &&& old(config)@.lists.contains(name@) ==> final(config)@ == (ConfigView {
                current_list: name@,
                ..old(config)@
            }) && ({
                &&& r matches Some(s)
                &&& s@ == "Switched Lists!"@
            })
            })
        }),
        arguments.new is None && arguments.switch is None ==> ({
            &&& arguments.delete matches Some(name) ==> ({
            &&& !old(config)@.lists.contains(name@) ==> final(config)@ == old(config)@ && ({
                &&& r matches Some(s)
                &&& s@ == "That list doesn't exist!"@
            })
            &&& old(config)@.lists.contains(name@) && old(config)@.lists.len() == 1 ==> final(
                config
            )@ == old(config)@ && ({
                &&& r matches Some(s)
                &&& s@ == "You must have at least one list!"@
            })
            &&& old(config)@.lists.contains(name@) && old(config)@.lists.len() > 1 ==> ({
                let pos = old(config)@.lists.index_of(name@);
                &&& final(config)@ == (ConfigView {
                    lists: old(config)@.lists.remove(pos),
                    current_list: if old(config)@.current_list == name@ {
                        old(config)@.lists.remove(pos)[0]
                    } else {
                        old(config)@.current_list
                    },
                    ..old(config)@
                })
                &&& r matches Some(s)
                &&& s@ == "Deleted List!"@
            })
            })
        }),
        arguments.new is None && arguments.switch is None && arguments.delete is None ==> final(
            config
        )@ == old(config)@ && ({
            &&& r matches Some(s)
            &&& s@ == crate::config::lists_display(old(config)@.lists, old(config)@.current_list)
        }),
{
    match arguments.new {
        Some(list_name) => {
            let message: &'static str = match config.add_list(list_name) {
                Ok(_) => "List added!",
                Err(_) => "That list already exists!",
            };
            return Some(String::from_str(message));
        },
        None => {},
    }
    match arguments.switch {
        Some(list_name) => {
            let message: &'static str = match config.set_current_list(list_name) {
                Ok(_) => "Switched Lists!",
                Err(_) => "That list doesn't exist!",
            };
            return Some(String::from_str(message));
        },
        None => {},
    }
    match arguments.delete {
        Some(list_name) => {
            let message: &'static str = match config.delete_list(list_name) {
                Ok(_) => "Deleted List!",
                Err(err) => match err {
                    crate::config::ListErrors::ListDoesntExist => "That list doesn't exist!",
                    crate::config::ListErrors::ListCannotBeDeleted => "You must have at least one list!",
                    // delete_list never reports this error
                    crate::config::ListErrors::ListAlreadyExists => "That list doesn't exist!",
                },
            };
            return Some(String::from_str(message));
        },
        None => {},
    }
    Some(config.lists_to_string())
}

/// Applies the first configuration option given, or, with none, renders
/// the options and their values.
pub fn manage_config(config: &mut Config, arguments: ConfigCommand) -> (r: String)
    ensures
        old(config).wf() ==> final(config).wf(),
        arguments.always_show_task_ids matches Some(v) ==> final(config)@ == (ConfigView {
            always_show_task_ids: v,
            ..old(config)@
        }) && r@ == "Set always_show_task_ids to "@ + bool_seq(v),
        arguments.always_show_task_ids is None ==> ({
            &&& arguments.smart_task_ids matches Some(v) ==> final(config)@ == (ConfigView {
                smart_task_ids: v,
                ..old(config)@
            }) && r@ == "Set smart_task_ids to "@ + bool_seq(v)
        }),
        arguments.always_show_task_ids is None && arguments.smart_task_ids is None ==> ({
            &&& arguments.num_of_tasks matches Some(v) ==> final(config)@ == (ConfigView {
                num_of_tasks: v,
                ..old(config)@
            }) && r@ == "Set num_of_tasks to "@ + dec_rep(v as nat)
        }),
        arguments.always_show_task_ids is None && arguments.smart_task_ids is None
            && arguments.num_of_tasks is None ==> ({
            &&& arguments.always_show_list_name matches Some(v) ==> final(config)@ == (ConfigView {
                always_show_list_names: v,
                ..old(config)@
            }) && r@ == "Set always_show_list_name to "@ + bool_seq(v)
        }),
        arguments.always_show_task_ids is None && arguments.smart_task_ids is None
            && arguments.num_of_tasks is None && arguments.always_show_list_name is None ==> ({
            &&& arguments.smart_list_names matches Some(v) ==> final(config)@ == (ConfigView {
                smart_list_names: v,
                ..old(config)@
            }) && r@ == "Set smart_list_names to "@ + bool_seq(v)
        }),
        arguments.always_show_task_ids is None && arguments.smart_task_ids is None
            && arguments.num_of_tasks is None && arguments.always_show_list_name is None
            && arguments.smart_list_names is None ==> final(config)@ == old(config)@ && r@
            == "Option                   Value\n"@ + crate::config::options_display(old(config)@),
{
    match arguments.always_show_task_ids {
        Some(value) => {
            config.set_always_show_task_ids(value);
            let mut message = String::new();
            message.append("Set always_show_task_ids to ");
            message.append(bool_to_str(value));
            return message;
        },
        None => {},
    }
    match arguments.smart_task_ids {
        Some(value) => {
            config.set_smart_task_ids(value);
            let mut message = String::new();
            message.append("Set smart_task_ids to ");
            message.append(bool_to_str(value));
            return message;
        },
        None => {},
    }
    match arguments.num_of_tasks {
        Some(value) => {
            config.set_num_of_tasks(value);
            let mut message = String::new();
            message.append("Set num_of_tasks to ");
            let num = usize_to_string(value);
            message.append(num.as_str());
            return message;
        },
        None => {},
    }
    match arguments.always_show_list_name {
        Some(value) => {
            config.set_always_show_list_names(value);
            let mut message = String::new();
            message.append("Set always_show_list_name to ");
            message.append(bool_to_str(value));
            return message;
        },
        None => {},
    }
    match arguments.smart_list_names {
        Some(value) => {
            config.set_smart_list_names(value);
            let mut message = String::new();
            message.append("Set smart_list_names to ");
            message.append(bool_to_str(value));
            return message;
        },
        None => {},
    }
    let mut out = String::new();
    out.append("Option                   Value\n");
    let options = config.config_options_to_string();
    out.append(options.as_str());
    out
}

/// Consumes the given tasks and partitions them into those of the current
/// list and the rest, each part keeping its input order.
pub fn filter_task_vec(task_vec: Vec<Task>, config: &Config) -> (r: (Vec<Task>, Vec<Task>))
    ensures
        r.0@ == tasks_in_list(task_vec@, config@.current_list),
        r.1@ == tasks_not_in_list(task_vec@, config@.current_list),
{
    let current = config.current_list();
    crate::actions::tasklist_management::filter_list(current, task_vec)
}

/// Creates a task for the current list with the default status.
pub fn new_task(arguments: String, config: &Config) -> (r: Result<Task, &'static str>)
    ensures
        arguments@.len() == 0 ==> ({
            &&& r matches Err(e)
            &&& e@ == "Tasks cannot have empty descriptions!"@
        }),
        arguments@.len() > 0 && config@.current_list.len() == 0 ==> ({
            &&& r matches Err(e)
            &&& e@ == "A task must have a list!"@
        }),
        arguments@.len() > 0 && config@.current_list.len() > 0 ==> ({
            &&& r matches Ok(t)
            &&& t@ == (TaskView {
                description: arguments@,
                status: TaskStatus::NotStarted,
                list: config@.current_list,
            })
            &&& t.wf()
        }),
{
    let list = config.current_list();
    match Task::new(arguments, TaskStatus::NotStarted, list) {
        Ok(task) => Ok(task),
        Err(err) => match err {
            crate::task::TaskErrors::EmptyDescription => Err(
                "Tasks cannot have empty descriptions!",
            ),
            crate::task::TaskErrors::EmptyList => Err("A task must have a list!"),
        },
    }
}

/// Sorts the tasks into status blocks; fails on an empty list, which is
/// left unchanged.
pub fn sort_list(tasks: &mut Vec<Task>) -> (r: Result<(), &'static str>)
    ensures
        old(tasks)@.len() == 0 ==> ({
            &&& r matches Err(e)
            &&& e@ == "There are no tasks in the list!"@
            &&& final(tasks)@ == old(tasks)@
        }),
        old(tasks)@.len() > 0 ==> r == Ok::<(), &'static str>(()) && final(tasks)@ == sorted_order(
            old(tasks)@,
        ),
{
    match task_management::sort_tasks(tasks) {
        Ok(_) => Ok(()),
        Err(_) => Err("There are no tasks in the list!"),
    }
}

/// Removes every completed task from the current list, and, under the
/// `all` flag, from the other lists as well; the message names the scope.
pub fn cleanup_list(tasks: &mut Vec<Task>, other_tasks: &mut Vec<Task>, arguments: CleanupCommand)
    -> (r: &'static str)
    ensures
        final(tasks)@ == not_completed(old(tasks)@),
        arguments.all ==> final(other_tasks)@ == not_completed(old(other_tasks)@) && r@
            == "Removed all Completed Tasks!"@,
        !arguments.all ==> final(other_tasks)@ == old(other_tasks)@ && r@
            == "Removed Completed Tasks from the current list!"@,
{
    retain_not_completed(tasks);
    if arguments.all {
        retain_not_completed(other_tasks);
        return "Removed all Completed Tasks!";
    }
    "Removed Completed Tasks from the current list!"
}

/// Keeps only the tasks that are not completed, in order.
fn retain_not_completed(tasks: &mut Vec<Task>)
    ensures
        final(tasks)@ == not_completed(old(tasks)@),
{
    let mut kept: Vec<Task> = Vec::new();
    proof {
        assert(old(tasks)@.take(0) =~= Seq::<Task>::empty());
        task_management::lemma_filters_empty(Seq::<char>::empty());
    }
    let mut i: usize = 0;
    while i < tasks.len()
        invariant
            i <= tasks.len(),
            tasks@ == old(tasks)@,
            kept@ == not_completed(old(tasks)@.take(i as int)),
        decreases tasks.len() - i,
    {
        let t = tasks[i].clone();
        proof {
            let pre = old(tasks)@.take(i as int);
            let x = old(tasks)@[i as int];
            assert(pre.push(x) =~= old(tasks)@.take(i + 1));
            task_management::lemma_not_completed_push(pre, x);
        }
        match t.status() {
            TaskStatus::Completed => {},
            _ => {
                kept.push(t);
            },
        }
        i = i + 1;
    }
    proof {
        assert(old(tasks)@.take(tasks@.len() as int) =~= old(tasks)@);
    }
    *tasks = kept;
}

/// Keeps only the tasks whose list still exists in the configuration, in
/// order. This is the orphaned-task policy: a task whose list was deleted
/// (or never existed, after a hand-edited store) is dropped when the state
/// is saved, not retained or reassigned.
pub fn retain_valid_tasks(tasks: &mut Vec<Task>, config: &Config)
    ensures
        final(tasks)@ == task_management::tasks_in_lists(old(tasks)@, config@.lists),
{
    let mut kept: Vec<Task> = Vec::new();
    proof {
        assert(old(tasks)@.take(0) =~= Seq::<Task>::empty());
        task_management::lemma_in_lists_empty(config@.lists);
    }
    let mut i: usize = 0;
    while i < tasks.len()
        invariant
            i <= tasks.len(),
            tasks@ == old(tasks)@,
            kept@ == task_management::tasks_in_lists(old(tasks)@.take(i as int), config@.lists),
        decreases tasks.len() - i,
    {
        let t = tasks[i].clone();
        proof {
            let pre = old(tasks)@.take(i as int);
            let x = old(tasks)@[i as int];
            assert(pre.push(x) =~= old(tasks)@.take(i + 1));
            task_management::lemma_in_lists_push(pre, x, config@.lists);
        }
        let t_list = t.list();
        if config.is_valid_list(&t_list) {
            kept.push(t);
        }
        i = i + 1;
    }
    proof {
        assert(old(tasks)@.take(tasks@.len() as int) =~= old(tasks)@);
    }
    *tasks = kept;
}

/// Replaces — or, under the `append` flag, extends — the description of
/// the task at the given 1-based id, and reports the outcome.
pub fn update_task(tasks: &mut Vec<Task>, arguments: UpdateCommand) -> (r: &'static str)
    ensures
        ({
            let idx = id_index(arguments.task_id);
            let desc = if arguments.append && idx < old(tasks)@.len() {
                old(tasks)@[idx]@.description + arguments.new_description@
            } else {
                arguments.new_description@
            };
            &&& old(tasks)@.len() == 0 ==> r@ == "No tasks found!"@ && final(tasks)@ == old(
                tasks,
            )@
            &&& old(tasks)@.len() > 0 && idx >= old(tasks)@.len() ==> r@ == "Task not found!"@
                && final(tasks)@ == old(tasks)@
            &&& old(tasks)@.len() > 0 && idx < old(tasks)@.len() && desc.len() == 0 ==> r@
                == "Tasks cannot have empty descriptions!"@ && final(tasks)@ == old(tasks)@
            &&& old(tasks)@.len() > 0 && idx < old(tasks)@.len() && desc.len() > 0 ==> ({
                &&& r@ == "Task updated successfully!"@
                &&& final(tasks)@.len() == old(tasks)@.len()
                &&& final(tasks)@[idx]@ == (TaskView { description: desc, ..old(tasks)@[idx]@ })
                &&& forall|k: int|
                    0 <= k < old(tasks)@.len() && k != idx ==> final(tasks)@[k] == old(tasks)@[k]
            })
        }),
{
    let index = task_id_to_index(arguments.task_id);
    let mut description = arguments.new_description;
    if arguments.append && index < tasks.len() {
        let prefix = tasks[index].description();
        description = prefix.concat(description.as_str());
    }
    match task_management::update_task_description(tasks, index, description) {
        Ok(_) => "Task updated successfully!",
        Err(err) => match err {
            task_management::UpdateTaskErrors::ManagementErrors(error) => match error {
                TaskManagementErrors::EmptyTasklist => "No tasks found!",
                TaskManagementErrors::TaskDoesntExist => "Task not found!",
                _ => "Unknown error!",
            },
            task_management::UpdateTaskErrors::TaskErrors(error) => match error {
                crate::task::TaskErrors::EmptyDescription => "Tasks cannot have empty descriptions!",
                _ => "Unknown error!",
            },
        },
    }
}

/// Deletes the tasks at the given 1-based ids, largest id first so that
/// earlier deletions cannot shift later ones; reports the first id that
/// does not exist, or how many tasks were deleted.
#[verifier::loop_isolation(false)]
pub fn delete_task(tasks: &mut Vec<Task>, arguments: DeleteCommand) -> (r: &'static str)
    ensures
        ({
            let ids = normalize_ids(arguments.task_ids@);
            &&& apply_deletes(task_views(old(tasks)@), ids) matches Ok(tv) ==> ({
                &&& task_views(final(tasks)@) == tv
                &&& ids.len() > 1 ==> r@ == "Tasks deleted!"@
                &&& ids.len() <= 1 ==> r@ == "Task deleted!"@
            })
            &&& apply_deletes(task_views(old(tasks)@), ids) matches Err(tv) ==> task_views(
                final(tasks)@,
            ) == tv && r@ == "Task doesn't exist!"@
        }),
{
    let ghost orig_ids = arguments.task_ids@;
    let indexes = sort_and_filter_task_ids(arguments.task_ids);
    let ghost ids = normalize_ids(orig_ids);
    proof {
        assert(ids.take(ids.len() as int) =~= ids);
    }
    let mut i: usize = indexes.len();
    while i > 0
        invariant
            i <= indexes@.len(),
            indexes@ == ids,
            apply_deletes(task_views(old(tasks)@), ids) == apply_deletes(
                task_views(tasks@),
                ids.take(i as int),
            ),
        decreases i,
    {
        let index = task_id_to_index(indexes[i - 1]);
        proof {
            assert(ids.take(i as int).last() == ids[i - 1]);
            assert(ids.take(i as int).drop_last() =~= ids.take(i - 1));
        }
        let ghost pre = task_views(tasks@);
        match task_management::delete_task(tasks, index) {
            Ok(_) => {
                proof {
                    assert(task_views(tasks@) =~= pre.remove(index as int));
                }
            },
            Err(_) => {
                proof {
                    assert(apply_deletes(task_views(tasks@), ids.take(i as int))
                        == Err::<Seq<TaskView>, Seq<TaskView>>(task_views(tasks@)));
                }
                return "Task doesn't exist!";
            },
        }
        i = i - 1;
    }
    proof {
        assert(ids.take(0) =~= Seq::<usize>::empty());
    }
    if indexes.len() > 1 {
        return "Tasks deleted!";
    }
    "Task deleted!"
}

/// Sets the status of the tasks at the given 1-based ids, smallest id
/// first, stopping at the first failure.
#[verifier::loop_isolation(false)]
fn set_statuses(tasks: &mut Vec<Task>, task_ids: Vec<usize>, status: TaskStatus) -> (r: Result<
    usize,
    TaskManagementErrors,
>)
    ensures
        ({
            let ids = normalize_ids(task_ids@);
            &&& apply_status_updates(task_views(old(tasks)@), ids, status) matches Ok(tv) ==> ({
                &&& r matches Ok(n)
                &&& n == ids.len()
                &&& task_views(final(tasks)@) == tv
            })
            &&& apply_status_updates(task_views(old(tasks)@), ids, status) matches Err(p) ==> ({
                &&& r matches Err(e)
                &&& e == p.1
                &&& task_views(final(tasks)@) == p.0
            })
        }),
{
    let ghost orig_ids = task_ids@;
    let indexes = sort_and_filter_task_ids(task_ids);
    let ghost ids = normalize_ids(orig_ids);
    proof {
        assert(ids.skip(0) =~= ids);
    }
    let mut i: usize = 0;
    while i < indexes.len()
        invariant
            i <= indexes@.len(),
            indexes@ == ids,
            apply_status_updates(task_views(old(tasks)@), ids, status) == apply_status_updates(
                task_views(tasks@),
                ids.skip(i as int),
                status,
            ),
        decreases indexes@.len() - i,
    {
        let index = task_id_to_index(indexes[i]);
        proof {
            assert(ids.skip(i as int)[0] == ids[i as int]);
            assert(ids.skip(i as int).drop_first() =~= ids.skip(i + 1));
        }
        let ghost pre = task_views(tasks@);
        match task_management::update_task_status(tasks, index, status) {
            Ok(_) => {
                proof {
                    assert(task_views(tasks@) =~= set_status_at(pre, index as int, status));
                }
            },
            Err(err) => {
                proof {
                    assert(apply_status_updates(task_views(tasks@), ids.skip(i as int), status)
                        == Err::<Seq<TaskView>, (Seq<TaskView>, TaskManagementErrors)>(
                        (task_views(tasks@), err),
                    ));
                }
                return Err(err);
            },
        }
        i = i + 1;
    }
    proof {
        assert(ids.skip(ids.len() as int) =~= Seq::<usize>::empty());
    }
    Ok(indexes.len())
}

/// Starts the tasks at the given 1-based ids, and reports the outcome.
pub fn start_task(tasks: &mut Vec<Task>, arguments: StartCommand) -> (r: &'static str)
    ensures
        ({
            let ids = normalize_ids(arguments.task_ids@);
            let outcome = apply_status_updates(
                task_views(old(tasks)@),
                ids,
                TaskStatus::InProgress,
            );
            &&& outcome matches Ok(tv) ==> ({
                &&& task_views(final(tasks)@) == tv
                &&& ids.len() > 1 ==> r@ == "Tasks have been started!"@
                &&& ids.len() <= 1 ==> r@ == "Task has been started!"@
            })
            &&& outcome matches Err(p) ==> ({
                &&& task_views(final(tasks)@) == p.0
                &&& p.1 == TaskManagementErrors::TaskAlreadyGivenStatus ==> r@
                    == "Task is already in progress!"@
                &&& p.1 == TaskManagementErrors::TaskDoesntExist ==> r@ == "Task doesn't exist"@
                &&& p.1 == TaskManagementErrors::EmptyTasklist ==> r@ == "No tasks found!"@
            })
        }),
{
    match set_statuses(tasks, arguments.task_ids, TaskStatus::InProgress) {
        Ok(n) => {
            if n > 1 {
                "Tasks have been started!"
            } else {
                "Task has been started!"
            }
        },
        Err(err) => match err {
            TaskManagementErrors::TaskAlreadyGivenStatus => "Task is already in progress!",
            TaskManagementErrors::TaskDoesntExist => "Task doesn't exist",
            TaskManagementErrors::EmptyTasklist => "No tasks found!",
        },
    }
}

/// Completes the tasks at the given 1-based ids, and reports the outcome.
pub fn finish_task(tasks: &mut Vec<Task>, arguments: FinishCommand) -> (r: &'static str)
    ensures
        ({
            let ids = normalize_ids(arguments.task_ids@);
            let outcome = apply_status_updates(task_views(old(tasks)@), ids, TaskStatus::Completed);
            &&& outcome matches Ok(tv) ==> ({
                &&& task_views(final(tasks)@) == tv
                &&& ids.len() > 1 ==> r@ == "Tasks have been completed!"@
                &&& ids.len() <= 1 ==> r@ == "Task has been completed!"@
            })
            &&& outcome matches Err(p) ==> ({
                &&& task_views(final(tasks)@) == p.0
                &&& p.1 == TaskManagementErrors::TaskAlreadyGivenStatus ==> r@
                    == "Task is already completed"@
                &&& p.1 == TaskManagementErrors::TaskDoesntExist ==> r@ == "Task doesn't exist"@
                &&& p.1 == TaskManagementErrors::EmptyTasklist ==> r@ == "No tasks found!"@
            })
        }),
{
    match set_statuses(tasks, arguments.task_ids, TaskStatus::Completed) {
        Ok(n) => {
            if n > 1 {
                "Tasks have been completed!"
            } else {
                "Task has been completed!"
            }
        },
        Err(err) => match err {
            TaskManagementErrors::TaskAlreadyGivenStatus => "Task is already completed",
            TaskManagementErrors::TaskDoesntExist => "Task doesn't exist",
            TaskManagementErrors::EmptyTasklist => "No tasks found!",
        },
    }
}

/// Restarts the tasks at the given 1-based ids, and reports the outcome.
pub fn restart_task(tasks: &mut Vec<Task>, arguments: RestartCommand) -> (r: &'static str)
    ensures
        ({
            let ids = normalize_ids(arguments.task_ids@);
            let outcome = apply_status_updates(
                task_views(old(tasks)@),
                ids,
                TaskStatus::NotStarted,
            );
            &&& outcome matches Ok(tv) ==> ({
                &&& task_views(final(tasks)@) == tv
                &&& ids.len() > 1 ==> r@ == "Tasks have been restarted!"@
                &&& ids.len() <= 1 ==> r@ == "Task has been restarted!"@
            })
            &&& outcome matches Err(p) ==> ({
                &&& task_views(final(tasks)@) == p.0
                &&& p.1 == TaskManagementErrors::TaskAlreadyGivenStatus ==> r@
                    == "Task is already Not Started"@
                &&& p.1 == TaskManagementErrors::TaskDoesntExist ==> r@ == "Task doesn't exist"@
                &&& p.1 == TaskManagementErrors::EmptyTasklist ==> r@ == "No tasks found!"@
            })
        }),
{
    match set_statuses(tasks, arguments.task_ids, TaskStatus::NotStarted) {
        Ok(n) => {
            if n > 1 {
                "Tasks have been restarted!"
            } else {
                "Task has been restarted!"
            }
        },
        Err(err) => match err {
            TaskManagementErrors::TaskAlreadyGivenStatus => "Task is already Not Started",
            TaskManagementErrors::TaskDoesntExist => "Task doesn't exist",
            TaskManagementErrors::EmptyTasklist => "No tasks found!",
        },
    }
}

} // verus!
