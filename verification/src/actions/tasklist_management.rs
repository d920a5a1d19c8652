//! Task-list operations of the single-file store layout: partitioning the
//! tasks by list, and creating or renaming lists.
use vstd::prelude::*;

use crate::task::{Task, TaskView};
use crate::task_management::{
    lemma_filters_empty, lemma_list_filters_push, tasks_in_list, tasks_not_in_list,
};
use crate::text::{contains_char, contains_name, views_of};
use crate::user_config::{UserConfig, UserConfigView};

verus! {

/// The list names other than `name`, in order.
pub open spec fn names_without(names: Seq<Seq<char>>, name: Seq<char>) -> Seq<Seq<char>> {
    names.filter(|x: Seq<char>| x != name)
}

/// Extending the names by one extends the retained names exactly when it
/// differs from the dropped one.
proof fn lemma_names_without_push(names: Seq<Seq<char>>, x: Seq<char>, name: Seq<char>)
    ensures
        names_without(names.push(x), name) == if x != name {
            names_without(names, name).push(x)
        } else {
            names_without(names, name)
        },
{
    reveal(Seq::filter);
    assert(names.push(x).drop_last() =~= names);
    assert(names.push(x).last() == x);
}

/// Of no names, none are retained.
proof fn lemma_names_without_empty(name: Seq<char>)
    ensures
        names_without(Seq::<Seq<char>>::empty(), name) == Seq::<Seq<char>>::empty(),
{
    reveal(Seq::filter);
}

/// Partitions the tasks into those of the given list and the rest, each
/// part keeping its input order.
pub fn filter_list(current_list: String, tasks: Vec<Task>) -> (r: (Vec<Task>, Vec<Task>))
    ensures
        r.0@ == tasks_in_list(tasks@, current_list@),
        r.1@ == tasks_not_in_list(tasks@, current_list@),
{
    let mut tagged_tasks: Vec<Task> = Vec::new();
    let mut other_tasks: Vec<Task> = Vec::new();
    proof {
        assert(tasks@.take(0) =~= Seq::<Task>::empty());
        lemma_filters_empty(current_list@);
    }
    let mut i: usize = 0;
    while i < tasks.len()
        invariant
            i <= tasks.len(),
            tagged_tasks@ == tasks_in_list(tasks@.take(i as int), current_list@),
            other_tasks@ == tasks_not_in_list(tasks@.take(i as int), current_list@),
        decreases tasks.len() - i,
    {
        let t = tasks[i].clone();
        proof {
            let pre = tasks@.take(i as int);
            let x = tasks@[i as int];
            assert(pre.push(x) =~= tasks@.take(i + 1));
            lemma_list_filters_push(pre, x, current_list@);
        }
        let t_list = t.list();
        if t_list == current_list {
            tagged_tasks.push(t);
        } else {
            other_tasks.push(t);
        }
        i = i + 1;
    }
    proof {
        assert(tasks@.take(tasks@.len() as int) =~= tasks@);
    }
    (tagged_tasks, other_tasks)
}

/// Adds a task list. Fails on an empty name, a name holding the field
/// delimiter, or a name already taken; in each case the settings are
/// unchanged.
pub fn add_tasklist(users_config: &mut UserConfig, new_tasklist: String) -> (r: Result<
    String,
    &'static str,
>)
    ensures
        new_tasklist@.len() == 0 ==> ({
            &&& r matches Err(e)
            &&& e@ == "No tasklist name supplied!"@
            &&& final(users_config)@ == old(users_config)@
        }),
        new_tasklist@.len() > 0 && new_tasklist@.contains('|') ==> ({
            &&& r matches Err(e)
            &&& e@ == "Tasklist names cannot contain the | character"@
            &&& final(users_config)@ == old(users_config)@
        }),
        new_tasklist@.len() > 0 && !new_tasklist@.contains('|') && old(
            users_config,
        )@.tasklists.contains(new_tasklist@) ==> ({
            &&& r matches Err(e)
            &&& e@ == "A Tasklist with that name already exists!"@
            &&& final(users_config)@ == old(users_config)@
        }),
        new_tasklist@.len() > 0 && !new_tasklist@.contains('|') && !old(
            users_config,
        )@.tasklists.contains(new_tasklist@) ==> ({
            &&& r matches Ok(s)
            &&& s@ == "Tasklist "@ + new_tasklist@ + " Added!"@
            &&& final(users_config)@ == (UserConfigView {
                tasklists: old(users_config)@.tasklists.push(new_tasklist@),
                ..old(users_config)@
            })
        }),
{
    if new_tasklist.as_str().is_empty() {
        return Err("No tasklist name supplied!");
    }
    if contains_char(new_tasklist.as_str(), '|') {
        return Err("Tasklist names cannot contain the | character");
    }
    if contains_name(&users_config.tasklists, &new_tasklist) {
        return Err("A Tasklist with that name already exists!");
    }
    let mut message = String::new();
    message.append("Tasklist ");
    message.append(new_tasklist.as_str());
    message.append(" Added!");
    let ghost pre = views_of(users_config.tasklists@);
    users_config.tasklists.push(new_tasklist);
    proof {
        assert(views_of(users_config.tasklists@) =~= pre.push(new_tasklist@));
    }
    Ok(message)
}

/// Renames the current list: the old name leaves the settings, the new
/// name is appended and becomes current, and every given task is
/// relabelled. Fails on an empty name, a name holding the field delimiter,
/// or a name already taken; in each case nothing changes.
pub fn update_tasklist_name(
    users_config: &mut UserConfig,
    tasks: &mut Vec<Task>,
    new_name: String,
) -> (r: Result<&'static str, &'static str>)
    ensures
        new_name@.len() == 0 ==> ({
            &&& r matches Err(e)
            &&& e@ == "No tasklist name supplied!"@
            &&& final(users_config)@ == old(users_config)@
            &&& final(tasks)@ == old(tasks)@
        }),
        new_name@.len() > 0 && new_name@.contains('|') ==> ({
            &&& r matches Err(e)
            &&& e@ == "Tasklist names cannot contain the | character"@
            &&& final(users_config)@ == old(users_config)@
            &&& final(tasks)@ == old(tasks)@
        }),
        new_name@.len() > 0 && !new_name@.contains('|') && old(users_config)@.tasklists.contains(
            new_name@,
        ) ==> ({
            &&& r matches Err(e)
            &&& e@ == "A Tasklist with that name already exists!"@
            &&& final(users_config)@ == old(users_config)@
            &&& final(tasks)@ == old(tasks)@
        }),
        new_name@.len() > 0 && !new_name@.contains('|') && !old(users_config)@.tasklists.contains(
            new_name@,
        ) ==> ({
            &&& r matches Ok(s)
            &&& s@ == "Tasklist name updated!"@
            &&& final(users_config)@ == (UserConfigView {
                tasklists: names_without(
                    old(users_config)@.tasklists,
                    old(users_config)@.current_list,
                ).push(new_name@),
                current_list: new_name@,
                ..old(users_config)@
            })
            &&& final(tasks)@.len() == old(tasks)@.len()
            &&& forall|k: int|
                0 <= k < old(tasks)@.len() ==> (#[trigger] final(tasks)@[k])@ == (TaskView {
                    list: new_name@,
                    ..old(tasks)@[k]@
                })
        }),
{
    if new_name.as_str().is_empty() {
        return Err("No tasklist name supplied!");
    }
    if contains_char(new_name.as_str(), '|') {
        return Err("Tasklist names cannot contain the | character");
    }
    if contains_name(&users_config.tasklists, &new_name) {
        return Err("A Tasklist with that name already exists!");
    }
    let ghost pre = views_of(users_config.tasklists@);
    let ghost cur = users_config.current_list@;
    let mut kept: Vec<String> = Vec::new();
    proof {
        assert(pre.take(0) =~= Seq::<Seq<char>>::empty());
        lemma_names_without_empty(cur);
    }
    let mut i: usize = 0;
    while i < users_config.tasklists.len()
        invariant
            i <= users_config.tasklists@.len(),
            pre == views_of(users_config.tasklists@),
            cur == users_config.current_list@,
            views_of(kept@) == names_without(pre.take(i as int), cur),
        decreases users_config.tasklists@.len() - i,
    {
        proof {
            assert(pre.take(i as int).push(pre[i as int]) =~= pre.take(i + 1));
            lemma_names_without_push(pre.take(i as int), pre[i as int], cur);
            assert(users_config.tasklists@[i as int]@ == pre[i as int]);
        }
        if !(users_config.tasklists[i] == users_config.current_list) {
            kept.push(users_config.tasklists[i].clone());
            proof {
                assert(views_of(kept@) =~= names_without(pre.take(i as int), cur).push(
                    pre[i as int],
                ));
            }
        }
        i = i + 1;
    }
    proof {
        assert(pre.take(users_config.tasklists@.len() as int) =~= pre);
    }
    kept.push(new_name.clone());
    users_config.tasklists = kept;
    users_config.current_list = new_name.clone();
    proof {
        assert(views_of(users_config.tasklists@) =~= names_without(pre, cur).push(new_name@));
    }
    let mut j: usize = 0;
    while j < tasks.len()
        invariant
            j <= tasks.len(),
            new_name@.len() > 0,
            tasks@.len() == old(tasks)@.len(),
            forall|k: int|
                0 <= k < j ==> (#[trigger] tasks@[k])@ == (TaskView {
                    list: new_name@,
                    ..old(tasks)@[k]@
                }),
            forall|k: int| j <= k < tasks@.len() ==> tasks@[k] == old(tasks)@[k],
        decreases tasks.len() - j,
    {
        let mut t = tasks.remove(j);
        t.set_list(new_name.clone());
        tasks.insert(j, t);
        j = j + 1;
    }
    Ok("Tasklist name updated!")
}

} // verus!
