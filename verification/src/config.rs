//! The user's configuration: the set of named task lists, the current list,
//! and the display-option flags.
use vstd::prelude::*;

use crate::text::{bool_seq, dec_rep, usize_to_string, bool_to_str, views_of};

verus! {

/// The default threshold for the smart task-id display option.
pub const DEFAULT_NUM_OF_TASKS: usize = 4;

/// Errors of the list-management operations.
#[derive(Clone, Copy, Debug, PartialEq, Eq, Structural)]
pub enum ListErrors {
    ListCannotBeDeleted,
    ListDoesntExist,
    ListAlreadyExists,
}

/// The user's configuration. The invariant [`Config::wf`] (at least one
/// list, unique list names, the current list a member) is established by
/// [`Config::new`] and preserved by every method.
#[derive(Debug, PartialEq, Eq)]
pub struct Config {
    always_show_list_names: bool,
    always_show_task_ids: bool,
    smart_task_ids: bool,
    num_of_tasks: usize,
    smart_list_names: bool,
    current_list: String,
    lists: Vec<String>,
}

/// The mathematical value of a [`Config`].
#[verifier::ext_equal]
pub ghost struct ConfigView {
    pub always_show_list_names: bool,
    pub always_show_task_ids: bool,
    pub smart_task_ids: bool,
    pub num_of_tasks: usize,
    pub smart_list_names: bool,
    pub current_list: Seq<char>,
    pub lists: Seq<Seq<char>>,
}

impl View for Config {
    type V = ConfigView;

    closed spec fn view(&self) -> ConfigView {
        ConfigView {
            always_show_list_names: self.always_show_list_names,
            always_show_task_ids: self.always_show_task_ids,
            smart_task_ids: self.smart_task_ids,
            num_of_tasks: self.num_of_tasks,
            smart_list_names: self.smart_list_names,
            current_list: self.current_list@,
            lists: views_of(self.lists@),
        }
    }
}

/// The rendering of the list names, one per line, the current list marked
/// with a check mark.
pub open spec fn lists_display(lists: Seq<Seq<char>>, current: Seq<char>) -> Seq<char>
    decreases lists.len(),
{
    if lists.len() == 0 {
        Seq::empty()
    } else {
        lists_display(lists.drop_last(), current) + lists_display_line(lists.last(), current)
    }
}

/// One line of the list rendering.
pub open spec fn lists_display_line(list: Seq<char>, current: Seq<char>) -> Seq<char> {
    if list == current {
        list + " ✔"@ + "\n"@
    } else {
        list + "\n"@
    }
}

/// The rendering of the option names and their values, one per line.
pub open spec fn options_display(c: ConfigView) -> Seq<char> {
    "always_show_task_ids     "@ + bool_seq(c.always_show_task_ids) + "\n"@
        + "smart_task_ids           "@ + bool_seq(c.smart_task_ids) + "\n"@
        + "num_of_tasks             "@ + dec_rep(c.num_of_tasks as nat) + "\n"@
        + "always_show_list_names   "@ + bool_seq(c.always_show_list_names) + "\n"@
        + "smart_list_names         "@ + bool_seq(c.smart_list_names) + "\n"@
}

impl Config {
    /// The invariant: at least one list, no duplicate list names, and the
    /// current list always one of the lists.
    pub open spec fn wf(&self) -> bool {
        &&& self@.lists.len() >= 1
        &&& self@.lists.contains(self@.current_list)
        &&& forall|i: int, j: int|
            0 <= i < j < self@.lists.len() ==> self@.lists[i] != self@.lists[j]
    }

    /// The view of a fresh configuration: one list, "Main", which is
    /// current; ids off, smart ids on; list names off, smart list names on.
    pub open spec fn default_view() -> ConfigView {
        ConfigView {
            always_show_list_names: false,
            always_show_task_ids: false,
            smart_task_ids: true,
            num_of_tasks: DEFAULT_NUM_OF_TASKS,
            smart_list_names: true,
            current_list: "Main"@,
            lists: seq!["Main"@],
        }
    }

    /// Creates a configuration with the single default list "Main".
    pub fn new() -> (c: Config)
        ensures
            c@ == Self::default_view(),
            c.wf(),
    {
        let mut lists: Vec<String> = Vec::new();
        lists.push(String::from_str("Main"));
        let c = Config {
            always_show_list_names: false,
            always_show_task_ids: false,
            smart_task_ids: true,
            num_of_tasks: DEFAULT_NUM_OF_TASKS,
            smart_list_names: true,
            current_list: String::from_str("Main"),
            lists,
        };
        proof {
            assert(c@.lists =~= seq!["Main"@]);
            assert(c@ =~= Self::default_view());
            assert(c@.lists[0] == c@.current_list);
        }
        c
    }

    /// Assembles a configuration from already-validated parts.
    pub(crate) fn from_parts(
        always_show_list_names: bool,
        always_show_task_ids: bool,
        smart_task_ids: bool,
        num_of_tasks: usize,
        smart_list_names: bool,
        current_list: String,
        lists: Vec<String>,
    ) -> (c: Config)
        requires
            views_of(lists@).len() >= 1,
            views_of(lists@).contains(current_list@),
            forall|i: int, j: int|
                0 <= i < j < views_of(lists@).len() ==> views_of(lists@)[i] != views_of(
                    lists@,
                )[j],
        ensures
            c@ == (ConfigView {
                always_show_list_names,
                always_show_task_ids,
                smart_task_ids,
                num_of_tasks,
                smart_list_names,
                current_list: current_list@,
                lists: views_of(lists@),
            }),
            c.wf(),
    {
        Config {
            always_show_list_names,
            always_show_task_ids,
            smart_task_ids,
            num_of_tasks,
            smart_list_names,
            current_list,
            lists,
        }
    }

    /// Returns a copy of the list names, in display order.
    pub fn lists_iter(&self) -> (r: Vec<String>)
        ensures
            views_of(r@) == self@.lists,
    {
        let mut r: Vec<String> = Vec::new();
        let mut i: usize = 0;
        while i < self.lists.len()
            invariant
                i <= self.lists.len(),
                r@.len() == i,
                forall|k: int| 0 <= k < i ==> (#[trigger] r@[k])@ == self.lists@[k]@,
            decreases self.lists.len() - i,
        {
            r.push(self.lists[i].clone());
            i = i + 1;
        }
        proof {
            assert(views_of(r@) =~= self@.lists);
        }
        r
    }

    /// The number of lists.
    pub fn lists_len(&self) -> (r: usize)
        ensures
            r == self@.lists.len(),
    {
        self.lists.len()
    }

    /// Returns a copy of the current list's name.
    pub fn current_list(&self) -> (r: String)
        ensures
            r@ == self@.current_list,
    {
        self.current_list.clone()
    }

    /// Whether task ids are always shown.
    pub fn always_show_task_ids(&self) -> (r: bool)
        ensures
            r == self@.always_show_task_ids,
    {
        self.always_show_task_ids
    }

    /// Sets whether task ids are always shown.
    pub fn set_always_show_task_ids(&mut self, value: bool)
        ensures
            final(self)@ == (ConfigView { always_show_task_ids: value, ..old(self)@ }),
            old(self).wf() ==> final(self).wf(),
    {
        self.always_show_task_ids = value;
    }

    /// Whether list names are always shown.
    pub fn always_show_list_names(&self) -> (r: bool)
        ensures
            r == self@.always_show_list_names,
    {
        self.always_show_list_names
    }

    /// Sets whether list names are always shown.
    pub fn set_always_show_list_names(&mut self, value: bool)
        ensures
            final(self)@ == (ConfigView { always_show_list_names: value, ..old(self)@ }),
            old(self).wf() ==> final(self).wf(),
    {
        self.always_show_list_names = value;
    }

    /// Whether list names are shown once there is more than one list.
    pub fn smart_list_names(&self) -> (r: bool)
        ensures
            r == self@.smart_list_names,
    {
        self.smart_list_names
    }

    /// Sets the smart list-name option.
    pub fn set_smart_list_names(&mut self, value: bool)
        ensures
            final(self)@ == (ConfigView { smart_list_names: value, ..old(self)@ }),
            old(self).wf() ==> final(self).wf(),
    {
        self.smart_list_names = value;
    }

    /// Whether task ids are shown once the list is long enough.
    pub fn smart_task_ids(&self) -> (r: bool)
        ensures
            r == self@.smart_task_ids,
    {
        self.smart_task_ids
    }

    /// Sets the smart task-id option.
    pub fn set_smart_task_ids(&mut self, value: bool)
        ensures
            final(self)@ == (ConfigView { smart_task_ids: value, ..old(self)@ }),
            old(self).wf() ==> final(self).wf(),
    {
        self.smart_task_ids = value;
    }

    /// The threshold of the smart task-id option.
    pub fn num_of_tasks(&self) -> (r: usize)
        ensures
            r == self@.num_of_tasks,
    {
        self.num_of_tasks
    }

    /// Sets the threshold of the smart task-id option.
    pub fn set_num_of_tasks(&mut self, value: usize)
        ensures
            final(self)@ == (ConfigView { num_of_tasks: value, ..old(self)@ }),
            old(self).wf() ==> final(self).wf(),
    {
        self.num_of_tasks = value;
    }

    /// The position of the first list with the given name, if any.
    fn position_of(lists: &Vec<String>, list: &String) -> (r: Option<usize>)
        ensures
            r matches Some(p) ==> p < lists@.len() && views_of(lists@)[p as int] == list@,
            r is None ==> !views_of(lists@).contains(list@),
    {
        let mut i: usize = 0;
        while i < lists.len()
            invariant
                i <= lists.len(),
                forall|k: int| 0 <= k < i ==> views_of(lists@)[k] != list@,
            decreases lists.len() - i,
        {
            if lists[i] == *list {
                proof {
                    assert(views_of(lists@)[i as int] == list@);
                }
                return Some(i);
            }
            i = i + 1;
        }
        proof {
            if views_of(lists@).contains(list@) {
                let k = choose|k: int|
                    0 <= k < views_of(lists@).len() && views_of(lists@)[k] == list@;
                assert(views_of(lists@)[k] != list@);
            }
        }
        None
    }

    /// True when a list with the given name exists.
    pub fn is_valid_list(&self, list: &String) -> (r: bool)
        ensures
            r == self@.lists.contains(list@),
    {
        let r = Self::position_of(&self.lists, list);
        proof {
            if r is Some {
                assert(self@.lists.contains(list@));
            }
        }
        r.is_some()
    }

    /// Makes the given list current; fails when no list of that name exists,
    /// leaving the configuration unchanged.
    pub fn set_current_list(&mut self, list: String) -> (r: Result<(), ListErrors>)
        ensures
            !old(self)@.lists.contains(list@) ==> r == Err::<(), ListErrors>(
                ListErrors::ListDoesntExist,
            ) && *final(self) == *old(self),
            old(self)@.lists.contains(list@) ==> r == Ok::<(), ListErrors>(()) && final(self)@ == (
            ConfigView { current_list: list@, ..old(self)@ }),
            old(self).wf() ==> final(self).wf(),
    {
        if !self.is_valid_list(&list) {
            return Err(ListErrors::ListDoesntExist);
        }
        self.current_list = list;
        Ok(())
    }

    /// Appends a new list; fails when a list of that name already exists,
    /// leaving the configuration unchanged. Insertion order is display
    /// order.
    pub fn add_list(&mut self, list: String) -> (r: Result<(), ListErrors>)
        ensures
            old(self)@.lists.contains(list@) ==> r == Err::<(), ListErrors>(
                ListErrors::ListAlreadyExists,
            ) && *final(self) == *old(self),
            !old(self)@.lists.contains(list@) ==> r == Ok::<(), ListErrors>(()) && final(self)@ == (
            ConfigView { lists: old(self)@.lists.push(list@), ..old(self)@ }),
            old(self).wf() ==> final(self).wf(),
    {
        if self.is_valid_list(&list) {
            return Err(ListErrors::ListAlreadyExists);
        }
        let ghost pre = self@.lists;
        self.lists.push(list);
        proof {
            assert(self@.lists =~= pre.push(list@));
            if old(self).wf() {
                assert(self@.lists.contains(self@.current_list)) by {
                    let k = choose|k: int| 0 <= k < pre.len() && pre[k] == old(self)@.current_list;
                    assert(self@.lists[k] == old(self)@.current_list);
                }
                assert(forall|i: int, j: int|
                    0 <= i < j < self@.lists.len() ==> self@.lists[i] != self@.lists[j]) by {
                    assert(forall|i: int|
                        0 <= i < pre.len() ==> pre[i] == self@.lists[i] && (#[trigger] self@.lists[i]) == pre[i]);
                    assert(forall|i: int|
                        0 <= i < pre.len() ==> (#[trigger] pre[i]) != list@) by {
                        if exists|i: int| 0 <= i < pre.len() && pre[i] == list@ {
                            assert(pre.contains(list@));
                        }
                    }
                }
            }
        }
        Ok(())
    }

    /// Deletes the given list. Fails when no list of that name exists, or
    /// when it is the sole remaining list — exactly when there is only one
    /// list; in both cases the configuration is unchanged. When the deleted
    /// list was current, the first remaining list becomes current.
    pub fn delete_list(&mut self, list: String) -> (r: Result<(), ListErrors>)
        requires
            old(self).wf(),
        ensures
            !old(self)@.lists.contains(list@) ==> r == Err::<(), ListErrors>(
                ListErrors::ListDoesntExist,
            ) && *final(self) == *old(self),
            old(self)@.lists.contains(list@) && old(self)@.lists.len() == 1 ==> r == Err::<(),
                ListErrors,
            >(ListErrors::ListCannotBeDeleted) && *final(self) == *old(self),
            old(self)@.lists.contains(list@) && old(self)@.lists.len() > 1 ==> ({
                let pos = old(self)@.lists.index_of(list@);
                &&& r == Ok::<(), ListErrors>(())
                &&& final(self)@ == (ConfigView {
                    lists: old(self)@.lists.remove(pos),
                    current_list: if old(self)@.current_list == list@ {
                        old(self)@.lists.remove(pos)[0]
                    } else {
                        old(self)@.current_list
                    },
                    ..old(self)@
                })
            }),
            final(self).wf(),
    {
        let pos = match Self::position_of(&self.lists, &list) {
            Some(p) => p,
            None => {
                return Err(ListErrors::ListDoesntExist);
            },
        };
        proof {
            assert(self@.lists.contains(list@));
        }
        if self.lists.len() == 1 {
            return Err(ListErrors::ListCannotBeDeleted);
        }
        let ghost pre = self@.lists;
        proof {
            assert(pre.index_of(list@) == pos as int) by {
                let q = pre.index_of(list@);
                assert(pre.contains(list@));
                assert(0 <= q < pre.len() && pre[q] == list@);
                assert(pre[pos as int] == list@);
                if q != pos as int {
                    if q < pos as int {
                        assert(pre[q] != pre[pos as int]);
                    } else {
                        assert(pre[pos as int] != pre[q]);
                    }
                }
            }
        }
        let was_current = self.current_list == list;
        self.lists.remove(pos);
        proof {
            assert(self@.lists =~= pre.remove(pos as int));
            assert(forall|i: int, j: int|
                0 <= i < j < self@.lists.len() ==> self@.lists[i] != self@.lists[j]) by {
                assert(forall|i: int|
                    0 <= i < self@.lists.len() ==> (#[trigger] self@.lists[i]) == if i < pos as int {
                        pre[i]
                    } else {
                        pre[i + 1]
                    });
            }
        }
        if was_current {
            self.current_list = self.lists[0].clone();
            proof {
                assert(self@.lists.contains(self@.current_list)) by {
                    assert(self@.lists[0] == self@.current_list);
                }
            }
        } else {
            proof {
                let cur = old(self)@.current_list;
                let k = choose|k: int| 0 <= k < pre.len() && pre[k] == cur;
                assert(pre[pos as int] == list@);
                assert(k != pos as int);
                if k < pos as int {
                    assert(self@.lists[k] == cur);
                } else {
                    assert(self@.lists[k - 1] == cur);
                }
                assert(self@.lists.contains(cur));
            }
        }
        Ok(())
    }

    /// Renders the list names, one per line, the current list marked with a
    /// check mark.
    pub fn lists_to_string(&self) -> (r: String)
        ensures
            r@ == lists_display(self@.lists, self@.current_list),
    {
        let mut out = String::new();
        let mut i: usize = 0;
        proof {
            assert(self@.lists.take(0) =~= Seq::<Seq<char>>::empty());
        }
        while i < self.lists.len()
            invariant
                i <= self.lists.len(),
                out@ == lists_display(self@.lists.take(i as int), self@.current_list),
            decreases self.lists.len() - i,
        {
            out.append(self.lists[i].as_str());
            if self.lists[i] == self.current_list {
                out.append(" ✔");
            }
            out.append("\n");
            proof {
                assert(self@.lists.take(i + 1).drop_last() =~= self@.lists.take(i as int));
                assert(self@.lists.take(i + 1).last() == self@.lists[i as int]);
                assert(out@ =~= lists_display(self@.lists.take(i + 1), self@.current_list));
            }
            i = i + 1;
        }
        proof {
            assert(self@.lists.take(self.lists@.len() as int) =~= self@.lists);
        }
        out
    }

    /// Renders the option names and their current values, one per line.
    pub fn config_options_to_string(&self) -> (r: String)
        ensures
            r@ == options_display(self@),
    {
        let mut out = String::new();
        out.append("always_show_task_ids     ");
        out.append(bool_to_str(self.always_show_task_ids));
        out.append("\n");
        out.append("smart_task_ids           ");
        out.append(bool_to_str(self.smart_task_ids));
        out.append("\n");
        out.append("num_of_tasks             ");
        let num = usize_to_string(self.num_of_tasks);
        out.append(num.as_str());
        out.append("\n");
        out.append("always_show_list_names   ");
        out.append(bool_to_str(self.always_show_list_names));
        out.append("\n");
        out.append("smart_list_names         ");
        out.append(bool_to_str(self.smart_list_names));
        out.append("\n");
        proof {
            assert(out@ =~= options_display(self@));
        }
        out
    }
}

impl Default for Config {
    /// The default configuration is a fresh one.
    fn default() -> (c: Self)
        ensures
            c@ == Config::default_view(),
            c.wf(),
    {
        Config::new()
    }
}

} // verus!
