//! The persistence codec. The configuration and the tasks are each rendered
//! to one artifact: line-oriented text whose records are `|`-separated
//! fields. Decoding reconstructs the state exactly; a record that fails to
//! decode is reported, never silently dropped.
use vstd::prelude::*;

use crate::config::{Config, ConfigView};
use crate::task::{
    lemma_status_tokens, parse_status, parse_status_seq, status_seq, status_to_string, task_views,
    Task, TaskView,
};
use crate::text::{
    all_digits, bool_seq, bool_to_str, contains_name, dec_rep, dec_val, join_seq, join_with,
    lemma_bool_round_trip, lemma_bool_token_free, lemma_dec_rep_val, lemma_digits_sep_free,
    lemma_join_free, lemma_join_len, lemma_split_join, names_unique, parse_bool, parse_bool_seq,
    parse_usize, sep_free, split_on, split_seq, unique_names, usize_to_string, views_of,
};

verus! {

/// Errors of the writing half of persistence, distinguished by stage: the
/// destination could not be opened or created, a record could not be
/// encoded, or the result could not be flushed.
#[derive(Clone, Copy, Debug, PartialEq, Eq, Structural)]
pub enum SerializationErrors {
    FailedToCreateWriter,
    FailedToSerialize,
    FailedToFlush,
}

/// Errors of the reading half of persistence: the store is absent (a
/// recoverable condition — the caller may offer to initialize), or a record
/// failed to decode (not recoverable).
#[derive(Clone, Copy, Debug, PartialEq, Eq, Structural)]
pub enum DeserializationErrors {
    FailedToCreateReader,
    FailedToDeserializeTask,
}

/// A free-text field that may be stored: non-empty and free of both the
/// field delimiter and the line delimiter.
pub open spec fn valid_field(s: Seq<char>) -> bool {
    s.len() > 0 && !s.contains('|') && !s.contains('\n')
}

/// A task that may be stored.
pub open spec fn valid_task(t: TaskView) -> bool {
    valid_field(t.description) && valid_field(t.list)
}

/// A list name that may be stored: free of both delimiters.
pub open spec fn valid_name(s: Seq<char>) -> bool {
    !s.contains('|') && !s.contains('\n')
}

/// A configuration that may be stored: well-formed, with delimiter-free
/// list names.
pub open spec fn valid_config(c: ConfigView) -> bool {
    &&& c.lists.len() >= 1
    &&& c.lists.contains(c.current_list)
    &&& unique_names(c.lists)
    &&& forall|i: int| 0 <= i < c.lists.len() ==> valid_name(#[trigger] c.lists[i])
}

// ---- the encoding, at the specification level ----------------------------

/// The record of one task: `description|status|list`.
pub open spec fn task_line(t: TaskView) -> Seq<char> {
    join_seq(seq![t.description, status_seq(t.status), t.list], '|')
}

/// The tasks artifact: one record per line.
pub open spec fn tasks_text(ts: Seq<TaskView>) -> Seq<char> {
    join_seq(Seq::new(ts.len(), |i: int| task_line(ts[i])), '\n')
}

/// The first line of the configuration artifact: the five option fields and
/// the current list.
pub open spec fn config_options_line(c: ConfigView) -> Seq<char> {
    join_seq(
        seq![
            bool_seq(c.always_show_list_names),
            bool_seq(c.always_show_task_ids),
            bool_seq(c.smart_task_ids),
            dec_rep(c.num_of_tasks as nat),
            bool_seq(c.smart_list_names),
            c.current_list,
        ],
        '|',
    )
}

/// The configuration artifact: the options line, then the list names on one
/// line.
pub open spec fn config_text(c: ConfigView) -> Seq<char> {
    join_seq(seq![config_options_line(c), join_seq(c.lists, '|')], '\n')
}

// ---- the decoding, at the specification level ----------------------------

/// What decoding one task record yields.
pub open spec fn parse_task_line(line: Seq<char>) -> Option<TaskView> {
    let fields = split_seq(line, '|');
    if fields.len() != 3 {
        None
    } else if fields[0].len() == 0 || fields[2].len() == 0 {
        None
    } else {
        match parse_status_seq(fields[1]) {
            Some(status) => Some(TaskView { description: fields[0], status, list: fields[2] }),
            None => None,
        }
    }
}

/// What decoding a sequence of task records yields: all of them, or the
/// first failure.
pub open spec fn parse_task_lines(lines: Seq<Seq<char>>) -> Option<Seq<TaskView>>
    decreases lines.len(),
{
    if lines.len() == 0 {
        Some(Seq::empty())
    } else {
        match parse_task_lines(lines.drop_last()) {
            Some(ts) => match parse_task_line(lines.last()) {
                Some(t) => Some(ts.push(t)),
                None => None,
            },
            None => None,
        }
    }
}

/// What decoding the tasks artifact yields; the empty artifact holds no
/// tasks.
pub open spec fn parse_tasks_text(text: Seq<char>) -> Option<Seq<TaskView>> {
    if text.len() == 0 {
        Some(Seq::empty())
    } else {
        parse_task_lines(split_seq(text, '\n'))
    }
}

/// What decoding the configuration artifact yields. Every malformed field
/// is a failure: an unknown boolean token, a non-numeric threshold, a
/// current list that is not one of the lists, or a duplicated list name.
pub open spec fn parse_config_text(text: Seq<char>) -> Option<ConfigView> {
    let lines = split_seq(text, '\n');
    if lines.len() != 2 {
        None
    } else {
        let fields = split_seq(lines[0], '|');
        let lists = split_seq(lines[1], '|');
        if fields.len() != 6 {
            None
        } else if parse_bool_seq(fields[0]) is None {
            None
        } else if parse_bool_seq(fields[1]) is None {
            None
        } else if parse_bool_seq(fields[2]) is None {
            None
        } else if !(fields[3].len() >= 1 && all_digits(fields[3]) && dec_val(fields[3])
            <= usize::MAX) {
            None
        } else if parse_bool_seq(fields[4]) is None {
            None
        } else if !lists.contains(fields[5]) {
            None
        } else if !unique_names(lists) {
            None
        } else {
            Some(
                ConfigView {
                    always_show_list_names: parse_bool_seq(fields[0]).unwrap(),
                    always_show_task_ids: parse_bool_seq(fields[1]).unwrap(),
                    smart_task_ids: parse_bool_seq(fields[2]).unwrap(),
                    num_of_tasks: dec_val(fields[3]) as usize,
                    smart_list_names: parse_bool_seq(fields[4]).unwrap(),
                    current_list: fields[5],
                    lists,
                },
            )
        }
    }
}

/// One bad record fails the whole decode.
pub proof fn lemma_parse_lines_bad(lines: Seq<Seq<char>>, j: int)
    requires
        0 <= j < lines.len(),
        parse_task_line(lines[j]) is None,
    ensures
        parse_task_lines(lines) is None,
    decreases lines.len(),
{
    if j == lines.len() - 1 {
        assert(lines.last() == lines[j]);
    } else {
        assert(lines.drop_last()[j] == lines[j]);
        lemma_parse_lines_bad(lines.drop_last(), j);
    }
}

// ---- the executable codec -------------------------------------------------

/// True when the string is non-empty and free of both delimiters.
fn valid_field_exec(s: &str) -> (r: bool)
    ensures
        r == valid_field(s@),
{
    !s.is_empty() && !crate::text::contains_char(s, '|') && !crate::text::contains_char(s, '\n')
}

/// True when the string is free of both delimiters.
fn valid_name_exec(s: &str) -> (r: bool)
    ensures
        r == valid_name(s@),
{
    !crate::text::contains_char(s, '|') && !crate::text::contains_char(s, '\n')
}

/// Renders the tasks artifact: one `description|status|list` record per
/// line. A task whose description or list holds a delimiter cannot be
/// encoded as a record, and the whole write is refused rather than writing
/// an artifact that would not read back as the same state.
pub fn encode_tasks(tasks: &Vec<Task>) -> (r: Result<String, SerializationErrors>)
    ensures
        (forall|k: int| 0 <= k < tasks@.len() ==> valid_task((#[trigger] tasks@[k])@)) ==> ({
            &&& r matches Ok(s)
            &&& s@ == tasks_text(task_views(tasks@))
        }),
        !(forall|k: int| 0 <= k < tasks@.len() ==> valid_task((#[trigger] tasks@[k])@)) ==> r
            == Err::<String, SerializationErrors>(SerializationErrors::FailedToSerialize),
{
    let mut lines: Vec<String> = Vec::new();
    let mut i: usize = 0;
    while i < tasks.len()
        invariant
            i <= tasks.len(),
            lines@.len() == i,
            forall|k: int| 0 <= k < i ==> valid_task((#[trigger] tasks@[k])@),
            forall|k: int| 0 <= k < i ==> (#[trigger] lines@[k])@ == task_line(tasks@[k]@),
        decreases tasks.len() - i,
    {
        let description = tasks[i].description();
        let list = tasks[i].list();
        if !valid_field_exec(description.as_str()) || !valid_field_exec(list.as_str()) {
            proof {
                assert(!valid_task(tasks@[i as int]@));
            }
            return Err(SerializationErrors::FailedToSerialize);
        }
        let mut fields: Vec<String> = Vec::new();
        fields.push(description);
        fields.push(status_to_string(tasks[i].status()).to_owned());
        fields.push(list);
        proof {
            reveal_strlit("|");
            assert(views_of(fields@) =~= seq![
                tasks@[i as int]@.description,
                status_seq(tasks@[i as int]@.status),
                tasks@[i as int]@.list,
            ]);
        }
        let line = join_with(&fields, "|");
        lines.push(line);
        i = i + 1;
    }
    proof {
        reveal_strlit("\n");
    }
    let r = join_with(&lines, "\n");
    proof {
        assert(views_of(lines@) =~= Seq::new(
            task_views(tasks@).len(),
            |i: int| task_line(task_views(tasks@)[i]),
        ));
    }
    Ok(r)
}

/// Decodes the tasks artifact; a record that fails to decode aborts the
/// whole read.
pub fn decode_tasks(text: &str) -> (r: Result<Vec<Task>, DeserializationErrors>)
    ensures
        parse_tasks_text(text@) matches Some(ts) ==> ({
            &&& r matches Ok(v)
            &&& task_views(v@) == ts
            &&& forall|k: int| 0 <= k < v@.len() ==> (#[trigger] v@[k]).wf()
        }),
        parse_tasks_text(text@) is None ==> r == Err::<Vec<Task>, DeserializationErrors>(
            DeserializationErrors::FailedToDeserializeTask,
        ),
{
    let mut out: Vec<Task> = Vec::new();
    if text.unicode_len() == 0 {
        proof {
            assert(task_views(out@) =~= Seq::<TaskView>::empty());
        }
        return Ok(out);
    }
    let lines = split_on(text, '\n');
    let ghost lv = views_of(lines@);
    proof {
        assert(lv.take(0) =~= Seq::<Seq<char>>::empty());
        assert(task_views(out@) =~= Seq::<TaskView>::empty());
    }
    let mut i: usize = 0;
    while i < lines.len()
        invariant
            i <= lines.len(),
            lv == views_of(lines@),
            lv == split_seq(text@, '\n'),
            text@.len() > 0,
            parse_task_lines(lv.take(i as int)) == Some(task_views(out@)),
            forall|k: int| 0 <= k < out@.len() ==> (#[trigger] out@[k]).wf(),
        decreases lines.len() - i,
    {
        proof {
            assert(lines@[i as int]@ == lv[i as int]);
            assert(lv.take(i + 1).drop_last() =~= lv.take(i as int));
            assert(lv.take(i + 1).last() == lv[i as int]);
        }
        let mut fields = split_on(lines[i].as_str(), '|');
        let ghost fv = views_of(fields@);
        if fields.len() != 3 {
            proof {
                lemma_parse_lines_bad(lv, i as int);
            }
            return Err(DeserializationErrors::FailedToDeserializeTask);
        }
        let desc = fields.remove(0);
        let status_field = fields.remove(0);
        let list = fields.remove(0);
        proof {
            assert(desc@ == fv[0]);
            assert(status_field@ == fv[1]);
            assert(list@ == fv[2]);
        }
        let status = match parse_status(status_field.as_str()) {
            Some(st) => st,
            None => {
                proof {
                    lemma_parse_lines_bad(lv, i as int);
                }
                return Err(DeserializationErrors::FailedToDeserializeTask);
            },
        };
        let task = match Task::new(desc, status, list) {
            Ok(t) => t,
            Err(_) => {
                proof {
                    lemma_parse_lines_bad(lv, i as int);
                }
                return Err(DeserializationErrors::FailedToDeserializeTask);
            },
        };
        let ghost prev = task_views(out@);
        out.push(task);
        proof {
            assert(parse_task_line(lv[i as int]) == Some(task@)) by {
                assert(task@ =~= TaskView { description: fv[0], status, list: fv[2] });
            }
            assert(task_views(out@) =~= prev.push(task@));
        }
        i = i + 1;
    }
    proof {
        assert(lv.take(lines@.len() as int) =~= lv);
    }
    Ok(out)
}

/// Renders the configuration artifact: the options line, then the list
/// names. A configuration that is not storable — broken invariants after a
/// corrupt load, or a list name holding a delimiter — is refused rather
/// than written in a form that would not read back as the same state.
pub fn encode_config(config: &Config) -> (r: Result<String, SerializationErrors>)
    ensures
        valid_config(config@) ==> ({
            &&& r matches Ok(s)
            &&& s@ == config_text(config@)
        }),
        !valid_config(config@) ==> r == Err::<String, SerializationErrors>(
            SerializationErrors::FailedToSerialize,
        ),
{
    let lists = config.lists_iter();
    if lists.len() == 0 {
        return Err(SerializationErrors::FailedToSerialize);
    }
    let current = config.current_list();
    if !contains_name(&lists, &current) {
        return Err(SerializationErrors::FailedToSerialize);
    }
    if !names_unique(&lists) {
        return Err(SerializationErrors::FailedToSerialize);
    }
    let mut i: usize = 0;
    while i < lists.len()
        invariant
            i <= lists@.len(),
            views_of(lists@) == config@.lists,
            forall|k: int| 0 <= k < i ==> valid_name(#[trigger] config@.lists[k]),
        decreases lists@.len() - i,
    {
        if !valid_name_exec(lists[i].as_str()) {
            proof {
                assert(!valid_name(config@.lists[i as int]));
            }
            return Err(SerializationErrors::FailedToSerialize);
        }
        i = i + 1;
    }
    let mut fields: Vec<String> = Vec::new();
    fields.push(bool_to_str(config.always_show_list_names()).to_owned());
    fields.push(bool_to_str(config.always_show_task_ids()).to_owned());
    fields.push(bool_to_str(config.smart_task_ids()).to_owned());
    fields.push(usize_to_string(config.num_of_tasks()));
    fields.push(bool_to_str(config.smart_list_names()).to_owned());
    fields.push(config.current_list());
    proof {
        reveal_strlit("|");
        reveal_strlit("\n");
        assert(views_of(fields@) =~= seq![
            bool_seq(config@.always_show_list_names),
            bool_seq(config@.always_show_task_ids),
            bool_seq(config@.smart_task_ids),
            dec_rep(config@.num_of_tasks as nat),
            bool_seq(config@.smart_list_names),
            config@.current_list,
        ]);
    }
    let options_line = join_with(&fields, "|");
    let lists_line = join_with(&lists, "|");
    let mut lines: Vec<String> = Vec::new();
    lines.push(options_line);
    lines.push(lists_line);
    proof {
        assert(views_of(lines@) =~= seq![
            config_options_line(config@),
            join_seq(config@.lists, '|'),
        ]);
    }
    Ok(join_with(&lines, "\n"))
}

/// Decodes the configuration artifact; every malformed field aborts the
/// read.
pub fn decode_config(text: &str) -> (r: Result<Config, DeserializationErrors>)
    ensures
        parse_config_text(text@) matches Some(cv) ==> ({
            &&& r matches Ok(c)
            &&& c@ == cv
            &&& c.wf()
        }),
        parse_config_text(text@) is None ==> r == Err::<Config, DeserializationErrors>(
            DeserializationErrors::FailedToDeserializeTask,
        ),
{
    let lines = split_on(text, '\n');
    let ghost lv = views_of(lines@);
    if lines.len() != 2 {
        return Err(DeserializationErrors::FailedToDeserializeTask);
    }
    proof {
        assert(lines@[0]@ == lv[0]);
        assert(lines@[1]@ == lv[1]);
    }
    let fields = split_on(lines[0].as_str(), '|');
    let lists = split_on(lines[1].as_str(), '|');
    let ghost fv = views_of(fields@);
    if fields.len() != 6 {
        return Err(DeserializationErrors::FailedToDeserializeTask);
    }
    proof {
        assert(fields@[0]@ == fv[0]);
        assert(fields@[1]@ == fv[1]);
        assert(fields@[2]@ == fv[2]);
        assert(fields@[3]@ == fv[3]);
        assert(fields@[4]@ == fv[4]);
        assert(fields@[5]@ == fv[5]);
    }
    let always_show_list_names = match parse_bool(fields[0].as_str()) {
        Some(v) => v,
        None => {
            return Err(DeserializationErrors::FailedToDeserializeTask);
        },
    };
    let always_show_task_ids = match parse_bool(fields[1].as_str()) {
        Some(v) => v,
        None => {
            return Err(DeserializationErrors::FailedToDeserializeTask);
        },
    };
    let smart_task_ids = match parse_bool(fields[2].as_str()) {
        Some(v) => v,
        None => {
            return Err(DeserializationErrors::FailedToDeserializeTask);
        },
    };
    let num_of_tasks = match parse_usize(fields[3].as_str()) {
        Some(v) => v,
        None => {
            return Err(DeserializationErrors::FailedToDeserializeTask);
        },
    };
    let smart_list_names = match parse_bool(fields[4].as_str()) {
        Some(v) => v,
        None => {
            return Err(DeserializationErrors::FailedToDeserializeTask);
        },
    };
    let current_list = fields[5].clone();
    if !contains_name(&lists, &current_list) {
        return Err(DeserializationErrors::FailedToDeserializeTask);
    }
    if !names_unique(&lists) {
        return Err(DeserializationErrors::FailedToDeserializeTask);
    }
    let c = Config::from_parts(
        always_show_list_names,
        always_show_task_ids,
        smart_task_ids,
        num_of_tasks,
        smart_list_names,
        current_list,
        lists,
    );
    proof {
        assert(c@ =~= parse_config_text(text@).unwrap());
    }
    Ok(c)
}

// ---- the round-trip laws ---------------------------------------------------

/// Law: a storable task survives the round trip through its record — for
/// every task whose description and list are non-empty and delimiter-free,
/// decoding the encoded record yields the task again.
pub proof fn lemma_task_round_trip(t: TaskView)
    requires
        valid_task(t),
    ensures
        parse_task_line(task_line(t)) == Some(t),
{
    lemma_status_tokens(t.status);
    let fields = seq![t.description, status_seq(t.status), t.list];
    assert(forall|i: int| 0 <= i < fields.len() ==> sep_free(#[trigger] fields[i], '|'));
    lemma_split_join(fields, '|');
    assert(parse_task_line(task_line(t)) == Some(
        TaskView { description: t.description, status: t.status, list: t.list },
    ));
    assert((TaskView { description: t.description, status: t.status, list: t.list }) =~= t);
}

/// A storable task's record is non-empty and free of the line delimiter.
pub proof fn lemma_task_line_clean(t: TaskView)
    requires
        valid_task(t),
    ensures
        task_line(t).len() > 0,
        sep_free(task_line(t), '\n'),
{
    lemma_status_tokens(t.status);
    let fields = seq![t.description, status_seq(t.status), t.list];
    assert(forall|i: int| 0 <= i < fields.len() ==> sep_free(#[trigger] fields[i], '\n'));
    lemma_join_free(fields, '|', '\n');
    lemma_join_len(fields, '|');
}

/// Decoding the records of storable tasks yields the tasks.
proof fn lemma_parse_lines_of(ts: Seq<TaskView>)
    requires
        forall|i: int| 0 <= i < ts.len() ==> valid_task(#[trigger] ts[i]),
    ensures
        parse_task_lines(Seq::new(ts.len(), |i: int| task_line(ts[i]))) == Some(ts),
    decreases ts.len(),
{
    let lines = Seq::new(ts.len(), |i: int| task_line(ts[i]));
    if ts.len() == 0 {
        assert(parse_task_lines(lines) == Some(Seq::<TaskView>::empty()));
        assert(Seq::<TaskView>::empty() =~= ts);
    } else {
        let front = ts.drop_last();
        assert(forall|i: int| 0 <= i < front.len() ==> valid_task(#[trigger] front[i])) by {
            assert(forall|i: int|
                0 <= i < front.len() ==> #[trigger] front[i] == ts[i] && valid_task(ts[i]));
        }
        lemma_parse_lines_of(front);
        assert(lines.drop_last() =~= Seq::new(front.len(), |i: int| task_line(front[i])));
        lemma_task_round_trip(ts.last());
        assert(lines.last() == task_line(ts.last()));
        assert(front.push(ts.last()) =~= ts);
    }
}

/// Law: a sequence of storable tasks survives the round trip through the
/// tasks artifact.
pub proof fn lemma_tasks_round_trip(ts: Seq<TaskView>)
    requires
        forall|i: int| 0 <= i < ts.len() ==> valid_task(#[trigger] ts[i]),
    ensures
        parse_tasks_text(tasks_text(ts)) == Some(ts),
{
    let lines = Seq::new(ts.len(), |i: int| task_line(ts[i]));
    let text = tasks_text(ts);
    if ts.len() == 0 {
        assert(text.len() == 0);
        assert(Seq::<TaskView>::empty() =~= ts);
    } else {
        assert(forall|i: int| 0 <= i < lines.len() ==> sep_free(#[trigger] lines[i], '\n')) by {
            assert forall|i: int| 0 <= i < lines.len() implies sep_free(
                #[trigger] lines[i],
                '\n',
            ) by {
                lemma_task_line_clean(ts[i]);
            }
        }
        assert(text.len() > 0) by {
            if lines.len() == 1 {
                lemma_task_line_clean(ts[0]);
                assert(text == lines[0]);
            } else {
                lemma_join_len(lines, '\n');
            }
        }
        lemma_split_join(lines, '\n');
        lemma_parse_lines_of(ts);
    }
}

/// Law: a storable configuration survives the round trip through the
/// configuration artifact.
pub proof fn lemma_config_round_trip(c: ConfigView)
    requires
        valid_config(c),
    ensures
        parse_config_text(config_text(c)) == Some(c),
{
    lemma_bool_token_free(c.always_show_list_names);
    lemma_bool_token_free(c.always_show_task_ids);
    lemma_bool_token_free(c.smart_task_ids);
    lemma_bool_token_free(c.smart_list_names);
    lemma_dec_rep_val(c.num_of_tasks as nat);
    lemma_digits_sep_free(dec_rep(c.num_of_tasks as nat));
    let k = c.lists.index_of(c.current_list);
    assert(c.lists.contains(c.current_list));
    assert(0 <= k < c.lists.len() && c.lists[k] == c.current_list);
    assert(valid_name(c.current_list));
    let fields = seq![
        bool_seq(c.always_show_list_names),
        bool_seq(c.always_show_task_ids),
        bool_seq(c.smart_task_ids),
        dec_rep(c.num_of_tasks as nat),
        bool_seq(c.smart_list_names),
        c.current_list,
    ];
    assert(forall|i: int| 0 <= i < fields.len() ==> sep_free(#[trigger] fields[i], '|'));
    assert(forall|i: int| 0 <= i < fields.len() ==> sep_free(#[trigger] fields[i], '\n'));
    lemma_split_join(fields, '|');
    lemma_split_join(c.lists, '|');
    let line1 = config_options_line(c);
    let line2 = join_seq(c.lists, '|');
    lemma_join_free(fields, '|', '\n');
    lemma_join_free(c.lists, '|', '\n');
    let lines = seq![line1, line2];
    assert(forall|i: int| 0 <= i < lines.len() ==> sep_free(#[trigger] lines[i], '\n'));
    lemma_split_join(lines, '\n');
    lemma_bool_round_trip(c.always_show_list_names);
    lemma_bool_round_trip(c.always_show_task_ids);
    lemma_bool_round_trip(c.smart_task_ids);
    lemma_bool_round_trip(c.smart_list_names);
    assert(parse_config_text(config_text(c)).unwrap() =~= c);
}

/// Law: a full state — a storable configuration and storable tasks —
/// survives the round trip through its two artifacts.
pub proof fn lemma_state_round_trip(c: ConfigView, ts: Seq<TaskView>)
    requires
        valid_config(c),
        forall|i: int| 0 <= i < ts.len() ==> valid_task(#[trigger] ts[i]),
    ensures
        parse_config_text(config_text(c)) == Some(c),
        parse_tasks_text(tasks_text(ts)) == Some(ts),
{
    lemma_config_round_trip(c);
    lemma_tasks_round_trip(ts);
}

} // verus!
