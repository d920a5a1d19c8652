use task_tracker::actions::config_management::{
    set_always_show_id, set_current_tasklist, set_display_list_name, set_num_of_tasks,
    set_smart_id,
};
use task_tracker::actions::task_management::{
    add_task, cleanup_list, finish_task, remove_task, restart_task, sort_tasks, start_task,
    update_task,
};
use task_tracker::actions::tasklist_management::{add_tasklist, filter_list, update_tasklist_name};
use task_tracker::task::{Task, TaskStatus};
use task_tracker::user_config::UserConfig;

fn task(desc: &str, status: TaskStatus, list: &str) -> Task {
    Task::new(String::from(desc), status, String::from(list)).unwrap()
}

fn fields(parts: &[&str]) -> Vec<String> {
    parts.iter().map(|p| String::from(*p)).collect()
}

#[test]
/// The default settings hold one list named "Default".
fn user_config_default_works() {
    let config = UserConfig::default();

    assert_eq!(config.always_show_id, false);
    assert_eq!(config.smart_id, true);
    assert_eq!(config.smart_id_num, 5);
    assert_eq!(config.current_list, "Default");
    assert_eq!(config.display_list_name, false);
    assert_eq!(config.tasklists, vec![String::from("Default")]);
}

#[test]
/// Building from a well-formed settings line reads every field.
fn user_config_build_works() {
    let config = UserConfig::build(fields(&["true", "false", "9", "Chores", "true"]));

    assert_eq!(config.always_show_id, true);
    assert_eq!(config.smart_id, false);
    assert_eq!(config.smart_id_num, 9);
    assert_eq!(config.current_list, "Chores");
    assert_eq!(config.display_list_name, true);
    assert_eq!(config.tasklists.len(), 0);
}

#[test]
/// Building from a line with the wrong number of fields yields the
/// defaults; malformed fields yield their defaults.
fn user_config_build_defaults() {
    let short = UserConfig::build(fields(&["true", "false"]));
    assert_eq!(short.current_list, "Default");

    let odd = UserConfig::build(fields(&["yes", "maybe", "lots", "Main", "no"]));
    assert_eq!(odd.always_show_id, false);
    assert_eq!(odd.smart_id, true);
    assert_eq!(odd.smart_id_num, 5);
    assert_eq!(odd.display_list_name, false);

    let large = UserConfig::build(fields(&["false", "true", "300", "Main", "false"]));
    assert_eq!(large.smart_id_num, 5);
}

#[test]
/// The settings line renders the five fields in order.
fn user_config_save_format_works() {
    let config = UserConfig::default();

    assert_eq!(config.to_save_format(), "false|true|5|Default|false\n");
}

#[test]
/// The list-names line joins the names with the delimiter.
fn user_config_tasklists_save_format_works() {
    let mut config = UserConfig::default();
    config.tasklists.push(String::from("Work"));

    assert_eq!(config.tasklists_to_save_format(), "Default|Work\n");
}

#[test]
/// Switching lists works for a known list and fails for an unknown one.
fn set_current_tasklist_works() {
    let mut config = UserConfig::default();
    config.tasklists.push(String::from("Work"));

    let message = set_current_tasklist(&mut config, String::from("Work")).unwrap();
    assert_eq!(message, "Switched to Work list!");
    assert_eq!(config.current_list, "Work");

    let error = set_current_tasklist(&mut config, String::from("Gone")).unwrap_err();
    assert_eq!(error, "Tasklist doesn't exist!");

    let empty = set_current_tasklist(&mut config, String::new()).unwrap_err();
    assert_eq!(empty, "No tasklist name supplied!");
}

#[test]
/// The smart-id option accepts only the two boolean tokens.
fn set_smart_id_works() {
    let mut config = UserConfig::default();

    let on = set_smart_id(&mut config, "true").unwrap();
    assert_eq!(on, "Task Id's will now show when there are 5 or more tasks!");
    assert!(config.smart_id);

    let off = set_smart_id(&mut config, "false").unwrap();
    assert_eq!(off, "Disabled smart id!");
    assert!(!config.smart_id);

    let bad = set_smart_id(&mut config, "perhaps").unwrap_err();
    assert_eq!(bad, "Invalid option, Must be either true or false!");
}

#[test]
/// The display-list-name option accepts only the two boolean tokens.
fn set_display_list_name_works() {
    let mut config = UserConfig::default();

    set_display_list_name(&mut config, "true").unwrap();
    assert!(config.display_list_name);

    set_display_list_name(&mut config, "false").unwrap();
    assert!(!config.display_list_name);

    assert!(set_display_list_name(&mut config, "1").is_err());
}

#[test]
/// The threshold option parses its number and rejects anything else.
fn set_num_of_tasks_action_works() {
    let mut config = UserConfig::default();

    let message = set_num_of_tasks(&mut config, "8").unwrap();
    assert_eq!(
        message,
        "Task Id's will now show up when there are 8 or more Tasks!"
    );
    assert_eq!(config.smart_id_num, 8);

    let error = set_num_of_tasks(&mut config, "eight").unwrap_err();
    assert_eq!(error, "Incorrect value, must be an integer!");
    assert_eq!(config.smart_id_num, 8);
}

#[test]
/// The always-show-id option accepts only the two boolean tokens.
fn set_always_show_id_works() {
    let mut config = UserConfig::default();

    set_always_show_id(&mut config, "true").unwrap();
    assert!(config.always_show_id);

    set_always_show_id(&mut config, "false").unwrap();
    assert!(!config.always_show_id);

    assert!(set_always_show_id(&mut config, "on").is_err());
}

#[test]
/// Starting a task reports its description and moves it to in progress;
/// only a task already in progress is rejected.
fn action_start_task_works() {
    let mut t = task("Feed the cat", TaskStatus::NotStarted, "Default");

    let message = start_task(&mut t).unwrap();
    assert_eq!(message, "Started task 'Feed the cat'");
    assert_eq!(t.status(), TaskStatus::InProgress);

    let error = start_task(&mut t).unwrap_err();
    assert_eq!(error, "Task already in progress!");
    assert_eq!(t.status(), TaskStatus::InProgress);
}

#[test]
/// Starting a completed task is a legal transition and succeeds.
fn action_start_task_accepts_completed() {
    let mut t = task("Feed the cat", TaskStatus::Completed, "Default");

    let message = start_task(&mut t).unwrap();
    assert_eq!(message, "Started task 'Feed the cat'");
    assert_eq!(t.status(), TaskStatus::InProgress);
}

#[test]
/// Finishing works from both unfinished states and is rejected when done.
fn action_finish_task_works() {
    let mut t = task("Feed the cat", TaskStatus::InProgress, "Default");

    let message = finish_task(&mut t).unwrap();
    assert_eq!(message, "Completed 'Feed the cat'!");
    assert_eq!(t.status(), TaskStatus::Completed);

    let error = finish_task(&mut t).unwrap_err();
    assert_eq!(error, "Task already completed!");
}

#[test]
/// Restarting resets the status; restarting a task that is already not
/// started is rejected as a no-op, not silently accepted.
fn action_restart_task_works() {
    let mut t = task("Feed the cat", TaskStatus::Completed, "Default");

    let message = restart_task(&mut t).unwrap();
    assert_eq!(message, "Restarted task 'Feed the cat'!");
    assert_eq!(t.status(), TaskStatus::NotStarted);

    let error = restart_task(&mut t).unwrap_err();
    assert_eq!(error, "Task is already Not Started!");
    assert_eq!(t.status(), TaskStatus::NotStarted);
}

#[test]
/// Adding a task appends it; an empty description is rejected.
fn action_add_task_works() {
    let mut tasks: Vec<Task> = Vec::new();

    let message =
        add_task(&mut tasks, String::from("Feed the cat"), String::from("Default")).unwrap();
    assert_eq!(message, "Added task 'Feed the cat'!");
    assert_eq!(tasks.len(), 1);
    assert_eq!(tasks[0].status(), TaskStatus::NotStarted);

    let error = add_task(&mut tasks, String::new(), String::from("Default")).unwrap_err();
    assert_eq!(error, "Tasks cannot have empty descriptions!");
    assert_eq!(tasks.len(), 1);

    let no_list = add_task(&mut tasks, String::from("x"), String::new()).unwrap_err();
    assert_eq!(no_list, "A task must have a list!");
}

#[test]
/// Removing reports the removed task's description.
fn action_remove_task_works() {
    let mut tasks = vec![
        task("A", TaskStatus::NotStarted, "Default"),
        task("B", TaskStatus::NotStarted, "Default"),
    ];

    let message = remove_task(&mut tasks, 0);
    assert_eq!(message, "Removed task 'A'!");
    assert_eq!(tasks, vec![task("B", TaskStatus::NotStarted, "Default")]);
}

#[test]
/// Updating builds the replacement task without touching the original.
fn action_update_task_works() {
    let t = task("Old words", TaskStatus::InProgress, "Default");

    let (updated, message) = update_task(&t, String::from("New words")).unwrap();
    assert_eq!(message, "Updated Task to 'New words'");
    assert_eq!(updated.description(), "New words");
    assert_eq!(updated.status(), TaskStatus::InProgress);
    assert_eq!(updated.list(), "Default");

    assert!(update_task(&t, String::new()).is_err());
}

#[test]
/// The owning sort returns the three blocks in order.
fn action_sort_tasks_works() {
    let tasks = vec![
        task("N", TaskStatus::NotStarted, "Default"),
        task("C", TaskStatus::Completed, "Default"),
        task("I", TaskStatus::InProgress, "Default"),
    ];

    let sorted = sort_tasks(tasks);

    assert_eq!(
        sorted,
        vec![
            task("C", TaskStatus::Completed, "Default"),
            task("I", TaskStatus::InProgress, "Default"),
            task("N", TaskStatus::NotStarted, "Default"),
        ]
    );
}

#[test]
/// Cleanup reports how many completed tasks it removed.
fn action_cleanup_list_works() {
    let mut tasks = vec![
        task("A", TaskStatus::Completed, "Default"),
        task("B", TaskStatus::NotStarted, "Default"),
        task("C", TaskStatus::Completed, "Default"),
    ];

    let message = cleanup_list(&mut tasks);

    assert_eq!(message, "Removed 2 Completed tasks!");
    assert_eq!(tasks, vec![task("B", TaskStatus::NotStarted, "Default")]);
}

#[test]
/// Partitioning by list keeps each side's order.
fn action_filter_list_works() {
    let tasks = vec![
        task("A", TaskStatus::NotStarted, "Default"),
        task("B", TaskStatus::NotStarted, "Work"),
        task("C", TaskStatus::NotStarted, "Default"),
    ];

    let (tagged, other) = filter_list(String::from("Default"), tasks);

    assert_eq!(
        tagged,
        vec![
            task("A", TaskStatus::NotStarted, "Default"),
            task("C", TaskStatus::NotStarted, "Default"),
        ]
    );
    assert_eq!(other, vec![task("B", TaskStatus::NotStarted, "Work")]);
}

#[test]
/// Adding a list rejects empty names, names with the delimiter, and
/// duplicates.
fn add_tasklist_works() {
    let mut config = UserConfig::default();

    let message = add_tasklist(&mut config, String::from("Work")).unwrap();
    assert_eq!(message, "Tasklist Work Added!");
    assert_eq!(
        config.tasklists,
        vec![String::from("Default"), String::from("Work")]
    );

    assert_eq!(
        add_tasklist(&mut config, String::new()).unwrap_err(),
        "No tasklist name supplied!"
    );
    assert_eq!(
        add_tasklist(&mut config, String::from("a|b")).unwrap_err(),
        "Tasklist names cannot contain the | character"
    );
    assert_eq!(
        add_tasklist(&mut config, String::from("Work")).unwrap_err(),
        "A Tasklist with that name already exists!"
    );
}

#[test]
/// Renaming the current list relabels its tasks and keeps the other lists.
fn update_tasklist_name_works() {
    let mut config = UserConfig::default();
    config.tasklists.push(String::from("Work"));

    let mut tasks = vec![
        task("A", TaskStatus::NotStarted, "Default"),
        task("B", TaskStatus::Completed, "Default"),
    ];

    let message = update_tasklist_name(&mut config, &mut tasks, String::from("Home")).unwrap();

    assert_eq!(message, "Tasklist name updated!");
    assert_eq!(config.current_list, "Home");
    assert_eq!(
        config.tasklists,
        vec![String::from("Work"), String::from("Home")]
    );
    assert_eq!(tasks[0].list(), "Home");
    assert_eq!(tasks[1].list(), "Home");

    assert_eq!(
        update_tasklist_name(&mut config, &mut tasks, String::from("Work")).unwrap_err(),
        "A Tasklist with that name already exists!"
    );
}
