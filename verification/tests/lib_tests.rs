use task_tracker::args::{
    AddCommand, CleanupCommand, DeleteCommand, FinishCommand, RestartCommand, StartCommand,
};
use task_tracker::config::Config;
use task_tracker::task::{Task, TaskStatus};
use task_tracker::{
    cleanup_list, delete_task, filter_task_vec, finish_task, new_task, restart_task,
    sort_and_filter_task_ids, start_task, task_id_to_index,
};

#[test]
/// Tests if the new_task command works as expected
fn new_task_works() {
    let config = Config::new();

    let description = String::from("This is a basic task");

    let list = config.current_list();

    let expected_task = Task::new(description.clone(), TaskStatus::NotStarted, list).unwrap();

    let arguments = AddCommand {
        description: Some(description),
    };

    let genereated_task = new_task(arguments.description.unwrap(), &config).unwrap();

    assert_eq!(expected_task, genereated_task)
}

#[test]
/// Tests if the filters_tasks function works as expected
fn filter_tasks_works() {
    let config = Config::new();

    let tasks_vec = vec![
        Task::new(
            String::from("A basic task"),
            TaskStatus::Completed,
            String::from("Main"),
        )
        .unwrap(),
        Task::new(
            String::from("Another basic task"),
            TaskStatus::Completed,
            String::from("Main"),
        )
        .unwrap(),
        Task::new(
            String::from("A basic task"),
            TaskStatus::Completed,
            String::from("Other"),
        )
        .unwrap(),
        Task::new(
            String::from("A basic task"),
            TaskStatus::Completed,
            String::from("Another"),
        )
        .unwrap(),
    ];

    let filtered_vecs = filter_task_vec(tasks_vec, &config);

    assert_eq!(
        filtered_vecs.0,
        vec![
            Task::new(
                String::from("A basic task"),
                TaskStatus::Completed,
                String::from("Main"),
            )
            .unwrap(),
            Task::new(
                String::from("Another basic task"),
                TaskStatus::Completed,
                String::from("Main"),
            )
            .unwrap(),
        ]
    );

    assert_eq!(
        filtered_vecs.1,
        vec![
            Task::new(
                String::from("A basic task"),
                TaskStatus::Completed,
                String::from("Other"),
            )
            .unwrap(),
            Task::new(
                String::from("A basic task"),
                TaskStatus::Completed,
                String::from("Another"),
            )
            .unwrap(),
        ]
    );
}

#[test]
/// Tests if the cleanup_list function works as expected
fn cleanup_list_works() {
    let arguments = CleanupCommand { all: false };

    let mut tasks = vec![
        Task::new(
            String::from("A basic task"),
            TaskStatus::Completed,
            String::from("Main"),
        )
        .unwrap(),
        Task::new(
            String::from("Another basic task"),
            TaskStatus::InProgress,
            String::from("Main"),
        )
        .unwrap(),
        Task::new(
            String::from("Yet another basic task"),
            TaskStatus::NotStarted,
            String::from("Main"),
        )
        .unwrap(),
    ];

    let mut other_tasks = vec![Task::new(
        String::from("A basic task"),
        TaskStatus::Completed,
        String::from("Main"),
    )
    .unwrap()];

    cleanup_list(&mut tasks, &mut other_tasks, arguments);

    assert_eq!(
        tasks,
        vec![
            Task::new(
                String::from("Another basic task"),
                TaskStatus::InProgress,
                String::from("Main"),
            )
            .unwrap(),
            Task::new(
                String::from("Yet another basic task"),
                TaskStatus::NotStarted,
                String::from("Main"),
            )
            .unwrap(),
        ]
    )
}

#[test]
/// Tests if cleanup_list works if the all flag is added
fn cleanup_list_with_all_flag_works() {
    let arguments = CleanupCommand { all: true };

    let mut tasks = vec![
        Task::new(
            String::from("A basic task"),
            TaskStatus::Completed,
            String::from("Main"),
        )
        .unwrap(),
        Task::new(
            String::from("Another basic task"),
            TaskStatus::InProgress,
            String::from("Main"),
        )
        .unwrap(),
        Task::new(
            String::from("Yet another basic task"),
            TaskStatus::NotStarted,
            String::from("Main"),
        )
        .unwrap(),
    ];

    let mut other_tasks = vec![
        Task::new(
            String::from("A basic task"),
            TaskStatus::Completed,
            String::from("Main"),
        )
        .unwrap(),
        Task::new(
            String::from("Another basic task"),
            TaskStatus::InProgress,
            String::from("Main"),
        )
        .unwrap(),
        Task::new(
            String::from("Yet another basic task"),
            TaskStatus::NotStarted,
            String::from("Main"),
        )
        .unwrap(),
    ];

    cleanup_list(&mut tasks, &mut other_tasks, arguments);

    assert_eq!(
        tasks,
        vec![
            Task::new(
                String::from("Another basic task"),
                TaskStatus::InProgress,
                String::from("Main"),
            )
            .unwrap(),
            Task::new(
                String::from("Yet another basic task"),
                TaskStatus::NotStarted,
                String::from("Main"),
            )
            .unwrap(),
        ]
    );

    assert_eq!(
        other_tasks,
        vec![
            Task::new(
                String::from("Another basic task"),
                TaskStatus::InProgress,
                String::from("Main"),
            )
            .unwrap(),
            Task::new(
                String::from("Yet another basic task"),
                TaskStatus::NotStarted,
                String::from("Main"),
            )
            .unwrap(),
        ]
    )
}

#[test]
/// Tests if the delete_task function returns the correct messages
fn delete_task_returns_correct_message() {
    let tasks = vec![
        Task::new(
            String::from("Another basic task"),
            TaskStatus::InProgress,
            String::from("Main"),
        )
        .unwrap(),
        Task::new(
            String::from("Yet another basic task"),
            TaskStatus::NotStarted,
            String::from("Main"),
        )
        .unwrap(),
    ];

    // Declaring multiple task ids
    let arguments = DeleteCommand {
        task_ids: vec![1, 2],
    };

    // Asserting a plural tasks is returned when there are multiple tasks
    assert_eq!(delete_task(&mut tasks.clone(), arguments), "Tasks deleted!");

    // Declaring a singular task id
    let arguments = DeleteCommand { task_ids: vec![1] };

    // Asserting a plural tasks is returned when there are multiple tasks
    assert_eq!(delete_task(&mut tasks.clone(), arguments), "Task deleted!");
}

#[test]
/// Tests if the task_id_to_index function works
fn task_id_to_index_works() {
    let task_id: usize = 1;

    let index = task_id_to_index(task_id);

    assert_eq!(index, 0)
}

#[test]
/// Tests if the task_id_to_index function can handle task_id being 0 and not create a panic
/// from attempting to subtract with overflow
fn task_id_to_index_handles_zero_as_input() {
    let task_id: usize = 0;

    let index = task_id_to_index(task_id);

    assert_eq!(index, 0)
}

#[test]
/// Tests if the start command works with multiple ids
fn start_task_with_multiple_task_ids_works() {
    let mut tasks_vec = vec![
        Task::new(
            String::from("Another basic task"),
            TaskStatus::NotStarted,
            String::from("Main"),
        )
        .unwrap(),
        Task::new(
            String::from("Yet another basic task"),
            TaskStatus::NotStarted,
            String::from("Main"),
        )
        .unwrap(),
    ];

    let arguments = StartCommand {
        task_ids: vec![1, 2],
    };

    start_task(&mut tasks_vec, arguments);

    assert_eq!(tasks_vec[0].status(), TaskStatus::InProgress);
    assert_eq!(tasks_vec[1].status(), TaskStatus::InProgress);
}

#[test]
/// Tests if the start command works with multiple ids
fn delete_task_with_multiple_task_ids_works() {
    let mut tasks_vec = vec![
        Task::new(
            String::from("Another basic task"),
            TaskStatus::NotStarted,
            String::from("Main"),
        )
        .unwrap(),
        Task::new(
            String::from("Yet another basic task"),
            TaskStatus::NotStarted,
            String::from("Main"),
        )
        .unwrap(),
    ];

    let arguments = DeleteCommand {
        task_ids: vec![1, 2],
    };

    delete_task(&mut tasks_vec, arguments);

    assert_eq!(tasks_vec.len(), 0);
}

#[test]
/// Tests if the finish_task function works with multiple task ids
fn finish_task_with_multiple_task_ids_works() {
    let mut tasks_vec = vec![
        Task::new(
            String::from("Another basic task"),
            TaskStatus::NotStarted,
            String::from("Main"),
        )
        .unwrap(),
        Task::new(
            String::from("Yet another basic task"),
            TaskStatus::NotStarted,
            String::from("Main"),
        )
        .unwrap(),
    ];

    let arguments = FinishCommand {
        task_ids: vec![1, 2],
    };

    finish_task(&mut tasks_vec, arguments);

    assert_eq!(tasks_vec[0].status(), TaskStatus::Completed);
    assert_eq!(tasks_vec[1].status(), TaskStatus::Completed);
}

#[test]
/// Tests if the restart_task function works with multiple task ids
fn restart_task_with_multiple_task_ids_works() {
    let mut tasks_vec = vec![
        Task::new(
            String::from("Another basic task"),
            TaskStatus::Completed,
            String::from("Main"),
        )
        .unwrap(),
        Task::new(
            String::from("Yet another basic task"),
            TaskStatus::InProgress,
            String::from("Main"),
        )
        .unwrap(),
    ];

    let arguments = RestartCommand {
        task_ids: vec![1, 2],
    };

    restart_task(&mut tasks_vec, arguments);

    assert_eq!(tasks_vec[0].status(), TaskStatus::NotStarted);
    assert_eq!(tasks_vec[1].status(), TaskStatus::NotStarted);
}

#[test]
fn sort_and_filter_task_ids_works() {
    let indexes = vec![1, 2, 2, 5, 1];

    let indexes = sort_and_filter_task_ids(indexes);

    assert_eq!(indexes, vec![1, 2, 5]);
}
