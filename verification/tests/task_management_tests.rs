use task_tracker::config::Config;
use task_tracker::task::{Task, TaskErrors, TaskStatus};
use task_tracker::task_management::{
    delete_task, list_tasks, sort_tasks, update_task_description, update_task_status,
    TaskManagementErrors, UpdateTaskErrors,
};

#[test]
/// Tests if the update_task_description works
fn update_task_description_works() {
    let mut tasks_vec: Vec<Task> = vec![
        Task::new(
            String::from("A basic task!"),
            TaskStatus::NotStarted,
            String::from("main"),
        )
        .unwrap(),
        Task::new(
            String::from("Another basic task!"),
            TaskStatus::InProgress,
            String::from("main"),
        )
        .unwrap(),
    ];

    let new_description = String::from("New description");

    update_task_description(&mut tasks_vec, 1, new_description.clone()).unwrap();

    assert_eq!(new_description, tasks_vec[1].description());
}

#[test]
/// Tests if the update_task_description returns the right error on an empty new_description
fn update_task_description_fails_on_empty_new_description() {
    let mut tasks_vec: Vec<Task> = vec![
        Task::new(
            String::from("A basic task!"),
            TaskStatus::NotStarted,
            String::from("main"),
        )
        .unwrap(),
        Task::new(
            String::from("Another basic task!"),
            TaskStatus::InProgress,
            String::from("main"),
        )
        .unwrap(),
    ];

    let new_description = String::new();

    let error = update_task_description(&mut tasks_vec, 1, new_description).unwrap_err();

    assert_eq!(
        error,
        UpdateTaskErrors::TaskErrors(TaskErrors::EmptyDescription)
    )
}

#[test]
/// Tests if the update_task_description returns the right error on an invalid index
fn update_task_description_fails_on_invalid_index() {
    let mut tasks_vec: Vec<Task> = vec![
        Task::new(
            String::from("A basic task!"),
            TaskStatus::NotStarted,
            String::from("main"),
        )
        .unwrap(),
        Task::new(
            String::from("Another basic task!"),
            TaskStatus::InProgress,
            String::from("main"),
        )
        .unwrap(),
    ];

    let new_description = String::from("New description");

    let error = update_task_description(&mut tasks_vec, 2, new_description).unwrap_err();

    assert_eq!(
        error,
        UpdateTaskErrors::ManagementErrors(TaskManagementErrors::TaskDoesntExist)
    )
}

#[test]
/// Tests if the update_task_description returns the right error on an empty vec
fn update_task_description_fails_on_empty_vec() {
    let mut tasks_vec: Vec<Task> = Vec::new();

    let new_description = String::from("New description");

    let error = update_task_description(&mut tasks_vec, 1, new_description).unwrap_err();

    assert_eq!(
        error,
        UpdateTaskErrors::ManagementErrors(TaskManagementErrors::EmptyTasklist)
    )
}

#[test]
/// Tests if the update_task_status function works
fn update_task_status_works() {
    let mut tasks_vec: Vec<Task> = vec![
        Task::new(
            String::from("A basic task!"),
            TaskStatus::NotStarted,
            String::from("main"),
        )
        .unwrap(),
        Task::new(
            String::from("Another basic task!"),
            TaskStatus::InProgress,
            String::from("main"),
        )
        .unwrap(),
    ];

    update_task_status(&mut tasks_vec, 1, TaskStatus::Completed).unwrap();

    assert_eq!(tasks_vec[1].status(), TaskStatus::Completed)
}

#[test]
/// Tests if the update_task_status function returns the appropriate error if the task is the
/// given status already
fn update_task_status_fails_when_already_at_given_status() {
    let mut tasks_vec: Vec<Task> = vec![
        Task::new(
            String::from("A basic task!"),
            TaskStatus::NotStarted,
            String::from("main"),
        )
        .unwrap(),
        Task::new(
            String::from("Another basic task!"),
            TaskStatus::InProgress,
            String::from("main"),
        )
        .unwrap(),
    ];

    let err = update_task_status(&mut tasks_vec, 1, TaskStatus::InProgress).unwrap_err();

    assert_eq!(err, TaskManagementErrors::TaskAlreadyGivenStatus)
}

#[test]
/// Tests if the update_task_status function returns the appropriate error if the given index
/// is out of range of the vec
fn update_task_status_fails_when_index_out_of_range() {
    let mut tasks_vec: Vec<Task> = vec![
        Task::new(
            String::from("A basic task!"),
            TaskStatus::NotStarted,
            String::from("main"),
        )
        .unwrap(),
        Task::new(
            String::from("Another basic task!"),
            TaskStatus::NotStarted,
            String::from("main"),
        )
        .unwrap(),
    ];

    let err = update_task_status(&mut tasks_vec, 3, TaskStatus::Completed).unwrap_err();

    assert_eq!(err, TaskManagementErrors::TaskDoesntExist)
}

#[test]
/// Test if the update_task_status function returns the appropriate error if the vec is empty
fn update_task_status_fails_on_empty_vec() {
    let mut tasks_vec: Vec<Task> = Vec::new();

    let err = update_task_status(&mut tasks_vec, 1, TaskStatus::Completed).unwrap_err();

    assert_eq!(err, TaskManagementErrors::EmptyTasklist)
}

#[test]
/// Tests if the delete_task function works
fn delete_task_works() {
    let mut tasks_vec: Vec<Task> = vec![
        Task::new(
            String::from("A basic task!"),
            TaskStatus::NotStarted,
            String::from("main"),
        )
        .unwrap(),
        Task::new(
            String::from("Another basic task!"),
            TaskStatus::NotStarted,
            String::from("main"),
        )
        .unwrap(),
    ];

    delete_task(&mut tasks_vec, 1).unwrap();

    assert_eq!(
        tasks_vec,
        vec![Task::new(
            String::from("A basic task!"),
            TaskStatus::NotStarted,
            String::from("main")
        )
        .unwrap()]
    )
}

#[test]
/// Tests if the delete_task function errors when the index passed to it is out of range
fn delete_task_errors_on_invalid_index() {
    let mut tasks_vec: Vec<Task> = vec![
        Task::new(
            String::from("A basic task!"),
            TaskStatus::NotStarted,
            String::from("main"),
        )
        .unwrap(),
        Task::new(
            String::from("Another basic task!"),
            TaskStatus::NotStarted,
            String::from("main"),
        )
        .unwrap(),
    ];

    let error = delete_task(&mut tasks_vec, 2).unwrap_err();

    assert_eq!(error, TaskManagementErrors::TaskDoesntExist)
}

#[test]
/// Tests if the list function errors on an empty vec. This is the only test written for the
/// list function as how it formats and will be constantly changed so no point really trying to
/// write a test for that part of the function
fn list_tasks_errors_on_empty_vec() {
    let config = Config::new();

    let tasks_vec: Vec<Task> = Vec::new();

    let error = list_tasks(&tasks_vec, &config).unwrap_err();

    assert_eq!(error, TaskManagementErrors::EmptyTasklist)
}

#[test]
/// Tests if the sort_tasks function works
fn sort_tasks_works() {
    let mut tasks = vec![
        Task::new(
            String::from("A Completed task!"),
            TaskStatus::Completed,
            String::from("main"),
        )
        .unwrap(),
        Task::new(
            String::from("A NotStarted task!"),
            TaskStatus::NotStarted,
            String::from("main"),
        )
        .unwrap(),
        Task::new(
            String::from("An InProgress task!"),
            TaskStatus::InProgress,
            String::from("main"),
        )
        .unwrap(),
        Task::new(
            String::from("Another Completed task!"),
            TaskStatus::Completed,
            String::from("main"),
        )
        .unwrap(),
    ];

    sort_tasks(&mut tasks).unwrap();

    assert_eq!(
        tasks,
        vec![
            Task::new(
                String::from("A Completed task!"),
                TaskStatus::Completed,
                String::from("main")
            )
            .unwrap(),
            Task::new(
                String::from("Another Completed task!"),
                TaskStatus::Completed,
                String::from("main")
            )
            .unwrap(),
            Task::new(
                String::from("An InProgress task!"),
                TaskStatus::InProgress,
                String::from("main")
            )
            .unwrap(),
            Task::new(
                String::from("A NotStarted task!"),
                TaskStatus::NotStarted,
                String::from("main")
            )
            .unwrap(),
        ]
    );
}

#[test]
/// Tests if the sort_tasks function returns the correct error when it is passed an empty vec
fn sort_tasks_fails_on_empty_vec() {
    let mut tasks = Vec::new();

    let error = sort_tasks(&mut tasks).unwrap_err();

    assert_eq!(error, TaskManagementErrors::EmptyTasklist)
}
