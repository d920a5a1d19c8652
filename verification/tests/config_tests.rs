use task_tracker::config::{Config, ListErrors};

#[test]
/// Tests if the constructor works as expected
fn constructor_works() {
    let new_config = Config::new();

    assert_eq!(new_config.always_show_list_names(), false);
    assert_eq!(new_config.always_show_task_ids(), false);
    assert_eq!(new_config.smart_task_ids(), true);
    assert_eq!(new_config.num_of_tasks(), 4);
    assert_eq!(new_config.smart_list_names(), true);
    assert_eq!(new_config.current_list(), String::from("Main"));
    assert_eq!(new_config.lists_iter(), vec![String::from("Main")]);
}

#[test]
/// Tests if always_show_task_ids works
fn always_show_task_ids_works() {
    let config = Config::new();

    assert!(!config.always_show_task_ids())
}

#[test]
/// Tests if set_always_show_task_ids works
fn set_always_show_task_ids_works() {
    let mut config = Config::new();

    config.set_always_show_task_ids(true);

    assert!(config.always_show_task_ids())
}

#[test]
/// Tests if always_show_list_names works
fn always_show_list_names_works() {
    let config = Config::new();

    assert!(!config.always_show_list_names())
}

#[test]
/// Tests if set_always_show_list_names works
fn set_always_show_list_names_works() {
    let mut config = Config::new();

    config.set_always_show_list_names(true);

    assert!(config.always_show_list_names())
}

#[test]
/// Tests if smart_list_names works
fn smart_list_names_works() {
    let config = Config::new();

    assert!(config.smart_list_names())
}

#[test]
/// Tests if set_smart_list_names works
fn set_smart_list_names_works() {
    let mut config = Config::new();

    config.set_smart_list_names(false);

    assert!(!config.always_show_list_names())
}

#[test]
/// Tests if smart_task_ids works
fn smart_task_ids_works() {
    let config = Config::new();

    assert!(config.smart_task_ids())
}

#[test]
/// Tests if set_smart_task_ids works
fn set_smart_task_ids_works() {
    let mut config = Config::new();

    config.set_smart_task_ids(false);

    assert!(!config.always_show_list_names())
}

#[test]
/// Tests if num_of_tasks works
fn num_of_tasks_works() {
    let config = Config::new();

    assert_eq!(config.num_of_tasks(), 4);
}

#[test]
/// Tests if set_num_of_tasks works
fn set_num_of_tasks_works() {
    let mut config = Config::new();

    config.set_num_of_tasks(3);

    assert_eq!(config.num_of_tasks(), 3);
}

#[test]
/// Tests current_list works as expected
fn current_list_works() {
    let config = Config::new();

    assert_eq!(config.current_list(), String::from("Main"))
}

#[test]
/// Tests if is_valid_list works as expected
fn is_valid_list_works() {
    let config = Config::new();

    assert_eq!(config.is_valid_list(&String::from("Main")), true);
    assert_eq!(config.is_valid_list(&String::from("Not Valid")), false);
}

#[test]
/// Tests if set_current_list works as expected
fn set_current_list_works() {
    let mut config = Config::new();

    let listname = String::from("Dev");

    config.add_list(listname.clone()).unwrap();

    config.set_current_list(listname.clone()).unwrap();

    assert_eq!(config.current_list(), listname)
}

#[test]
/// Tests if set_current_list fails if the list doesn't exist
fn set_current_list_fails_if_list_doesnt_exist() {
    let mut config = Config::new();

    let listname = String::from("Dev");

    let error = config.set_current_list(listname.clone()).unwrap_err();

    assert_eq!(error, ListErrors::ListDoesntExist)
}

#[test]
/// Tests if add_list works as expected
fn add_list_works() {
    let mut config = Config::new();

    let listname = String::from("Dev");

    config.add_list(listname.clone()).unwrap();

    assert_eq!(config.lists_iter(), vec![String::from("Main"), listname])
}

#[test]
/// Tests if add_list fails if the list already exists
fn add_list_fails_if_list_already_exists() {
    let mut config = Config::new();

    let listname = String::from("Dev");

    config.add_list(listname.clone()).unwrap();

    let error = config.add_list(listname.clone()).unwrap_err();

    assert_eq!(error, ListErrors::ListAlreadyExists)
}

#[test]
/// Checks if delete_list works
fn delete_list_works() {
    let mut config = Config::new();

    let listname = String::from("Backend");

    config.add_list(listname.clone()).unwrap();

    config.delete_list(listname.clone()).unwrap();

    assert_eq!(config.lists_iter(), vec![String::from("Main")])
}

#[test]
/// Checks that if the list being deleted is the current_list then the current_list will be set
/// to the first list
fn delete_list_changes_current_list_if_current_list_deleted() {
    let mut config = Config::new();

    config.add_list(String::from("Backend")).unwrap();

    config.delete_list(config.current_list()).unwrap();

    assert_eq!(config.current_list(), String::from("Backend"))
}

#[test]
/// Checks if delete_list returns the expected error if the list doesn't exist
fn delete_list_fails_if_the_list_doesnt_exist() {
    let mut config = Config::new();

    let error = config.delete_list(String::from("Backend")).unwrap_err();

    assert_eq!(error, ListErrors::ListDoesntExist)
}

#[test]
/// Checks if delete_list returns the expected error if the user attempts to delete the last
/// list
fn delete_list_fails_if_there_is_only_one_list() {
    let mut config = Config::new();

    let error = config.delete_list(String::from("Main")).unwrap_err();

    assert_eq!(error, ListErrors::ListCannotBeDeleted)
}
