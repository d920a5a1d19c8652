use task_tracker::config::Config;
use task_tracker::program_state::{
    decode_config, decode_tasks, encode_config, encode_tasks, DeserializationErrors,
    SerializationErrors,
};
use task_tracker::task::{Task, TaskStatus};

fn sample_tasks() -> Vec<Task> {
    vec![
        Task::new(
            String::from("Write the report"),
            TaskStatus::InProgress,
            String::from("Work"),
        )
        .unwrap(),
        Task::new(
            String::from("Buy groceries"),
            TaskStatus::NotStarted,
            String::from("Main"),
        )
        .unwrap(),
        Task::new(
            String::from("File taxes"),
            TaskStatus::Completed,
            String::from("Main"),
        )
        .unwrap(),
    ]
}

#[test]
/// Encoding tasks yields one delimiter-separated record per line.
fn encode_tasks_exact_format() {
    let text = encode_tasks(&sample_tasks()).unwrap();

    assert_eq!(
        text,
        "Write the report|InProgress|Work\nBuy groceries|NotStarted|Main\nFile taxes|Completed|Main"
    );
}

#[test]
/// Decoding an encoded task collection yields the collection again.
fn tasks_round_trip() {
    let tasks = sample_tasks();

    let decoded = decode_tasks(encode_tasks(&tasks).unwrap().as_str()).unwrap();

    assert_eq!(decoded, tasks);
}

#[test]
/// No tasks encode to the empty artifact, which decodes to no tasks.
fn empty_tasks_round_trip() {
    let tasks: Vec<Task> = Vec::new();

    let text = encode_tasks(&tasks).unwrap();
    assert_eq!(text, "");

    let decoded = decode_tasks(text.as_str()).unwrap();
    assert_eq!(decoded.len(), 0);
}

#[test]
/// A record with an unknown status token fails to decode.
fn decode_tasks_rejects_bad_status() {
    let error = decode_tasks("Buy groceries|Done|Main").unwrap_err();

    assert_eq!(error, DeserializationErrors::FailedToDeserializeTask);
}

#[test]
/// A record with the wrong number of fields fails to decode.
fn decode_tasks_rejects_bad_field_count() {
    let error = decode_tasks("Buy groceries|NotStarted").unwrap_err();

    assert_eq!(error, DeserializationErrors::FailedToDeserializeTask);
}

#[test]
/// A record with an empty description fails to decode.
fn decode_tasks_rejects_empty_description() {
    let error = decode_tasks("|NotStarted|Main").unwrap_err();

    assert_eq!(error, DeserializationErrors::FailedToDeserializeTask);
}

#[test]
/// Encoding the configuration yields the options line and the list line.
fn encode_config_exact_format() {
    let mut config = Config::new();
    config.add_list(String::from("Work")).unwrap();
    config.set_num_of_tasks(12);

    let text = encode_config(&config).unwrap();

    assert_eq!(text, "false|false|true|12|true|Main\nMain|Work");
}

#[test]
/// Decoding an encoded configuration yields the configuration again.
fn config_round_trip() {
    let mut config = Config::new();
    config.add_list(String::from("Work")).unwrap();
    config.add_list(String::from("Chores")).unwrap();
    config.set_current_list(String::from("Chores")).unwrap();
    config.set_always_show_task_ids(true);
    config.set_num_of_tasks(7);
    config.set_smart_list_names(false);

    let decoded = decode_config(encode_config(&config).unwrap().as_str()).unwrap();

    assert_eq!(decoded, config);
}

#[test]
/// A configuration whose current list is not one of the lists fails to
/// decode.
fn decode_config_rejects_foreign_current_list() {
    let error = decode_config("false|false|true|4|true|Gone\nMain|Work").unwrap_err();

    assert_eq!(error, DeserializationErrors::FailedToDeserializeTask);
}

#[test]
/// A configuration with a duplicated list name fails to decode.
fn decode_config_rejects_duplicate_lists() {
    let error = decode_config("false|false|true|4|true|Main\nMain|Main").unwrap_err();

    assert_eq!(error, DeserializationErrors::FailedToDeserializeTask);
}

#[test]
/// A configuration with a malformed boolean or threshold fails to decode.
fn decode_config_rejects_bad_fields() {
    assert_eq!(
        decode_config("maybe|false|true|4|true|Main\nMain").unwrap_err(),
        DeserializationErrors::FailedToDeserializeTask
    );
    assert_eq!(
        decode_config("false|false|true|many|true|Main\nMain").unwrap_err(),
        DeserializationErrors::FailedToDeserializeTask
    );
    assert_eq!(
        decode_config("false|false|true|4|true|Main").unwrap_err(),
        DeserializationErrors::FailedToDeserializeTask
    );
}

#[test]
/// The decoded threshold is read back as the number the encoder wrote.
fn decode_config_reads_threshold() {
    let decoded = decode_config("true|true|false|250|false|Main\nMain").unwrap();

    assert_eq!(decoded.num_of_tasks(), 250);
    assert!(decoded.always_show_list_names());
    assert!(decoded.always_show_task_ids());
    assert!(!decoded.smart_task_ids());
    assert!(!decoded.smart_list_names());
}

#[test]
/// Descriptions keep their spaces and punctuation through the round trip.
fn round_trip_keeps_punctuation() {
    let tasks = vec![Task::new(
        String::from("Call: the dentist, at 9.30!"),
        TaskStatus::NotStarted,
        String::from("Health & errands"),
    )
    .unwrap()];

    let decoded = decode_tasks(encode_tasks(&tasks).unwrap().as_str()).unwrap();

    assert_eq!(decoded, tasks);
}

#[test]
/// A task whose description holds a delimiter cannot be written as a
/// record; the writer refuses instead of corrupting the artifact.
fn encode_tasks_rejects_delimiter_in_field() {
    let tasks = vec![Task::new(
        String::from("half|and half"),
        TaskStatus::NotStarted,
        String::from("Main"),
    )
    .unwrap()];

    let error = encode_tasks(&tasks).unwrap_err();

    assert_eq!(error, SerializationErrors::FailedToSerialize);
}

#[test]
/// A list name holding a delimiter cannot be written; the writer refuses.
fn encode_config_rejects_delimiter_in_list_name() {
    let mut config = Config::new();
    config.add_list(String::from("a|b")).unwrap();

    let error = encode_config(&config).unwrap_err();

    assert_eq!(error, SerializationErrors::FailedToSerialize);
}
