use fates_store::api::{initialize_database, initialize_database_in_memory, SafeConnection};
use fates_store::entities::{KVStore, Matter, NotificationRecord, RepeatTask, Tag, Todo};
use fates_store::errors::DbError;
use fates_store::time::{check_is_default_datetime, default_datetime, Timestamp};

fn ts(n: i64) -> Timestamp {
    Timestamp::new(n)
}

fn open_store() -> SafeConnection {
    initialize_database_in_memory().expect("in-memory store must open")
}

fn matter(id: &str, start: i64, end: i64) -> Matter {
    Matter {
        id: id.to_string(),
        title: format!("event {}", id),
        description: Some("details".to_string()),
        tags: None,
        start_time: ts(start),
        end_time: ts(end),
        priority: 0,
        type_: 1,
        created_at: ts(1),
        updated_at: ts(1),
        reserved_1: None,
        reserved_2: None,
        reserved_3: None,
        reserved_4: None,
        reserved_5: None,
    }
}

#[test]
fn repository_matter_round_trip_through_engine() {
    let conn = open_store();
    let m = matter("m1", 10, 20);
    assert!(Matter::create(&conn, &m).is_ok());
    let got = Matter::get_by_id(&conn, "m1").unwrap().expect("present");
    assert_eq!(got, m);
    assert!(Matter::get_by_id(&conn, "other").unwrap().is_none());
}

#[test]
fn repository_matter_duplicate_is_constraint_violation() {
    let conn = open_store();
    let m = matter("m1", 10, 20);
    assert!(Matter::create(&conn, &m).is_ok());
    assert_eq!(Matter::create(&conn, &m), Err(DbError::ConstraintViolation));
}

#[test]
fn repository_matter_time_range_and_order() {
    let conn = open_store();
    assert!(Matter::create(&conn, &matter("a", 10, 20)).is_ok());
    assert!(Matter::create(&conn, &matter("b", 40, 50)).is_ok());
    let hits = Matter::get_by_time_range(&conn, ts(15), ts(25)).unwrap();
    assert_eq!(hits.len(), 1);
    assert_eq!(hits[0].id, "a");
    let all = Matter::get_all(&conn).unwrap();
    assert_eq!(all.len(), 2);
    assert!(all[0].start_time.epoch_nanos <= all[1].start_time.epoch_nanos);
}

#[test]
fn repository_matter_update_delete_missing_are_ok() {
    let conn = open_store();
    assert!(matter("ghost", 1, 2).update(&conn).is_ok());
    assert!(Matter::delete(&conn, "ghost").is_ok());
    assert!(Matter::get_all(&conn).unwrap().is_empty());
}

#[test]
fn repository_query_by_field_checks_allow_list() {
    let conn = open_store();
    assert!(Matter::create(&conn, &matter("a", 10, 20)).is_ok());
    let by_desc = Matter::query_by_field(&conn, "description", "ETAIL", false).unwrap();
    assert_eq!(by_desc.len(), 1);
    assert_eq!(
        Matter::query_by_field(&conn, "start_time", "10", true),
        Err(DbError::MalformedQuery)
    );
}

#[test]
fn repository_kv_set_get_delete() {
    let conn = open_store();
    assert!(KVStore::set(&conn, "theme", "dark").is_ok());
    assert!(KVStore::set(&conn, "theme", "light").is_ok());
    assert_eq!(KVStore::get(&conn, "theme", "d").unwrap(), "light");
    assert_eq!(KVStore::get(&conn, "missing", "d").unwrap(), "d");
    assert!(KVStore::delete(&conn, "theme").is_ok());
    assert_eq!(KVStore::get(&conn, "theme", "d").unwrap(), "d");
}

#[test]
fn repository_tag_create_idempotent_and_sorted() {
    let conn = open_store();
    assert!(Tag::create(&conn, "beta").is_ok());
    assert!(Tag::create(&conn, "alpha").is_ok());
    assert!(Tag::create(&conn, "beta").is_ok());
    let tags = Tag::get_all(&conn).unwrap();
    let names: Vec<String> = tags.iter().map(|t| t.name.clone()).collect();
    assert_eq!(names, vec!["alpha", "beta"]);
    assert!(Tag::update_last_used_at(&conn, "beta").is_ok());
    assert!(Tag::delete(&conn, "alpha").is_ok());
    assert_eq!(Tag::get_all(&conn).unwrap().len(), 1);
}

#[test]
fn repository_task_lifecycle() {
    let conn = open_store();
    let t = RepeatTask {
        id: "t1".to_string(),
        title: "water plants".to_string(),
        tags: None,
        repeat_time: "0 9 * * *".to_string(),
        status: 1,
        created_at: ts(5),
        updated_at: ts(5),
        priority: 0,
        description: None,
    };
    assert!(RepeatTask::create(&conn, &t).is_ok());
    assert_eq!(RepeatTask::get_by_id(&conn, "t1").unwrap().unwrap(), t);
    assert_eq!(RepeatTask::get_active_tasks(&conn).unwrap().len(), 1);
    assert!(RepeatTask::update_status(&conn, "t1", 0).is_ok());
    assert!(RepeatTask::get_active_tasks(&conn).unwrap().is_empty());
    assert!(RepeatTask::delete(&conn, "t1").is_ok());
    assert!(RepeatTask::get_all(&conn).unwrap().is_empty());
}

#[test]
fn repository_todo_lifecycle() {
    let conn = open_store();
    let t = Todo {
        id: "d1".to_string(),
        title: "buy milk".to_string(),
        status: "todo".to_string(),
        created_at: ts(5),
        updated_at: ts(5),
    };
    assert!(Todo::create(&conn, &t).is_ok());
    let mut done = t.clone();
    done.status = "completed".to_string();
    assert!(done.update(&conn).is_ok());
    assert_eq!(Todo::get_by_id(&conn, "d1").unwrap().unwrap().status, "completed");
    assert!(Todo::delete(&conn, "d1").is_ok());
    assert!(Todo::get_all(&conn).unwrap().is_empty());
}

#[test]
fn repository_notification_read_transitions() {
    let conn = open_store();
    let n1 = NotificationRecord {
        id: "n1".to_string(),
        title: "ping".to_string(),
        content: "body".to_string(),
        type_: 3,
        status: 0,
        related_task_id: None,
        created_at: ts(10),
        read_at: None,
        expire_at: None,
        action_url: None,
        reserved_1: None,
        reserved_2: None,
        reserved_3: None,
        reserved_4: None,
        reserved_5: None,
    };
    let mut n2 = n1.clone();
    n2.id = "n2".to_string();
    n2.type_ = 4;
    n2.created_at = ts(20);
    assert!(NotificationRecord::create(&conn, &n1).is_ok());
    assert!(NotificationRecord::create(&conn, &n2).is_ok());
    assert_eq!(NotificationRecord::get_unread(&conn).unwrap().len(), 2);

    assert!(NotificationRecord::mark_as_read(&conn, "n1").is_ok());
    let unread = NotificationRecord::get_unread(&conn).unwrap();
    assert_eq!(unread.len(), 1);
    assert_eq!(unread[0].id, "n2");
    let read_back = NotificationRecord::get_by_id(&conn, "n1").unwrap().unwrap();
    assert_eq!(read_back.status, 1);
    assert!(read_back.read_at.is_some());

    assert!(NotificationRecord::mark_all_as_read(&conn).is_ok());
    assert!(NotificationRecord::get_unread(&conn).unwrap().is_empty());
}

#[test]
fn repository_notification_mark_by_type() {
    let conn = open_store();
    let base = NotificationRecord {
        id: "x".to_string(),
        title: "t".to_string(),
        content: "c".to_string(),
        type_: 1,
        status: 0,
        related_task_id: None,
        created_at: ts(1),
        read_at: None,
        expire_at: None,
        action_url: None,
        reserved_1: None,
        reserved_2: None,
        reserved_3: None,
        reserved_4: None,
        reserved_5: None,
    };
    let mut other = base.clone();
    other.id = "y".to_string();
    other.type_ = 2;
    assert!(NotificationRecord::create(&conn, &base).is_ok());
    assert!(NotificationRecord::create(&conn, &other).is_ok());
    assert!(NotificationRecord::mark_as_read_by_type(&conn, 1).is_ok());
    let unread = NotificationRecord::get_unread(&conn).unwrap();
    assert_eq!(unread.len(), 1);
    assert_eq!(unread[0].id, "y");
}

#[test]
fn initialize_fails_with_engine_error_on_bad_directory() {
    let r = initialize_database("/this_directory_does_not_exist_fates");
    match r {
        Err(DbError::StorageEngine(_)) => {}
        other => panic!("expected a storage-engine failure, got {:?}", other.is_ok()),
    }
}

#[test]
fn kv_value_survives_reopen_of_file_store() {
    // The same file is reused across runs; the upsert makes the test
    // independent of leftover state.
    let first = initialize_database("/tmp").expect("file store must open");
    assert!(KVStore::set(&first, "persisted_color", "blue").is_ok());
    drop(first);
    let second = initialize_database("/tmp").expect("file store must reopen");
    assert_eq!(KVStore::get(&second, "persisted_color", "none").unwrap(), "blue");
}

#[test]
fn sentinel_timestamp_round_trip() {
    let d = default_datetime();
    assert!(check_is_default_datetime(d));
    assert!(!check_is_default_datetime(Timestamp::new(5)));
}
