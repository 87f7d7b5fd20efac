use fates_store::entities::{Matter, NotificationRecord, RepeatTask, Todo};
use fates_store::errors::DbError;
use fates_store::store::Database;
use fates_store::time::Timestamp;

fn ts(n: i64) -> Timestamp {
    Timestamp::new(n)
}

fn matter(id: &str, start: i64, end: i64) -> Matter {
    Matter {
        id: id.to_string(),
        title: format!("event {}", id),
        description: None,
        tags: Some("work,home".to_string()),
        start_time: ts(start),
        end_time: ts(end),
        priority: 2,
        type_: 0,
        created_at: ts(1),
        updated_at: ts(1),
        reserved_1: None,
        reserved_2: None,
        reserved_3: None,
        reserved_4: None,
        reserved_5: None,
    }
}

fn task(id: &str, created: i64, status: i32) -> RepeatTask {
    RepeatTask {
        id: id.to_string(),
        title: format!("task {}", id),
        tags: None,
        repeat_time: "0 9 * * *".to_string(),
        status,
        created_at: ts(created),
        updated_at: ts(created),
        priority: 1,
        description: Some("desc".to_string()),
    }
}

fn todo(id: &str, created: i64) -> Todo {
    Todo {
        id: id.to_string(),
        title: format!("todo {}", id),
        status: "todo".to_string(),
        created_at: ts(created),
        updated_at: ts(created),
    }
}

fn note(id: &str, created: i64, type_: i32, status: i32) -> NotificationRecord {
    NotificationRecord {
        id: id.to_string(),
        title: format!("note {}", id),
        content: "content".to_string(),
        type_,
        status,
        related_task_id: None,
        created_at: ts(created),
        read_at: None,
        expire_at: None,
        action_url: None,
        reserved_1: None,
        reserved_2: None,
        reserved_3: None,
        reserved_4: None,
        reserved_5: None,
    }
}

#[test]
fn matter_create_then_get_returns_equal_value() {
    let mut db = Database::new();
    let m = matter("a1", 10, 20);
    assert!(db.create_matter(&m).is_ok());
    let got = db.matter_by_id("a1").expect("row must be present");
    assert_eq!(got, m);
}

#[test]
fn matter_duplicate_create_is_constraint_violation() {
    let mut db = Database::new();
    let m = matter("a1", 10, 20);
    assert!(db.create_matter(&m).is_ok());
    assert_eq!(db.create_matter(&m), Err(DbError::ConstraintViolation));
    assert_eq!(db.all_matters().len(), 1);
}

#[test]
fn matter_get_missing_is_none_not_error() {
    let db = Database::new();
    assert!(db.matter_by_id("nope").is_none());
}

#[test]
fn matter_get_all_sorted_by_start_time_for_any_insertion_order() {
    let mut db = Database::new();
    for (id, s) in [("x", 30i64), ("y", 10), ("z", 20)] {
        assert!(db.create_matter(&matter(id, s, s + 5)).is_ok());
    }
    let all = db.all_matters();
    let starts: Vec<i64> = all.iter().map(|m| m.start_time.epoch_nanos).collect();
    assert_eq!(starts, vec![10, 20, 30]);
}

#[test]
fn matter_time_range_overlap_cases() {
    let mut db = Database::new();
    let a = matter("a", 10, 20);
    assert!(db.create_matter(&a).is_ok());
    let hits = db.matters_in_range(ts(15), ts(25));
    assert!(hits.iter().any(|m| m.id == "a"));
    let miss_after = db.matters_in_range(ts(21), ts(30));
    assert!(miss_after.is_empty());
    let miss_before = db.matters_in_range(ts(5), ts(9));
    assert!(miss_before.is_empty());
    let spanning = db.matters_in_range(ts(0), ts(100));
    assert!(spanning.iter().any(|m| m.id == "a"));
}

#[test]
fn matter_update_keeps_id_and_created_at() {
    let mut db = Database::new();
    let m = matter("a", 10, 20);
    assert!(db.create_matter(&m).is_ok());
    let mut changed = matter("a", 40, 50);
    changed.title = "renamed".to_string();
    changed.created_at = ts(999);
    changed.updated_at = ts(7);
    db.update_matter(&changed);
    let got = db.matter_by_id("a").unwrap();
    assert_eq!(got.title, "renamed");
    assert_eq!(got.start_time, ts(40));
    assert_eq!(got.created_at, ts(1));
    assert_eq!(got.updated_at, ts(7));
}

#[test]
fn matter_update_and_delete_missing_id_are_silent_noops() {
    let mut db = Database::new();
    assert!(db.create_matter(&matter("a", 10, 20)).is_ok());
    db.update_matter(&matter("ghost", 1, 2));
    db.delete_matter("ghost");
    let all = db.all_matters();
    assert_eq!(all.len(), 1);
    assert_eq!(all[0].id, "a");
}

#[test]
fn matter_delete_removes_row() {
    let mut db = Database::new();
    assert!(db.create_matter(&matter("a", 10, 20)).is_ok());
    db.delete_matter("a");
    assert!(db.matter_by_id("a").is_none());
}

#[test]
fn matter_query_by_field_exact_and_substring() {
    let mut db = Database::new();
    let mut m1 = matter("a", 10, 20);
    m1.title = "Weekly Sync".to_string();
    let mut m2 = matter("b", 30, 40);
    m2.title = "Dentist".to_string();
    assert!(db.create_matter(&m1).is_ok());
    assert!(db.create_matter(&m2).is_ok());

    let exact = db.matters_by_field("title", "Dentist", true).unwrap();
    assert_eq!(exact.len(), 1);
    assert_eq!(exact[0].id, "b");

    let sub = db.matters_by_field("title", "SYNC", false).unwrap();
    assert_eq!(sub.len(), 1);
    assert_eq!(sub[0].id, "a");

    let none = db.matters_by_field("title", "sync", true).unwrap();
    assert!(none.is_empty());
}

#[test]
fn matter_query_by_field_rejects_unknown_field() {
    let db = Database::new();
    assert_eq!(
        db.matters_by_field("priority; DROP TABLE matter", "x", true),
        Err(DbError::MalformedQuery)
    );
}

#[test]
fn kv_upsert_preserves_created_at_and_advances_updated_at() {
    let mut db = Database::new();
    db.kv_set("color", "blue", ts(100));
    db.kv_set("color", "green", ts(200));
    assert_eq!(db.kv_get("color", "d"), "green");
    let rows = db.kv_all();
    assert_eq!(rows.len(), 1);
    assert_eq!(rows[0].key, "color");
    assert_eq!(rows[0].created_at, ts(100));
    assert_eq!(rows[0].updated_at, ts(200));
}

#[test]
fn kv_get_missing_returns_default() {
    let db = Database::new();
    assert_eq!(db.kv_get("absent", "fallback"), "fallback");
}

#[test]
fn kv_delete_removes_entry() {
    let mut db = Database::new();
    db.kv_set("k", "v", ts(1));
    db.kv_delete("k");
    assert_eq!(db.kv_get("k", "gone"), "gone");
}

#[test]
fn tag_create_twice_leaves_one_row() {
    let mut db = Database::new();
    db.tag_create("x", ts(1));
    db.tag_create("x", ts(2));
    let tags = db.tag_all();
    assert_eq!(tags.len(), 1);
    assert_eq!(tags[0].name, "x");
    assert_eq!(tags[0].created_at, ts(1));
}

#[test]
fn tag_get_all_sorted_by_name() {
    let mut db = Database::new();
    for name in ["pear", "apple", "mango"] {
        db.tag_create(name, ts(1));
    }
    let names: Vec<String> = db.tag_all().iter().map(|t| t.name.clone()).collect();
    assert_eq!(names, vec!["apple", "mango", "pear"]);
}

#[test]
fn tag_touch_updates_last_used_at_only() {
    let mut db = Database::new();
    db.tag_create("x", ts(1));
    db.tag_touch("x", ts(9));
    let tags = db.tag_all();
    assert_eq!(tags[0].created_at, ts(1));
    assert_eq!(tags[0].last_used_at, ts(9));
}

#[test]
fn task_round_trip_and_ordering() {
    let mut db = Database::new();
    let t1 = task("t1", 100, 1);
    let t2 = task("t2", 300, 0);
    let t3 = task("t3", 200, 1);
    for t in [&t1, &t2, &t3] {
        assert!(db.create_task(t).is_ok());
    }
    assert_eq!(db.task_by_id("t2").unwrap(), t2);
    let ids: Vec<String> = db.all_tasks().iter().map(|t| t.id.clone()).collect();
    assert_eq!(ids, vec!["t2", "t3", "t1"]);
}

#[test]
fn task_active_filter_keeps_order() {
    let mut db = Database::new();
    assert!(db.create_task(&task("t1", 100, 1)).is_ok());
    assert!(db.create_task(&task("t2", 300, 0)).is_ok());
    assert!(db.create_task(&task("t3", 200, 1)).is_ok());
    let ids: Vec<String> = db.active_tasks().iter().map(|t| t.id.clone()).collect();
    assert_eq!(ids, vec!["t3", "t1"]);
}

#[test]
fn task_update_status_changes_status_and_updated_at() {
    let mut db = Database::new();
    assert!(db.create_task(&task("t1", 100, 1)).is_ok());
    db.set_task_status("t1", -1, ts(400));
    let got = db.task_by_id("t1").unwrap();
    assert_eq!(got.status, -1);
    assert_eq!(got.updated_at, ts(400));
    assert_eq!(got.created_at, ts(100));
}

#[test]
fn todo_round_trip_and_ordering() {
    let mut db = Database::new();
    let a = todo("a", 10);
    let b = todo("b", 20);
    assert!(db.create_todo(&a).is_ok());
    assert!(db.create_todo(&b).is_ok());
    assert_eq!(db.todo_by_id("a").unwrap(), a);
    let ids: Vec<String> = db.all_todos().iter().map(|t| t.id.clone()).collect();
    assert_eq!(ids, vec!["b", "a"]);
}

#[test]
fn todo_update_and_delete_missing_are_noops() {
    let mut db = Database::new();
    assert!(db.create_todo(&todo("a", 10)).is_ok());
    db.update_todo(&todo("ghost", 1));
    db.delete_todo("ghost");
    assert_eq!(db.all_todos().len(), 1);
}

#[test]
fn note_round_trip() {
    let mut db = Database::new();
    let n = note("n1", 10, 3, 0);
    assert!(db.create_note(&n).is_ok());
    assert_eq!(db.note_by_id("n1").unwrap(), n);
}

#[test]
fn note_mark_as_read_sets_status_and_read_at_once() {
    let mut db = Database::new();
    assert!(db.create_note(&note("n1", 10, 3, 0)).is_ok());
    db.mark_note_read("n1", ts(50));
    let got = db.note_by_id("n1").unwrap();
    assert_eq!(got.status, 1);
    assert_eq!(got.read_at, Some(ts(50)));
    // a second mark does not move the read instant
    db.mark_note_read("n1", ts(99));
    let again = db.note_by_id("n1").unwrap();
    assert_eq!(again.read_at, Some(ts(50)));
    assert!(db.unread_notes().iter().all(|x| x.id != "n1"));
}

#[test]
fn note_mark_by_type_marks_only_that_type() {
    let mut db = Database::new();
    assert!(db.create_note(&note("n1", 10, 3, 0)).is_ok());
    assert!(db.create_note(&note("n2", 20, 4, 0)).is_ok());
    db.mark_notes_read_by_type(3, ts(50));
    let unread: Vec<String> = db.unread_notes().iter().map(|x| x.id.clone()).collect();
    assert_eq!(unread, vec!["n2"]);
}

#[test]
fn note_mark_all_leaves_no_unread() {
    let mut db = Database::new();
    assert!(db.create_note(&note("n1", 10, 3, 0)).is_ok());
    assert!(db.create_note(&note("n2", 20, 4, 0)).is_ok());
    assert!(db.create_note(&note("n3", 30, 4, 1)).is_ok());
    db.mark_all_notes_read(ts(50));
    assert!(db.unread_notes().is_empty());
}

#[test]
fn note_get_unread_sorted_newest_first() {
    let mut db = Database::new();
    assert!(db.create_note(&note("n1", 10, 3, 0)).is_ok());
    assert!(db.create_note(&note("n2", 30, 3, 0)).is_ok());
    assert!(db.create_note(&note("n3", 20, 3, 1)).is_ok());
    let ids: Vec<String> = db.unread_notes().iter().map(|x| x.id.clone()).collect();
    assert_eq!(ids, vec!["n2", "n1"]);
}

#[test]
fn note_update_keeps_created_and_read_instants() {
    let mut db = Database::new();
    assert!(db.create_note(&note("n1", 10, 3, 0)).is_ok());
    db.mark_note_read("n1", ts(42));
    let mut changed = note("n1", 77, 9, 0);
    changed.title = "renamed".to_string();
    db.update_note(&changed);
    let got = db.note_by_id("n1").unwrap();
    assert_eq!(got.title, "renamed");
    assert_eq!(got.type_, 9);
    assert_eq!(got.status, 0);
    assert_eq!(got.created_at, ts(10));
    assert_eq!(got.read_at, Some(ts(42)));
}
