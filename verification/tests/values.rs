use fates_store::entities::{NotificationStatus, Tag};
use fates_store::errors::DbError;
use fates_store::strutil::{str_contains_folded, str_eq, str_lex_lt};
use fates_store::time::Timestamp;
use fates_store::timeline::{TimelineData, TimelineGroup, TimelineItem};

#[test]
fn notification_status_codes() {
    assert_eq!(NotificationStatus::Unread.code(), 0);
    assert_eq!(NotificationStatus::Read.code(), 1);
    assert_eq!(NotificationStatus::from_code(0), Some(NotificationStatus::Unread));
    assert_eq!(NotificationStatus::from_code(1), Some(NotificationStatus::Read));
    assert_eq!(NotificationStatus::from_code(7), None);
}

#[test]
fn string_equality_is_exact() {
    assert!(str_eq("abc", "abc"));
    assert!(!str_eq("abc", "abd"));
    assert!(!str_eq("abc", "ab"));
    assert!(str_eq("", ""));
}

#[test]
fn lexicographic_order_matches_code_points() {
    assert!(str_lex_lt("apple", "banana"));
    assert!(str_lex_lt("app", "apple"));
    assert!(!str_lex_lt("apple", "apple"));
    assert!(!str_lex_lt("banana", "apple"));
    // upper-case letters sort before lower-case ones by code point
    assert!(str_lex_lt("Zoo", "ant"));
}

#[test]
fn folded_substring_search_is_case_insensitive_for_ascii() {
    assert!(str_contains_folded("Weekly Sync", "sync"));
    assert!(str_contains_folded("Weekly Sync", "SYNC"));
    assert!(str_contains_folded("Weekly Sync", ""));
    assert!(!str_contains_folded("Weekly Sync", "daily"));
    assert!(!str_contains_folded("ab", "abc"));
}

#[test]
fn error_messages_name_their_category() {
    assert_eq!(DbError::ConstraintViolation.message(), "constraint violation");
    assert_eq!(DbError::MalformedQuery.message(), "malformed query");
    assert_eq!(DbError::InternalLockError.message(), "internal lock error");
    assert_eq!(DbError::StorageEngine("disk full".to_string()).message(), "disk full");
}

#[test]
fn entity_duplicate_copies_every_field() {
    let t = Tag {
        name: "focus".to_string(),
        created_at: Timestamp::new(3),
        last_used_at: Timestamp::new(4),
    };
    assert_eq!(t.duplicate(), t);
}

#[test]
fn timeline_values_hold_their_fields() {
    let data = TimelineData {
        groups: vec![TimelineGroup { id: "g1".to_string(), content: "work".to_string() }],
        items: vec![TimelineItem {
            id: "i1".to_string(),
            group: Some("g1".to_string()),
            content: "standup".to_string(),
            start: "2024-01-01T09:00:00Z".to_string(),
            end: None,
            tags: Some(vec!["daily".to_string()]),
            class_name: None,
        }],
    };
    assert_eq!(data.groups.len(), 1);
    assert_eq!(data.items[0].group.as_deref(), Some("g1"));
}
