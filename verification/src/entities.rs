use vstd::prelude::*;
use crate::time::Timestamp;

verus! {

/// Duplicates an optional text field; the copy is equal to the original.
pub fn clone_opt_string(s: &Option<String>) -> (r: Option<String>)
    ensures
        r == *s,
{
    match s {
        Some(x) => Some(x.clone()),
        None => None,
    }
}

/// A timed event ("matter"): the calendar's central record. Both interval
/// endpoints are always set; absent input defaults to the sentinel instant.
#[derive(Debug, Clone, PartialEq)]
pub struct Matter {
    pub id: String,
    pub title: String,
    pub description: Option<String>,
    pub tags: Option<String>,
    pub start_time: Timestamp,
    pub end_time: Timestamp,
    pub priority: i32,
    pub type_: i32,
    pub created_at: Timestamp,
    pub updated_at: Timestamp,
    pub reserved_1: Option<String>,
    pub reserved_2: Option<String>,
    pub reserved_3: Option<String>,
    pub reserved_4: Option<String>,
    pub reserved_5: Option<String>,
}

impl Matter {
    /// A field-for-field copy, equal to the original.
    pub fn duplicate(&self) -> (r: Matter)
        ensures
            r == *self,
    {
        Matter {
            id: self.id.clone(),
            title: self.title.clone(),
            description: clone_opt_string(&self.description),
            tags: clone_opt_string(&self.tags),
            start_time: self.start_time,
            end_time: self.end_time,
            priority: self.priority,
            type_: self.type_,
            created_at: self.created_at,
            updated_at: self.updated_at,
            reserved_1: clone_opt_string(&self.reserved_1),
            reserved_2: clone_opt_string(&self.reserved_2),
            reserved_3: clone_opt_string(&self.reserved_3),
            reserved_4: clone_opt_string(&self.reserved_4),
            reserved_5: clone_opt_string(&self.reserved_5),
        }
    }
}

/// A recurring task with an opaque serialized recurrence rule. Status
/// transitions are caller-driven: 1 = active, 0 = stopped, -1 = archived.
#[derive(Debug, Clone, PartialEq)]
pub struct RepeatTask {
    pub id: String,
    pub title: String,
    pub tags: Option<String>,
    pub repeat_time: String,
    pub status: i32,
    pub created_at: Timestamp,
    pub updated_at: Timestamp,
    pub priority: i32,
    pub description: Option<String>,
}

impl RepeatTask {
    /// A field-for-field copy, equal to the original.
    pub fn duplicate(&self) -> (r: RepeatTask)
        ensures
            r == *self,
    {
        RepeatTask {
            id: self.id.clone(),
            title: self.title.clone(),
            tags: clone_opt_string(&self.tags),
            repeat_time: self.repeat_time.clone(),
            status: self.status,
            created_at: self.created_at,
            updated_at: self.updated_at,
            priority: self.priority,
            description: clone_opt_string(&self.description),
        }
    }
}

/// One key-value setting row; keys are unique and writes are upserts.
#[derive(Debug, Clone, PartialEq)]
pub struct KVStore {
    pub key: String,
    pub value: String,
    pub created_at: Timestamp,
    pub updated_at: Timestamp,
}

impl KVStore {
    /// A field-for-field copy, equal to the original.
    pub fn duplicate(&self) -> (r: KVStore)
        ensures
            r == *self,
    {
        KVStore {
            key: self.key.clone(),
            value: self.value.clone(),
            created_at: self.created_at,
            updated_at: self.updated_at,
        }
    }
}

/// A tag, unique by name; creation is idempotent.
#[derive(Debug, Clone, PartialEq)]
pub struct Tag {
    pub name: String,
    pub created_at: Timestamp,
    pub last_used_at: Timestamp,
}

impl Tag {
    /// A field-for-field copy, equal to the original.
    pub fn duplicate(&self) -> (r: Tag)
        ensures
            r == *self,
    {
        Tag {
            name: self.name.clone(),
            created_at: self.created_at,
            last_used_at: self.last_used_at,
        }
    }
}

/// A simple todo; its status string is validated by the caller, not here.
#[derive(Debug, Clone, PartialEq)]
pub struct Todo {
    pub id: String,
    pub title: String,
    pub status: String,
    pub created_at: Timestamp,
    pub updated_at: Timestamp,
}

impl Todo {
    /// A field-for-field copy, equal to the original.
    pub fn duplicate(&self) -> (r: Todo)
        ensures
            r == *self,
    {
        Todo {
            id: self.id.clone(),
            title: self.title.clone(),
            status: self.status.clone(),
            created_at: self.created_at,
            updated_at: self.updated_at,
        }
    }
}

/// A notification record. `read_at` is set exactly once, at the moment the
/// status transitions from unread to read; absent instants are represented
/// as `None`, not as the sentinel.
#[derive(Debug, Clone, PartialEq)]
pub struct NotificationRecord {
    pub id: String,
    pub title: String,
    pub content: String,
    pub type_: i32,
    pub status: i32,
    pub related_task_id: Option<String>,
    pub created_at: Timestamp,
    pub read_at: Option<Timestamp>,
    pub expire_at: Option<Timestamp>,
    pub action_url: Option<String>,
    pub reserved_1: Option<String>,
    pub reserved_2: Option<String>,
    pub reserved_3: Option<String>,
    pub reserved_4: Option<String>,
    pub reserved_5: Option<String>,
}

impl NotificationRecord {
    /// A field-for-field copy, equal to the original.
    pub fn duplicate(&self) -> (r: NotificationRecord)
        ensures
            r == *self,
    {
        NotificationRecord {
            id: self.id.clone(),
            title: self.title.clone(),
            content: self.content.clone(),
            type_: self.type_,
            status: self.status,
            related_task_id: clone_opt_string(&self.related_task_id),
            created_at: self.created_at,
            read_at: self.read_at,
            expire_at: self.expire_at,
            action_url: clone_opt_string(&self.action_url),
            reserved_1: clone_opt_string(&self.reserved_1),
            reserved_2: clone_opt_string(&self.reserved_2),
            reserved_3: clone_opt_string(&self.reserved_3),
            reserved_4: clone_opt_string(&self.reserved_4),
            reserved_5: clone_opt_string(&self.reserved_5),
        }
    }
}

/// The two notification states, stored as the integer codes 0 and 1.
#[derive(Debug, Clone, PartialEq, Eq, Structural)]
pub enum NotificationStatus {
    Unread,
    Read,
}

impl NotificationStatus {
    /// The integer code the database stores for this status.
    pub fn code(&self) -> (r: i32)
        ensures
            r == (match self {
                NotificationStatus::Unread => 0i32,
                NotificationStatus::Read => 1i32,
            }),
    {
        match self {
            NotificationStatus::Unread => 0,
            NotificationStatus::Read => 1,
        }
    }

    /// The status a stored integer code denotes, if it denotes one.
    pub fn from_code(code: i32) -> (r: Option<NotificationStatus>)
        ensures
            code == 0 ==> r == Some(NotificationStatus::Unread),
            code == 1 ==> r == Some(NotificationStatus::Read),
            code != 0 && code != 1 ==> r is None,
    {
        if code == 0 {
            Some(NotificationStatus::Unread)
        } else if code == 1 {
            Some(NotificationStatus::Read)
        } else {
            None
        }
    }
}

} // verus!
