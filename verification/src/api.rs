use vstd::prelude::*;
use vstd::rwlock::{RwLock, RwLockPredicate};
use vstd::string::StringExecFns;
use crate::entities::{KVStore, Matter, NotificationRecord, RepeatTask, Tag, Todo};
use crate::errors::DbError;
use crate::sql::{exec_sql, open_file_connection, open_memory_connection, query_sql, SqlValue};
use crate::store::Database;
use crate::time::Timestamp;

verus! {

/// The lock invariant of the connection guard: whatever state the lock
/// hands out is a well-formed store.
pub struct DbPred {}

impl RwLockPredicate<Database> for DbPred {
    open spec fn inv(self, db: Database) -> bool {
        db.wf()
    }
}

/// The single shared point of access to the store. Any number of readers
/// may hold it concurrently; a mutator holds it exclusively for the span
/// of one operation. The lock cannot be poisoned, so `InternalLockError`
/// is never produced by this guard; the variant remains for callers that
/// match on the full error taxonomy.
pub struct SafeConnection {
    pub(crate) lock: RwLock<Database, DbPred>,
}

impl SafeConnection {
    /// Wraps a well-formed store for shared, concurrent access.
    pub fn new(db: Database) -> (r: SafeConnection)
        requires
            db.wf(),
    {
        SafeConnection { lock: RwLock::new(db, Ghost(DbPred {  })) }
    }
}

// ---------------------------------------------------------------------------
// Schema
// ---------------------------------------------------------------------------

/// The schema version the initializer establishes; versioned migrations
/// hang off this constant once a second version exists.
pub const CURRENT_DB_VERSION: u32 = 1;

const CREATE_MATTER_SQL: &'static str =
    "CREATE TABLE IF NOT EXISTS matter (\n id TEXT PRIMARY KEY,\n title TEXT NOT NULL,\n description TEXT DEFAULT '',\n tags TEXT DEFAULT '',\n start_time BIGINT NOT NULL,\n end_time BIGINT NOT NULL,\n priority INTEGER DEFAULT 0,\n type INTEGER DEFAULT 0,\n created_at BIGINT NOT NULL,\n updated_at BIGINT NOT NULL,\n reserved_1 TEXT DEFAULT '',\n reserved_2 TEXT DEFAULT '',\n reserved_3 TEXT DEFAULT '',\n reserved_4 TEXT DEFAULT '',\n reserved_5 TEXT DEFAULT ''\n)";

const CREATE_KVSTORE_SQL: &'static str =
    "CREATE TABLE IF NOT EXISTS kvstore (\n key TEXT PRIMARY KEY,\n value TEXT DEFAULT '',\n created_at BIGINT NOT NULL,\n updated_at BIGINT NOT NULL\n)";

const CREATE_TAGS_SQL: &'static str =
    "CREATE TABLE IF NOT EXISTS tags (\n name TEXT PRIMARY KEY,\n created_at BIGINT NOT NULL,\n last_used_at BIGINT NOT NULL\n)";

const CREATE_MATTER_INDEX_SQL: &'static str =
    "CREATE INDEX IF NOT EXISTS idx_matter_time ON matter(start_time, end_time)";

const CREATE_REPEAT_TASK_SQL: &'static str =
    "CREATE TABLE IF NOT EXISTS repeat_task (\n id TEXT PRIMARY KEY,\n title TEXT NOT NULL,\n tags TEXT DEFAULT '',\n repeat_time TEXT NOT NULL,\n status INTEGER DEFAULT 1,\n created_at BIGINT NOT NULL,\n updated_at BIGINT NOT NULL,\n priority INTEGER DEFAULT 0,\n description TEXT DEFAULT ''\n)";

const CREATE_TODO_SQL: &'static str =
    "CREATE TABLE IF NOT EXISTS todo (\n id TEXT PRIMARY KEY,\n title TEXT NOT NULL,\n status TEXT NOT NULL,\n created_at BIGINT NOT NULL,\n updated_at BIGINT NOT NULL\n)";

const CREATE_NOTIFICATION_SQL: &'static str =
    "CREATE TABLE IF NOT EXISTS notification_records (\n id TEXT PRIMARY KEY,\n title TEXT NOT NULL,\n content TEXT NOT NULL,\n type INTEGER NOT NULL,\n status INTEGER NOT NULL DEFAULT 0,\n related_task_id TEXT,\n created_at BIGINT NOT NULL,\n read_at BIGINT,\n expire_at BIGINT,\n action_url TEXT,\n reserved_1 TEXT,\n reserved_2 TEXT,\n reserved_3 TEXT,\n reserved_4 TEXT,\n reserved_5 TEXT\n)";

// ---------------------------------------------------------------------------
// Row encoding and decoding
// ---------------------------------------------------------------------------

/// The engine value an optional text column is bound to: the text, or
/// `NULL` when the field is absent.
pub open spec fn sql_of_opt_text(o: Option<String>) -> SqlValue {
    match o {
        Some(s) => SqlValue::Text(s),
        None => SqlValue::Null,
    }
}

/// The engine value an optional instant column is bound to.
pub open spec fn sql_of_opt_ts(o: Option<Timestamp>) -> SqlValue {
    match o {
        Some(t) => SqlValue::Int(t.epoch_nanos),
        None => SqlValue::Null,
    }
}

/// The engine value holds exactly this text.
pub open spec fn sql_is_text(v: SqlValue, s: Seq<char>) -> bool {
    match v {
        SqlValue::Text(t) => t@ == s,
        _ => false,
    }
}

/// The text a stored column holds, if it holds text.
pub open spec fn text_of(v: SqlValue) -> Option<String> {
    match v {
        SqlValue::Text(s) => Some(s),
        _ => None,
    }
}

/// The optional text a stored column holds: `NULL` decodes to an absent
/// field, text to a present one, anything else is malformed.
pub open spec fn opt_text_of(v: SqlValue) -> Option<Option<String>> {
    match v {
        SqlValue::Text(s) => Some(Some(s)),
        SqlValue::Null => Some(None),
        _ => None,
    }
}

/// The instant a stored column holds, if it holds an integer.
pub open spec fn ts_of(v: SqlValue) -> Option<Timestamp> {
    match v {
        SqlValue::Int(n) => Some(Timestamp { epoch_nanos: n }),
        _ => None,
    }
}

/// The optional instant a stored column holds.
pub open spec fn opt_ts_of(v: SqlValue) -> Option<Option<Timestamp>> {
    match v {
        SqlValue::Int(n) => Some(Some(Timestamp { epoch_nanos: n })),
        SqlValue::Null => Some(None),
        _ => None,
    }
}

/// The 32-bit integer a stored column holds, if it holds one in range.
pub open spec fn i32_of(v: SqlValue) -> Option<i32> {
    match v {
        SqlValue::Int(n) => if -2147483648 <= n && n <= 2147483647 {
            Some(n as i32)
        } else {
            None
        },
        _ => None,
    }
}

fn enc_text(s: &String) -> (r: SqlValue)
    ensures
        r == SqlValue::Text(*s),
{
    SqlValue::Text(s.clone())
}

fn enc_opt_text(s: &Option<String>) -> (r: SqlValue)
    ensures
        r == sql_of_opt_text(*s),
{
    match s {
        Some(t) => SqlValue::Text(t.clone()),
        None => SqlValue::Null,
    }
}

fn enc_ts(t: Timestamp) -> (r: SqlValue)
    ensures
        r == SqlValue::Int(t.epoch_nanos),
{
    SqlValue::Int(t.epoch_nanos)
}

fn enc_opt_ts(t: &Option<Timestamp>) -> (r: SqlValue)
    ensures
        r == sql_of_opt_ts(*t),
{
    match t {
        Some(x) => SqlValue::Int(x.epoch_nanos),
        None => SqlValue::Null,
    }
}

fn enc_i32(v: i32) -> (r: SqlValue)
    ensures
        r == SqlValue::Int(v as i64),
{
    SqlValue::Int(v as i64)
}

fn dec_text(v: &SqlValue) -> (r: Option<String>)
    ensures
        r == text_of(*v),
{
    match v {
        SqlValue::Text(s) => Some(s.clone()),
        _ => None,
    }
}

fn dec_opt_text(v: &SqlValue) -> (r: Option<Option<String>>)
    ensures
        r == opt_text_of(*v),
{
    match v {
        SqlValue::Text(s) => Some(Some(s.clone())),
        SqlValue::Null => Some(None),
        _ => None,
    }
}

fn dec_ts(v: &SqlValue) -> (r: Option<Timestamp>)
    ensures
        r == ts_of(*v),
{
    match v {
        SqlValue::Int(n) => Some(Timestamp { epoch_nanos: *n }),
        _ => None,
    }
}

fn dec_opt_ts(v: &SqlValue) -> (r: Option<Option<Timestamp>>)
    ensures
        r == opt_ts_of(*v),
{
    match v {
        SqlValue::Int(n) => Some(Some(Timestamp { epoch_nanos: *n })),
        SqlValue::Null => Some(None),
        _ => None,
    }
}

fn dec_i32(v: &SqlValue) -> (r: Option<i32>)
    ensures
        r == i32_of(*v),
{
    match v {
        SqlValue::Int(n) => {
            if *n >= -2147483648 && *n <= 2147483647 {
                Some(*n as i32)
            } else {
                None
            }
        },
        _ => None,
    }
}

/// The parameter vector of the event insert: one value per column, in
/// statement order.
pub(crate) fn encode_matter(m: &Matter) -> (r: Vec<SqlValue>)
    ensures
        r@.len() == 15,
        r@[0] == SqlValue::Text(m.id),
        r@[1] == SqlValue::Text(m.title),
        r@[2] == sql_of_opt_text(m.description),
        r@[3] == sql_of_opt_text(m.tags),
        r@[4] == SqlValue::Int(m.start_time.epoch_nanos),
        r@[5] == SqlValue::Int(m.end_time.epoch_nanos),
        r@[6] == SqlValue::Int(m.priority as i64),
        r@[7] == SqlValue::Int(m.type_ as i64),
        r@[8] == SqlValue::Int(m.created_at.epoch_nanos),
        r@[9] == SqlValue::Int(m.updated_at.epoch_nanos),
        r@[10] == sql_of_opt_text(m.reserved_1),
        r@[11] == sql_of_opt_text(m.reserved_2),
        r@[12] == sql_of_opt_text(m.reserved_3),
        r@[13] == sql_of_opt_text(m.reserved_4),
        r@[14] == sql_of_opt_text(m.reserved_5),
{
    let mut p: Vec<SqlValue> = Vec::new();
    p.push(enc_text(&m.id));
    p.push(enc_text(&m.title));
    p.push(enc_opt_text(&m.description));
    p.push(enc_opt_text(&m.tags));
    p.push(enc_ts(m.start_time));
    p.push(enc_ts(m.end_time));
    p.push(enc_i32(m.priority));
    p.push(enc_i32(m.type_));
    p.push(enc_ts(m.created_at));
    p.push(enc_ts(m.updated_at));
    p.push(enc_opt_text(&m.reserved_1));
    p.push(enc_opt_text(&m.reserved_2));
    p.push(enc_opt_text(&m.reserved_3));
    p.push(enc_opt_text(&m.reserved_4));
    p.push(enc_opt_text(&m.reserved_5));
    p
}

fn decode_matter(row: &Vec<SqlValue>) -> (r: Option<Matter>)
    ensures
        r is Some <==> row@.len() == 15 && text_of(row@[0]) is Some && text_of(row@[1]) is Some
            && opt_text_of(row@[2]) is Some && opt_text_of(row@[3]) is Some && ts_of(row@[4])
            is Some && ts_of(row@[5]) is Some && i32_of(row@[6]) is Some && i32_of(row@[7])
            is Some && ts_of(row@[8]) is Some && ts_of(row@[9]) is Some && opt_text_of(row@[10])
            is Some && opt_text_of(row@[11]) is Some && opt_text_of(row@[12]) is Some
            && opt_text_of(row@[13]) is Some && opt_text_of(row@[14]) is Some,
        r is Some ==> r.unwrap() == (Matter {
            id: text_of(row@[0]).unwrap(),
            title: text_of(row@[1]).unwrap(),
            description: opt_text_of(row@[2]).unwrap(),
            tags: opt_text_of(row@[3]).unwrap(),
            start_time: ts_of(row@[4]).unwrap(),
            end_time: ts_of(row@[5]).unwrap(),
            priority: i32_of(row@[6]).unwrap(),
            type_: i32_of(row@[7]).unwrap(),
            created_at: ts_of(row@[8]).unwrap(),
            updated_at: ts_of(row@[9]).unwrap(),
            reserved_1: opt_text_of(row@[10]).unwrap(),
            reserved_2: opt_text_of(row@[11]).unwrap(),
            reserved_3: opt_text_of(row@[12]).unwrap(),
            reserved_4: opt_text_of(row@[13]).unwrap(),
            reserved_5: opt_text_of(row@[14]).unwrap(),
        }),
{
    if row.len() != 15 {
        return None;
    }
    let id = dec_text(&row[0])?;
    let title = dec_text(&row[1])?;
    let description = dec_opt_text(&row[2])?;
    let tags = dec_opt_text(&row[3])?;
    let start_time = dec_ts(&row[4])?;
    let end_time = dec_ts(&row[5])?;
    let priority = dec_i32(&row[6])?;
    let type_ = dec_i32(&row[7])?;
    let created_at = dec_ts(&row[8])?;
    let updated_at = dec_ts(&row[9])?;
    let reserved_1 = dec_opt_text(&row[10])?;
    let reserved_2 = dec_opt_text(&row[11])?;
    let reserved_3 = dec_opt_text(&row[12])?;
    let reserved_4 = dec_opt_text(&row[13])?;
    let reserved_5 = dec_opt_text(&row[14])?;
    Some(
        Matter {
            id,
            title,
            description,
            tags,
            start_time,
            end_time,
            priority,
            type_,
            created_at,
            updated_at,
            reserved_1,
            reserved_2,
            reserved_3,
            reserved_4,
            reserved_5,
        },
    )
}

/// The parameter vector of the key-value upsert: key, value, instant.
pub(crate) fn encode_kv(key: &str, value: &str, now: Timestamp) -> (r: Vec<SqlValue>)
    ensures
        r@.len() == 3,
        sql_is_text(r@[0], key@),
        sql_is_text(r@[1], value@),
        r@[2] == SqlValue::Int(now.epoch_nanos),
{
    let mut p: Vec<SqlValue> = Vec::new();
    p.push(SqlValue::Text(String::from_str(key)));
    p.push(SqlValue::Text(String::from_str(value)));
    p.push(enc_ts(now));
    p
}

fn decode_kv(row: &Vec<SqlValue>) -> (r: Option<KVStore>)
    ensures
        r is Some <==> row@.len() == 4 && text_of(row@[0]) is Some && text_of(row@[1]) is Some
            && ts_of(row@[2]) is Some && ts_of(row@[3]) is Some,
        r is Some ==> r.unwrap() == (KVStore {
            key: text_of(row@[0]).unwrap(),
            value: text_of(row@[1]).unwrap(),
            created_at: ts_of(row@[2]).unwrap(),
            updated_at: ts_of(row@[3]).unwrap(),
        }),
{
    if row.len() != 4 {
        return None;
    }
    let key = dec_text(&row[0])?;
    let value = dec_text(&row[1])?;
    let created_at = dec_ts(&row[2])?;
    let updated_at = dec_ts(&row[3])?;
    Some(KVStore { key, value, created_at, updated_at })
}

fn decode_tag(row: &Vec<SqlValue>) -> (r: Option<Tag>)
    ensures
        r is Some <==> row@.len() == 3 && text_of(row@[0]) is Some && ts_of(row@[1]) is Some
            && ts_of(row@[2]) is Some,
        r is Some ==> r.unwrap() == (Tag {
            name: text_of(row@[0]).unwrap(),
            created_at: ts_of(row@[1]).unwrap(),
            last_used_at: ts_of(row@[2]).unwrap(),
        }),
{
    if row.len() != 3 {
        return None;
    }
    let name = dec_text(&row[0])?;
    let created_at = dec_ts(&row[1])?;
    let last_used_at = dec_ts(&row[2])?;
    Some(Tag { name, created_at, last_used_at })
}

/// The parameter vector of the recurring-task insert, in statement order.
pub(crate) fn encode_task(t: &RepeatTask) -> (r: Vec<SqlValue>)
    ensures
        r@.len() == 9,
        r@[0] == SqlValue::Text(t.id),
        r@[1] == SqlValue::Text(t.title),
        r@[2] == sql_of_opt_text(t.tags),
        r@[3] == SqlValue::Text(t.repeat_time),
        r@[4] == SqlValue::Int(t.status as i64),
        r@[5] == SqlValue::Int(t.created_at.epoch_nanos),
        r@[6] == SqlValue::Int(t.updated_at.epoch_nanos),
        r@[7] == SqlValue::Int(t.priority as i64),
        r@[8] == sql_of_opt_text(t.description),
{
    let mut p: Vec<SqlValue> = Vec::new();
    p.push(enc_text(&t.id));
    p.push(enc_text(&t.title));
    p.push(enc_opt_text(&t.tags));
    p.push(enc_text(&t.repeat_time));
    p.push(enc_i32(t.status));
    p.push(enc_ts(t.created_at));
    p.push(enc_ts(t.updated_at));
    p.push(enc_i32(t.priority));
    p.push(enc_opt_text(&t.description));
    p
}

fn decode_task(row: &Vec<SqlValue>) -> (r: Option<RepeatTask>)
    ensures
        r is Some <==> row@.len() == 9 && text_of(row@[0]) is Some && text_of(row@[1]) is Some
            && opt_text_of(row@[2]) is Some && text_of(row@[3]) is Some && i32_of(row@[4])
            is Some && ts_of(row@[5]) is Some && ts_of(row@[6]) is Some && i32_of(row@[7])
            is Some && opt_text_of(row@[8]) is Some,
        r is Some ==> r.unwrap() == (RepeatTask {
            id: text_of(row@[0]).unwrap(),
            title: text_of(row@[1]).unwrap(),
            tags: opt_text_of(row@[2]).unwrap(),
            repeat_time: text_of(row@[3]).unwrap(),
            status: i32_of(row@[4]).unwrap(),
            created_at: ts_of(row@[5]).unwrap(),
            updated_at: ts_of(row@[6]).unwrap(),
            priority: i32_of(row@[7]).unwrap(),
            description: opt_text_of(row@[8]).unwrap(),
        }),
{
    if row.len() != 9 {
        return None;
    }
    let id = dec_text(&row[0])?;
    let title = dec_text(&row[1])?;
    let tags = dec_opt_text(&row[2])?;
    let repeat_time = dec_text(&row[3])?;
    let status = dec_i32(&row[4])?;
    let created_at = dec_ts(&row[5])?;
    let updated_at = dec_ts(&row[6])?;
    let priority = dec_i32(&row[7])?;
    let description = dec_opt_text(&row[8])?;
    Some(
        RepeatTask {
            id,
            title,
            tags,
            repeat_time,
            status,
            created_at,
            updated_at,
            priority,
            description,
        },
    )
}

/// The parameter vector of the todo insert, in statement order.
pub(crate) fn encode_todo(t: &Todo) -> (r: Vec<SqlValue>)
    ensures
        r@.len() == 5,
        r@[0] == SqlValue::Text(t.id),
        r@[1] == SqlValue::Text(t.title),
        r@[2] == SqlValue::Text(t.status),
        r@[3] == SqlValue::Int(t.created_at.epoch_nanos),
        r@[4] == SqlValue::Int(t.updated_at.epoch_nanos),
{
    let mut p: Vec<SqlValue> = Vec::new();
    p.push(enc_text(&t.id));
    p.push(enc_text(&t.title));
    p.push(enc_text(&t.status));
    p.push(enc_ts(t.created_at));
    p.push(enc_ts(t.updated_at));
    p
}

fn decode_todo(row: &Vec<SqlValue>) -> (r: Option<Todo>)
    ensures
        r is Some <==> row@.len() == 5 && text_of(row@[0]) is Some && text_of(row@[1]) is Some
            && text_of(row@[2]) is Some && ts_of(row@[3]) is Some && ts_of(row@[4]) is Some,
        r is Some ==> r.unwrap() == (Todo {
            id: text_of(row@[0]).unwrap(),
            title: text_of(row@[1]).unwrap(),
            status: text_of(row@[2]).unwrap(),
            created_at: ts_of(row@[3]).unwrap(),
            updated_at: ts_of(row@[4]).unwrap(),
        }),
{
    if row.len() != 5 {
        return None;
    }
    let id = dec_text(&row[0])?;
    let title = dec_text(&row[1])?;
    let status = dec_text(&row[2])?;
    let created_at = dec_ts(&row[3])?;
    let updated_at = dec_ts(&row[4])?;
    Some(Todo { id, title, status, created_at, updated_at })
}

/// The parameter vector of the notification insert, in statement order.
pub(crate) fn encode_note(m: &NotificationRecord) -> (r: Vec<SqlValue>)
    ensures
        r@.len() == 15,
        r@[0] == SqlValue::Text(m.id),
        r@[1] == SqlValue::Text(m.title),
        r@[2] == SqlValue::Text(m.content),
        r@[3] == SqlValue::Int(m.type_ as i64),
        r@[4] == SqlValue::Int(m.status as i64),
        r@[5] == sql_of_opt_text(m.related_task_id),
        r@[6] == SqlValue::Int(m.created_at.epoch_nanos),
        r@[7] == sql_of_opt_ts(m.read_at),
        r@[8] == sql_of_opt_ts(m.expire_at),
        r@[9] == sql_of_opt_text(m.action_url),
        r@[10] == sql_of_opt_text(m.reserved_1),
        r@[11] == sql_of_opt_text(m.reserved_2),
        r@[12] == sql_of_opt_text(m.reserved_3),
        r@[13] == sql_of_opt_text(m.reserved_4),
        r@[14] == sql_of_opt_text(m.reserved_5),
{
    let mut p: Vec<SqlValue> = Vec::new();
    p.push(enc_text(&m.id));
    p.push(enc_text(&m.title));
    p.push(enc_text(&m.content));
    p.push(enc_i32(m.type_));
    p.push(enc_i32(m.status));
    p.push(enc_opt_text(&m.related_task_id));
    p.push(enc_ts(m.created_at));
    p.push(enc_opt_ts(&m.read_at));
    p.push(enc_opt_ts(&m.expire_at));
    p.push(enc_opt_text(&m.action_url));
    p.push(enc_opt_text(&m.reserved_1));
    p.push(enc_opt_text(&m.reserved_2));
    p.push(enc_opt_text(&m.reserved_3));
    p.push(enc_opt_text(&m.reserved_4));
    p.push(enc_opt_text(&m.reserved_5));
    p
}

fn decode_note(row: &Vec<SqlValue>) -> (r: Option<NotificationRecord>)
    ensures
        r is Some <==> row@.len() == 15 && text_of(row@[0]) is Some && text_of(row@[1]) is Some
            && text_of(row@[2]) is Some && i32_of(row@[3]) is Some && i32_of(row@[4]) is Some
            && opt_text_of(row@[5]) is Some && ts_of(row@[6]) is Some && opt_ts_of(row@[7])
            is Some && opt_ts_of(row@[8]) is Some && opt_text_of(row@[9]) is Some && opt_text_of(
            row@[10],
        ) is Some && opt_text_of(row@[11]) is Some && opt_text_of(row@[12]) is Some
            && opt_text_of(row@[13]) is Some && opt_text_of(row@[14]) is Some,
        r is Some ==> r.unwrap() == (NotificationRecord {
            id: text_of(row@[0]).unwrap(),
            title: text_of(row@[1]).unwrap(),
            content: text_of(row@[2]).unwrap(),
            type_: i32_of(row@[3]).unwrap(),
            status: i32_of(row@[4]).unwrap(),
            related_task_id: opt_text_of(row@[5]).unwrap(),
            created_at: ts_of(row@[6]).unwrap(),
            read_at: opt_ts_of(row@[7]).unwrap(),
            expire_at: opt_ts_of(row@[8]).unwrap(),
            action_url: opt_text_of(row@[9]).unwrap(),
            reserved_1: opt_text_of(row@[10]).unwrap(),
            reserved_2: opt_text_of(row@[11]).unwrap(),
            reserved_3: opt_text_of(row@[12]).unwrap(),
            reserved_4: opt_text_of(row@[13]).unwrap(),
            reserved_5: opt_text_of(row@[14]).unwrap(),
        }),
{
    if row.len() != 15 {
        return None;
    }
    let id = dec_text(&row[0])?;
    let title = dec_text(&row[1])?;
    let content = dec_text(&row[2])?;
    let type_ = dec_i32(&row[3])?;
    let status = dec_i32(&row[4])?;
    let related_task_id = dec_opt_text(&row[5])?;
    let created_at = dec_ts(&row[6])?;
    let read_at = dec_opt_ts(&row[7])?;
    let expire_at = dec_opt_ts(&row[8])?;
    let action_url = dec_opt_text(&row[9])?;
    let reserved_1 = dec_opt_text(&row[10])?;
    let reserved_2 = dec_opt_text(&row[11])?;
    let reserved_3 = dec_opt_text(&row[12])?;
    let reserved_4 = dec_opt_text(&row[13])?;
    let reserved_5 = dec_opt_text(&row[14])?;
    Some(
        NotificationRecord {
            id,
            title,
            content,
            type_,
            status,
            related_task_id,
            created_at,
            read_at,
            expire_at,
            action_url,
            reserved_1,
            reserved_2,
            reserved_3,
            reserved_4,
            reserved_5,
        },
    )
}

// ---------------------------------------------------------------------------
// Initialization
// ---------------------------------------------------------------------------

fn engine_err(msg: String) -> (r: DbError)
    ensures
        r == DbError::StorageEngine(msg),
{
    DbError::StorageEngine(msg)
}

fn corrupt_err() -> (r: DbError)
    ensures
        r is StorageEngine,
{
    DbError::StorageEngine(String::from_str("malformed row in database file"))
}

fn init_schema(conn: &rusqlite::Connection) -> (r: Result<(), DbError>)
    ensures
        (match r {
            Ok(u) => true,
            Err(e) => e is StorageEngine,
        }),
{
    if let Err(e) = exec_sql(conn, CREATE_MATTER_SQL, Vec::new()) {
        return Err(engine_err(e));
    }
    if let Err(e) = exec_sql(conn, CREATE_KVSTORE_SQL, Vec::new()) {
        return Err(engine_err(e));
    }
    if let Err(e) = exec_sql(conn, CREATE_TAGS_SQL, Vec::new()) {
        return Err(engine_err(e));
    }
    if let Err(e) = exec_sql(conn, CREATE_MATTER_INDEX_SQL, Vec::new()) {
        return Err(engine_err(e));
    }
    if let Err(e) = exec_sql(conn, CREATE_REPEAT_TASK_SQL, Vec::new()) {
        return Err(engine_err(e));
    }
    if let Err(e) = exec_sql(conn, CREATE_TODO_SQL, Vec::new()) {
        return Err(engine_err(e));
    }
    if let Err(e) = exec_sql(conn, CREATE_NOTIFICATION_SQL, Vec::new()) {
        return Err(engine_err(e));
    }
    Ok(())
}

/// Rebuilds the well-formed in-memory state from whatever the engine file
/// holds, rejecting malformed rows and duplicate keys as a storage-engine
/// failure, and attaches the connection for mirroring.
fn load_database(conn: rusqlite::Connection) -> (r: Result<Database, DbError>)
    ensures
        r is Ok ==> r.unwrap().wf(),
        (match r {
            Ok(u) => true,
            Err(e) => e is StorageEngine,
        }),
{
    let mut db = Database::new();
    let matter_rows = match query_sql(&conn, "SELECT * FROM matter") {
        Ok(v) => v,
        Err(e) => {
            return Err(engine_err(e));
        },
    };
    let mut i: usize = 0;
    while i < matter_rows.len()
        invariant
            db.wf(),
        decreases matter_rows.len() - i,
    {
        match decode_matter(&matter_rows[i]) {
            Some(m) => {
                if db.create_matter(&m).is_err() {
                    return Err(corrupt_err());
                }
            },
            None => {
                return Err(corrupt_err());
            },
        }
        i = i + 1;
    }
    let kv_rows = match query_sql(&conn, "SELECT * FROM kvstore") {
        Ok(v) => v,
        Err(e) => {
            return Err(engine_err(e));
        },
    };
    let mut i: usize = 0;
    while i < kv_rows.len()
        invariant
            db.wf(),
        decreases kv_rows.len() - i,
    {
        match decode_kv(&kv_rows[i]) {
            Some(e) => {
                if db.insert_kv_row(e).is_err() {
                    return Err(corrupt_err());
                }
            },
            None => {
                return Err(corrupt_err());
            },
        }
        i = i + 1;
    }
    let tag_rows = match query_sql(&conn, "SELECT * FROM tags") {
        Ok(v) => v,
        Err(e) => {
            return Err(engine_err(e));
        },
    };
    let mut i: usize = 0;
    while i < tag_rows.len()
        invariant
            db.wf(),
        decreases tag_rows.len() - i,
    {
        match decode_tag(&tag_rows[i]) {
            Some(t) => {
                if db.insert_tag_row(t).is_err() {
                    return Err(corrupt_err());
                }
            },
            None => {
                return Err(corrupt_err());
            },
        }
        i = i + 1;
    }
    let task_rows = match query_sql(&conn, "SELECT * FROM repeat_task") {
        Ok(v) => v,
        Err(e) => {
            return Err(engine_err(e));
        },
    };
    let mut i: usize = 0;
    while i < task_rows.len()
        invariant
            db.wf(),
        decreases task_rows.len() - i,
    {
        match decode_task(&task_rows[i]) {
            Some(t) => {
                if db.create_task(&t).is_err() {
                    return Err(corrupt_err());
                }
            },
            None => {
                return Err(corrupt_err());
            },
        }
        i = i + 1;
    }
    let todo_rows = match query_sql(&conn, "SELECT * FROM todo") {
        Ok(v) => v,
        Err(e) => {
            return Err(engine_err(e));
        },
    };
    let mut i: usize = 0;
    while i < todo_rows.len()
        invariant
            db.wf(),
        decreases todo_rows.len() - i,
    {
        match decode_todo(&todo_rows[i]) {
            Some(t) => {
                if db.create_todo(&t).is_err() {
                    return Err(corrupt_err());
                }
            },
            None => {
                return Err(corrupt_err());
            },
        }
        i = i + 1;
    }
    let note_rows = match query_sql(&conn, "SELECT * FROM notification_records") {
        Ok(v) => v,
        Err(e) => {
            return Err(engine_err(e));
        },
    };
    let mut i: usize = 0;
    while i < note_rows.len()
        invariant
            db.wf(),
        decreases note_rows.len() - i,
    {
        match decode_note(&note_rows[i]) {
            Some(m) => {
                if db.create_note(&m).is_err() {
                    return Err(corrupt_err());
                }
            },
            None => {
                return Err(corrupt_err());
            },
        }
        i = i + 1;
    }
    db.attach_connection(conn);
    Ok(db)
}

/// Opens (or creates) the backing file `fates.db` under the given data
/// directory, establishes the schema idempotently, loads the stored rows
/// and returns the ready-to-use connection guard.
pub fn initialize_database(data_dir: &str) -> (r: Result<SafeConnection, DbError>)
    ensures
        (match r {
            Ok(u) => true,
            Err(e) => e is StorageEngine,
        }),
{
    let conn = match open_file_connection(data_dir) {
        Ok(c) => c,
        Err(e) => {
            return Err(engine_err(e));
        },
    };
    if let Err(e) = init_schema(&conn) {
        return Err(e);
    }
    let db = match load_database(conn) {
        Ok(d) => d,
        Err(e) => {
            return Err(e);
        },
    };
    Ok(SafeConnection::new(db))
}

/// An in-memory store with the same schema and behaviour, but no durable
/// file; every process start begins empty.
pub fn initialize_database_in_memory() -> (r: Result<SafeConnection, DbError>)
    ensures
        (match r {
            Ok(u) => true,
            Err(e) => e is StorageEngine,
        }),
{
    let conn = match open_memory_connection() {
        Ok(c) => c,
        Err(e) => {
            return Err(engine_err(e));
        },
    };
    if let Err(e) = init_schema(&conn) {
        return Err(e);
    }
    let db = match load_database(conn) {
        Ok(d) => d,
        Err(e) => {
            return Err(e);
        },
    };
    Ok(SafeConnection::new(db))
}

// ---------------------------------------------------------------------------
// Mirror statements
// ---------------------------------------------------------------------------

const MATTER_INSERT_SQL: &'static str =
    "INSERT INTO matter (
 id, title, description, tags, start_time, end_time,
 priority, type, created_at, updated_at,
 reserved_1, reserved_2, reserved_3, reserved_4, reserved_5
) VALUES (
 ?1, ?2, ?3, ?4, ?5, ?6, ?7, ?8, ?9, ?10, ?11, ?12, ?13, ?14, ?15
)";

const MATTER_UPDATE_SQL: &'static str =
    "UPDATE matter SET
 title = ?1, description = ?2, tags = ?3,
 start_time = ?4, end_time = ?5, priority = ?6,
 type = ?7, updated_at = ?8,
 reserved_1 = ?9, reserved_2 = ?10, reserved_3 = ?11,
 reserved_4 = ?12, reserved_5 = ?13
 WHERE id = ?14";

const MATTER_DELETE_SQL: &'static str = "DELETE FROM matter WHERE id = ?1";

const KV_SET_SQL: &'static str =
    "INSERT INTO kvstore (key, value, created_at, updated_at)
 VALUES (?1, ?2, ?3, ?3)
 ON CONFLICT(key) DO UPDATE SET
 value = ?2, updated_at = ?3";

const KV_DELETE_SQL: &'static str = "DELETE FROM kvstore WHERE key = ?1";

const TAG_INSERT_SQL: &'static str =
    "INSERT OR IGNORE INTO tags (name, created_at, last_used_at) VALUES (?1, ?2, ?3)";

const TAG_TOUCH_SQL: &'static str = "UPDATE tags SET last_used_at = ?1 WHERE name = ?2";

const TAG_DELETE_SQL: &'static str = "DELETE FROM tags WHERE name = ?1";

const TASK_INSERT_SQL: &'static str =
    "INSERT INTO repeat_task (
 id, title, tags, repeat_time, status,
 created_at, updated_at, priority, description
) VALUES (
 ?1, ?2, ?3, ?4, ?5, ?6, ?7, ?8, ?9
)";

const TASK_UPDATE_SQL: &'static str =
    "UPDATE repeat_task SET
 title = ?1,
 tags = ?2,
 repeat_time = ?3,
 status = ?4,
 updated_at = ?5,
 priority = ?6,
 description = ?7
 WHERE id = ?8";

const TASK_DELETE_SQL: &'static str = "DELETE FROM repeat_task WHERE id = ?1";

const TASK_STATUS_SQL: &'static str =
    "UPDATE repeat_task SET status = ?1, updated_at = ?2 WHERE id = ?3";

const TODO_INSERT_SQL: &'static str =
    "INSERT INTO todo (id, title, status, created_at, updated_at)
 VALUES (?1, ?2, ?3, ?4, ?5)";

const TODO_UPDATE_SQL: &'static str =
    "UPDATE todo SET
 title = ?1,
 status = ?2,
 updated_at = ?3
 WHERE id = ?4";

const TODO_DELETE_SQL: &'static str = "DELETE FROM todo WHERE id = ?1";

const NOTE_INSERT_SQL: &'static str =
    "INSERT INTO notification_records (
 id, title, content, type, status, related_task_id,
 created_at, read_at, expire_at, action_url,
 reserved_1, reserved_2, reserved_3, reserved_4, reserved_5
) VALUES (
 ?1, ?2, ?3, ?4, ?5, ?6, ?7, ?8, ?9, ?10, ?11, ?12, ?13, ?14, ?15
)";

const NOTE_UPDATE_SQL: &'static str =
    "UPDATE notification_records SET
 title = ?1,
 content = ?2,
 type = ?3,
 status = ?4,
 related_task_id = ?5,
 expire_at = ?6,
 action_url = ?7,
 reserved_1 = ?8,
 reserved_2 = ?9,
 reserved_3 = ?10,
 reserved_4 = ?11,
 reserved_5 = ?12
 WHERE id = ?13";

const NOTE_DELETE_SQL: &'static str = "DELETE FROM notification_records WHERE id = ?1";

const NOTE_MARK_SQL: &'static str =
    "UPDATE notification_records
 SET status = ?1, read_at = ?2
 WHERE id = ?3 AND status = 0";

const NOTE_MARK_TYPE_SQL: &'static str =
    "UPDATE notification_records SET status = ?1, read_at = ?2 WHERE type = ?3 AND status = 0";

const NOTE_MARK_ALL_SQL: &'static str =
    "UPDATE notification_records
 SET status = ?1, read_at = ?2
 WHERE status = 0";

/// Forwards one accepted mutation to the engine file, when a connection
/// is attached; without one the in-memory state is the whole store.
fn mirror_exec(db: &Database, sql: &str, params: Vec<SqlValue>) -> Result<(), String> {
    match db.connection() {
        Some(c) => match exec_sql(c, sql, params) {
            Ok(_) => Ok(()),
            Err(e) => Err(e),
        },
        None => Ok(()),
    }
}

fn one_text_param(v: &str) -> (r: Vec<SqlValue>)
    ensures
        r@.len() == 1,
        sql_is_text(r@[0], v@),
{
    let mut p: Vec<SqlValue> = Vec::new();
    p.push(SqlValue::Text(String::from_str(v)));
    p
}

/// The parameter vector of the event update: the mutable columns in
/// statement order, then the id the row is selected by.
fn encode_matter_update(m: &Matter) -> (r: Vec<SqlValue>)
    ensures
        r@.len() == 14,
        r@[0] == SqlValue::Text(m.title),
        r@[1] == sql_of_opt_text(m.description),
        r@[2] == sql_of_opt_text(m.tags),
        r@[3] == SqlValue::Int(m.start_time.epoch_nanos),
        r@[4] == SqlValue::Int(m.end_time.epoch_nanos),
        r@[5] == SqlValue::Int(m.priority as i64),
        r@[6] == SqlValue::Int(m.type_ as i64),
        r@[7] == SqlValue::Int(m.updated_at.epoch_nanos),
        r@[8] == sql_of_opt_text(m.reserved_1),
        r@[9] == sql_of_opt_text(m.reserved_2),
        r@[10] == sql_of_opt_text(m.reserved_3),
        r@[11] == sql_of_opt_text(m.reserved_4),
        r@[12] == sql_of_opt_text(m.reserved_5),
        r@[13] == SqlValue::Text(m.id),
{
    let mut p: Vec<SqlValue> = Vec::new();
    p.push(enc_text(&m.title));
    p.push(enc_opt_text(&m.description));
    p.push(enc_opt_text(&m.tags));
    p.push(enc_ts(m.start_time));
    p.push(enc_ts(m.end_time));
    p.push(enc_i32(m.priority));
    p.push(enc_i32(m.type_));
    p.push(enc_ts(m.updated_at));
    p.push(enc_opt_text(&m.reserved_1));
    p.push(enc_opt_text(&m.reserved_2));
    p.push(enc_opt_text(&m.reserved_3));
    p.push(enc_opt_text(&m.reserved_4));
    p.push(enc_opt_text(&m.reserved_5));
    p.push(enc_text(&m.id));
    p
}

/// The parameter vector of the recurring-task update, id last.
fn encode_task_update(t: &RepeatTask) -> (r: Vec<SqlValue>)
    ensures
        r@.len() == 8,
        r@[0] == SqlValue::Text(t.title),
        r@[1] == sql_of_opt_text(t.tags),
        r@[2] == SqlValue::Text(t.repeat_time),
        r@[3] == SqlValue::Int(t.status as i64),
        r@[4] == SqlValue::Int(t.updated_at.epoch_nanos),
        r@[5] == SqlValue::Int(t.priority as i64),
        r@[6] == sql_of_opt_text(t.description),
        r@[7] == SqlValue::Text(t.id),
{
    let mut p: Vec<SqlValue> = Vec::new();
    p.push(enc_text(&t.title));
    p.push(enc_opt_text(&t.tags));
    p.push(enc_text(&t.repeat_time));
    p.push(enc_i32(t.status));
    p.push(enc_ts(t.updated_at));
    p.push(enc_i32(t.priority));
    p.push(enc_opt_text(&t.description));
    p.push(enc_text(&t.id));
    p
}

/// The parameter vector of the todo update, id last.
fn encode_todo_update(t: &Todo) -> (r: Vec<SqlValue>)
    ensures
        r@.len() == 4,
        r@[0] == SqlValue::Text(t.title),
        r@[1] == SqlValue::Text(t.status),
        r@[2] == SqlValue::Int(t.updated_at.epoch_nanos),
        r@[3] == SqlValue::Text(t.id),
{
    let mut p: Vec<SqlValue> = Vec::new();
    p.push(enc_text(&t.title));
    p.push(enc_text(&t.status));
    p.push(enc_ts(t.updated_at));
    p.push(enc_text(&t.id));
    p
}

/// The parameter vector of the notification update, id last.
fn encode_note_update(m: &NotificationRecord) -> (r: Vec<SqlValue>)
    ensures
        r@.len() == 13,
        r@[0] == SqlValue::Text(m.title),
        r@[1] == SqlValue::Text(m.content),
        r@[2] == SqlValue::Int(m.type_ as i64),
        r@[3] == SqlValue::Int(m.status as i64),
        r@[4] == sql_of_opt_text(m.related_task_id),
        r@[5] == sql_of_opt_ts(m.expire_at),
        r@[6] == sql_of_opt_text(m.action_url),
        r@[7] == sql_of_opt_text(m.reserved_1),
        r@[8] == sql_of_opt_text(m.reserved_2),
        r@[9] == sql_of_opt_text(m.reserved_3),
        r@[10] == sql_of_opt_text(m.reserved_4),
        r@[11] == sql_of_opt_text(m.reserved_5),
        r@[12] == SqlValue::Text(m.id),
{
    let mut p: Vec<SqlValue> = Vec::new();
    p.push(enc_text(&m.title));
    p.push(enc_text(&m.content));
    p.push(enc_i32(m.type_));
    p.push(enc_i32(m.status));
    p.push(enc_opt_text(&m.related_task_id));
    p.push(enc_opt_ts(&m.expire_at));
    p.push(enc_opt_text(&m.action_url));
    p.push(enc_opt_text(&m.reserved_1));
    p.push(enc_opt_text(&m.reserved_2));
    p.push(enc_opt_text(&m.reserved_3));
    p.push(enc_opt_text(&m.reserved_4));
    p.push(enc_opt_text(&m.reserved_5));
    p.push(enc_text(&m.id));
    p
}

/// The parameter vector of the idempotent tag insert: name, then both
/// instants stamped with the same moment.
fn encode_tag_insert(name: &str, now: Timestamp) -> (r: Vec<SqlValue>)
    ensures
        r@.len() == 3,
        sql_is_text(r@[0], name@),
        r@[1] == SqlValue::Int(now.epoch_nanos),
        r@[2] == SqlValue::Int(now.epoch_nanos),
{
    let mut p: Vec<SqlValue> = Vec::new();
    p.push(SqlValue::Text(String::from_str(name)));
    p.push(enc_ts(now));
    p.push(enc_ts(now));
    p
}

/// The parameter vector of the tag last-used stamp: instant, then name.
fn encode_tag_touch(now: Timestamp, name: &str) -> (r: Vec<SqlValue>)
    ensures
        r@.len() == 2,
        r@[0] == SqlValue::Int(now.epoch_nanos),
        sql_is_text(r@[1], name@),
{
    let mut p: Vec<SqlValue> = Vec::new();
    p.push(enc_ts(now));
    p.push(SqlValue::Text(String::from_str(name)));
    p
}

/// The parameter vector of the partial status update: status, instant, id.
fn encode_task_status(new_status: i32, now: Timestamp, id: &str) -> (r: Vec<SqlValue>)
    ensures
        r@.len() == 3,
        r@[0] == SqlValue::Int(new_status as i64),
        r@[1] == SqlValue::Int(now.epoch_nanos),
        sql_is_text(r@[2], id@),
{
    let mut p: Vec<SqlValue> = Vec::new();
    p.push(enc_i32(new_status));
    p.push(enc_ts(now));
    p.push(SqlValue::Text(String::from_str(id)));
    p
}

/// The parameter vector of the single-row read mark: the read status
/// code, the read instant, and the id.
fn encode_mark_one(now: Timestamp, id: &str) -> (r: Vec<SqlValue>)
    ensures
        r@.len() == 3,
        r@[0] == SqlValue::Int(1),
        r@[1] == SqlValue::Int(now.epoch_nanos),
        sql_is_text(r@[2], id@),
{
    let mut p: Vec<SqlValue> = Vec::new();
    p.push(SqlValue::Int(1));
    p.push(enc_ts(now));
    p.push(SqlValue::Text(String::from_str(id)));
    p
}

/// The parameter vector of the by-type read mark.
fn encode_mark_type(now: Timestamp, type_: i32) -> (r: Vec<SqlValue>)
    ensures
        r@.len() == 3,
        r@[0] == SqlValue::Int(1),
        r@[1] == SqlValue::Int(now.epoch_nanos),
        r@[2] == SqlValue::Int(type_ as i64),
{
    let mut p: Vec<SqlValue> = Vec::new();
    p.push(SqlValue::Int(1));
    p.push(enc_ts(now));
    p.push(enc_i32(type_));
    p
}

/// The parameter vector of the mark-everything-read update.
fn encode_mark_all(now: Timestamp) -> (r: Vec<SqlValue>)
    ensures
        r@.len() == 2,
        r@[0] == SqlValue::Int(1),
        r@[1] == SqlValue::Int(now.epoch_nanos),
{
    let mut p: Vec<SqlValue> = Vec::new();
    p.push(SqlValue::Int(1));
    p.push(enc_ts(now));
    p
}

// ---------------------------------------------------------------------------
// Event repository
// ---------------------------------------------------------------------------

impl Matter {
    /// Inserts a new event; fails with `ConstraintViolation` when the id
    /// already exists, and with `StorageEngine` when the engine refuses
    /// the mirrored statement.
    pub fn create(conn: &SafeConnection, matter: &Matter) -> (r: Result<(), DbError>)
        ensures
            match r {
                Ok(u) => true,
                Err(e) => e == DbError::ConstraintViolation || e is StorageEngine,
            },
    {
        let (mut db, handle) = conn.lock.acquire_write();
        let r;
        if db.has_matter_key(matter.id.as_str()) {
            r = Err(DbError::ConstraintViolation);
        } else {
            match mirror_exec(&db, MATTER_INSERT_SQL, encode_matter(matter)) {
                Ok(_) => {
                    match db.create_matter(matter) {
                        Ok(_) => {
                            r = Ok(());
                        },
                        Err(e) => {
                            r = Err(e);
                        },
                    }
                },
                Err(msg) => {
                    r = Err(DbError::StorageEngine(msg));
                },
            }
        }
        handle.release_write(db);
        r
    }

    /// The stored event with the given id, or `None`; a missing row is
    /// not an error.
    pub fn get_by_id(conn: &SafeConnection, id: &str) -> (r: Result<Option<Matter>, DbError>)
        ensures
            r is Ok,
            r.unwrap() is Some ==> r.unwrap().unwrap().id@ == id@,
    {
        let handle = conn.lock.acquire_read();
        let found = handle.borrow().matter_by_id(id);
        handle.release_read();
        Ok(found)
    }

    /// Every stored event, ordered by start time ascending.
    pub fn get_all(conn: &SafeConnection) -> (r: Result<Vec<Matter>, DbError>)
        ensures
            r is Ok,
            crate::store::sorted_by_key(r.unwrap()@, |m: Matter| crate::store::matter_ord(m)),
    {
        let handle = conn.lock.acquire_read();
        let all = handle.borrow().all_matters();
        handle.release_read();
        Ok(all)
    }

    /// Every stored event whose interval overlaps `[start, end]`, ordered
    /// by start time ascending.
    pub fn get_by_time_range(conn: &SafeConnection, start: Timestamp, end: Timestamp) -> (r:
        Result<Vec<Matter>, DbError>)
        ensures
            r is Ok,
            crate::store::sorted_by_key(r.unwrap()@, |m: Matter| crate::store::matter_ord(m)),
            forall|k: int| 0 <= k < r.unwrap()@.len() ==> crate::store::overlaps(
                #[trigger] r.unwrap()@[k],
                start,
                end,
            ),
    {
        let handle = conn.lock.acquire_read();
        let found = handle.borrow().matters_in_range(start, end);
        handle.release_read();
        Ok(found)
    }

    /// Full-row update by id of all mutable columns; a missing id is a
    /// silent no-op.
    pub fn update(&self, conn: &SafeConnection) -> (r: Result<(), DbError>)
        ensures
            match r {
                Ok(u) => true,
                Err(e) => e is StorageEngine,
            },
    {
        let (mut db, handle) = conn.lock.acquire_write();
        let r;
        match mirror_exec(&db, MATTER_UPDATE_SQL, encode_matter_update(self)) {
            Ok(_) => {
                db.update_matter(self);
                r = Ok(());
            },
            Err(msg) => {
                r = Err(DbError::StorageEngine(msg));
            },
        }
        handle.release_write(db);
        r
    }

    /// Removes the event with the given id; deleting a missing id is not
    /// an error.
    pub fn delete(conn: &SafeConnection, id: &str) -> (r: Result<(), DbError>)
        ensures
            match r {
                Ok(u) => true,
                Err(e) => e is StorageEngine,
            },
    {
        let (mut db, handle) = conn.lock.acquire_write();
        let r;
        match mirror_exec(&db, MATTER_DELETE_SQL, one_text_param(id)) {
            Ok(_) => {
                db.delete_matter(id);
                r = Ok(());
            },
            Err(msg) => {
                r = Err(DbError::StorageEngine(msg));
            },
        }
        handle.release_write(db);
        r
    }

    /// Dynamic single-column filter over the chosen enumeration of
    /// queryable columns: the nine text columns (`id`, `title`,
    /// `description`, `tags`, `reserved_1` to `reserved_5`). A field name
    /// outside it — the numeric and instant columns included — fails with
    /// `MalformedQuery`.
    pub fn query_by_field(conn: &SafeConnection, field: &str, value: &str, exact_match: bool) -> (r:
        Result<Vec<Matter>, DbError>)
        ensures
            !crate::store::is_matter_text_field(field@) ==> r == Err::<Vec<Matter>, DbError>(
                DbError::MalformedQuery,
            ),
            crate::store::is_matter_text_field(field@) ==> r is Ok && crate::store::sorted_by_key(
                r.unwrap()@,
                |m: Matter| crate::store::matter_ord(m),
            ) && (forall|k: int| 0 <= k < r.unwrap()@.len() ==> crate::store::matches_matter_field(
                #[trigger] r.unwrap()@[k],
                field@,
                value@,
                exact_match,
            )),
    {
        let handle = conn.lock.acquire_read();
        let found = handle.borrow().matters_by_field(field, value, exact_match);
        handle.release_read();
        found
    }
}

// ---------------------------------------------------------------------------
// Key-value repository
// ---------------------------------------------------------------------------

impl KVStore {
    /// Upsert: creates the key or overwrites its value and update
    /// instant, preserving the creation instant of the first insert.
    pub fn set(conn: &SafeConnection, key: &str, value: &str) -> (r: Result<(), DbError>)
        ensures
            match r {
                Ok(u) => true,
                Err(e) => e is StorageEngine,
            },
    {
        let now = crate::time::now_timestamp();
        let (mut db, handle) = conn.lock.acquire_write();
        let r;
        match mirror_exec(&db, KV_SET_SQL, encode_kv(key, value, now)) {
            Ok(_) => {
                db.kv_set(key, value, now);
                r = Ok(());
            },
            Err(msg) => {
                r = Err(DbError::StorageEngine(msg));
            },
        }
        handle.release_write(db);
        r
    }

    /// The stored value for the key, or the supplied default when the key
    /// is absent; a missing key is never an error.
    pub fn get(conn: &SafeConnection, key: &str, default: &str) -> (r: Result<String, DbError>)
        ensures
            r is Ok,
    {
        let handle = conn.lock.acquire_read();
        let v = handle.borrow().kv_get(key, default);
        handle.release_read();
        Ok(v)
    }

    /// Removes the entry with the given key; deleting a missing key is
    /// not an error.
    pub fn delete(conn: &SafeConnection, key: &str) -> (r: Result<(), DbError>)
        ensures
            match r {
                Ok(u) => true,
                Err(e) => e is StorageEngine,
            },
    {
        let (mut db, handle) = conn.lock.acquire_write();
        let r;
        match mirror_exec(&db, KV_DELETE_SQL, one_text_param(key)) {
            Ok(_) => {
                db.kv_delete(key);
                r = Ok(());
            },
            Err(msg) => {
                r = Err(DbError::StorageEngine(msg));
            },
        }
        handle.release_write(db);
        r
    }
}

// ---------------------------------------------------------------------------
// Tag repository
// ---------------------------------------------------------------------------

impl Tag {
    /// Idempotent creation: inserting an existing name is a silent no-op,
    /// not an error.
    pub fn create(conn: &SafeConnection, name: &str) -> (r: Result<(), DbError>)
        ensures
            match r {
                Ok(u) => true,
                Err(e) => e is StorageEngine,
            },
    {
        let now = crate::time::now_timestamp();
        let (mut db, handle) = conn.lock.acquire_write();
        let r;
        match mirror_exec(&db, TAG_INSERT_SQL, encode_tag_insert(name, now)) {
            Ok(_) => {
                db.tag_create(name, now);
                r = Ok(());
            },
            Err(msg) => {
                r = Err(DbError::StorageEngine(msg));
            },
        }
        handle.release_write(db);
        r
    }

    /// Every stored tag, ordered by name ascending.
    pub fn get_all(conn: &SafeConnection) -> (r: Result<Vec<Tag>, DbError>)
        ensures
            r is Ok,
            crate::store::tags_sorted(r.unwrap()@),
    {
        let handle = conn.lock.acquire_read();
        let all = handle.borrow().tag_all();
        handle.release_read();
        Ok(all)
    }

    /// Stamps the tag's last-used instant to now; a missing name is a
    /// silent no-op.
    pub fn update_last_used_at(conn: &SafeConnection, name: &str) -> (r: Result<(), DbError>)
        ensures
            match r {
                Ok(u) => true,
                Err(e) => e is StorageEngine,
            },
    {
        let now = crate::time::now_timestamp();
        let (mut db, handle) = conn.lock.acquire_write();
        let r;
        match mirror_exec(&db, TAG_TOUCH_SQL, encode_tag_touch(now, name)) {
            Ok(_) => {
                db.tag_touch(name, now);
                r = Ok(());
            },
            Err(msg) => {
                r = Err(DbError::StorageEngine(msg));
            },
        }
        handle.release_write(db);
        r
    }

    /// Removes the tag with the given name; deleting a missing name is
    /// not an error.
    pub fn delete(conn: &SafeConnection, name: &str) -> (r: Result<(), DbError>)
        ensures
            match r {
                Ok(u) => true,
                Err(e) => e is StorageEngine,
            },
    {
        let (mut db, handle) = conn.lock.acquire_write();
        let r;
        match mirror_exec(&db, TAG_DELETE_SQL, one_text_param(name)) {
            Ok(_) => {
                db.tag_delete(name);
                r = Ok(());
            },
            Err(msg) => {
                r = Err(DbError::StorageEngine(msg));
            },
        }
        handle.release_write(db);
        r
    }
}

// ---------------------------------------------------------------------------
// Recurring-task repository
// ---------------------------------------------------------------------------

impl RepeatTask {
    /// Inserts a new recurring task; fails with `ConstraintViolation`
    /// when the id already exists.
    pub fn create(conn: &SafeConnection, task: &RepeatTask) -> (r: Result<(), DbError>)
        ensures
            match r {
                Ok(u) => true,
                Err(e) => e == DbError::ConstraintViolation || e is StorageEngine,
            },
    {
        let (mut db, handle) = conn.lock.acquire_write();
        let r;
        if db.has_task_key(task.id.as_str()) {
            r = Err(DbError::ConstraintViolation);
        } else {
            match mirror_exec(&db, TASK_INSERT_SQL, encode_task(task)) {
                Ok(_) => {
                    match db.create_task(task) {
                        Ok(_) => {
                            r = Ok(());
                        },
                        Err(e) => {
                            r = Err(e);
                        },
                    }
                },
                Err(msg) => {
                    r = Err(DbError::StorageEngine(msg));
                },
            }
        }
        handle.release_write(db);
        r
    }

    /// The stored task with the given id, or `None`; a missing row is
    /// not an error.
    pub fn get_by_id(conn: &SafeConnection, id: &str) -> (r: Result<Option<RepeatTask>, DbError>)
        ensures
            r is Ok,
            r.unwrap() is Some ==> r.unwrap().unwrap().id@ == id@,
    {
        let handle = conn.lock.acquire_read();
        let found = handle.borrow().task_by_id(id);
        handle.release_read();
        Ok(found)
    }

    /// Every stored task, newest creation instant first.
    pub fn get_all(conn: &SafeConnection) -> (r: Result<Vec<RepeatTask>, DbError>)
        ensures
            r is Ok,
            crate::store::sorted_by_key(r.unwrap()@, |t: RepeatTask| crate::store::task_ord(t)),
    {
        let handle = conn.lock.acquire_read();
        let all = handle.borrow().all_tasks();
        handle.release_read();
        Ok(all)
    }

    /// Every task whose status is active, newest creation instant first.
    pub fn get_active_tasks(conn: &SafeConnection) -> (r: Result<Vec<RepeatTask>, DbError>)
        ensures
            r is Ok,
            crate::store::sorted_by_key(r.unwrap()@, |t: RepeatTask| crate::store::task_ord(t)),
            forall|k: int| 0 <= k < r.unwrap()@.len() ==> (#[trigger] r.unwrap()@[k]).status == 1,
    {
        let handle = conn.lock.acquire_read();
        let found = handle.borrow().active_tasks();
        handle.release_read();
        Ok(found)
    }

    /// Full-row update by id of all mutable columns; a missing id is a
    /// silent no-op.
    pub fn update(&self, conn: &SafeConnection) -> (r: Result<(), DbError>)
        ensures
            match r {
                Ok(u) => true,
                Err(e) => e is StorageEngine,
            },
    {
        let (mut db, handle) = conn.lock.acquire_write();
        let r;
        match mirror_exec(&db, TASK_UPDATE_SQL, encode_task_update(self)) {
            Ok(_) => {
                db.update_task(self);
                r = Ok(());
            },
            Err(msg) => {
                r = Err(DbError::StorageEngine(msg));
            },
        }
        handle.release_write(db);
        r
    }

    /// Removes the task with the given id; deleting a missing id is not
    /// an error.
    pub fn delete(conn: &SafeConnection, id: &str) -> (r: Result<(), DbError>)
        ensures
            match r {
                Ok(u) => true,
                Err(e) => e is StorageEngine,
            },
    {
        let (mut db, handle) = conn.lock.acquire_write();
        let r;
        match mirror_exec(&db, TASK_DELETE_SQL, one_text_param(id)) {
            Ok(_) => {
                db.delete_task(id);
                r = Ok(());
            },
            Err(msg) => {
                r = Err(DbError::StorageEngine(msg));
            },
        }
        handle.release_write(db);
        r
    }

    /// Partial update of the status and the update instant only; a
    /// missing id is a silent no-op.
    pub fn update_status(conn: &SafeConnection, id: &str, new_status: i32) -> (r: Result<
        (),
        DbError,
    >)
        ensures
            match r {
                Ok(u) => true,
                Err(e) => e is StorageEngine,
            },
    {
        let now = crate::time::now_timestamp();
        let (mut db, handle) = conn.lock.acquire_write();
        let r;
        match mirror_exec(&db, TASK_STATUS_SQL, encode_task_status(new_status, now, id)) {
            Ok(_) => {
                db.set_task_status(id, new_status, now);
                r = Ok(());
            },
            Err(msg) => {
                r = Err(DbError::StorageEngine(msg));
            },
        }
        handle.release_write(db);
        r
    }
}

// ---------------------------------------------------------------------------
// Todo repository
// ---------------------------------------------------------------------------

impl Todo {
    /// Inserts a new todo; fails with `ConstraintViolation` when the id
    /// already exists.
    pub fn create(conn: &SafeConnection, todo: &Todo) -> (r: Result<(), DbError>)
        ensures
            match r {
                Ok(u) => true,
                Err(e) => e == DbError::ConstraintViolation || e is StorageEngine,
            },
    {
        let (mut db, handle) = conn.lock.acquire_write();
        let r;
        if db.has_todo_key(todo.id.as_str()) {
            r = Err(DbError::ConstraintViolation);
        } else {
            match mirror_exec(&db, TODO_INSERT_SQL, encode_todo(todo)) {
                Ok(_) => {
                    match db.create_todo(todo) {
                        Ok(_) => {
                            r = Ok(());
                        },
                        Err(e) => {
                            r = Err(e);
                        },
                    }
                },
                Err(msg) => {
                    r = Err(DbError::StorageEngine(msg));
                },
            }
        }
        handle.release_write(db);
        r
    }

    /// The stored todo with the given id, or `None`; a missing row is
    /// not an error.
    pub fn get_by_id(conn: &SafeConnection, id: &str) -> (r: Result<Option<Todo>, DbError>)
        ensures
            r is Ok,
            r.unwrap() is Some ==> r.unwrap().unwrap().id@ == id@,
    {
        let handle = conn.lock.acquire_read();
        let found = handle.borrow().todo_by_id(id);
        handle.release_read();
        Ok(found)
    }

    /// Every stored todo, newest creation instant first.
    pub fn get_all(conn: &SafeConnection) -> (r: Result<Vec<Todo>, DbError>)
        ensures
            r is Ok,
            crate::store::sorted_by_key(r.unwrap()@, |t: Todo| crate::store::todo_ord(t)),
    {
        let handle = conn.lock.acquire_read();
        let all = handle.borrow().all_todos();
        handle.release_read();
        Ok(all)
    }

    /// Full-row update by id of the title, status and update instant; a
    /// missing id is a silent no-op.
    pub fn update(&self, conn: &SafeConnection) -> (r: Result<(), DbError>)
        ensures
            match r {
                Ok(u) => true,
                Err(e) => e is StorageEngine,
            },
    {
        let (mut db, handle) = conn.lock.acquire_write();
        let r;
        match mirror_exec(&db, TODO_UPDATE_SQL, encode_todo_update(self)) {
            Ok(_) => {
                db.update_todo(self);
                r = Ok(());
            },
            Err(msg) => {
                r = Err(DbError::StorageEngine(msg));
            },
        }
        handle.release_write(db);
        r
    }

    /// Removes the todo with the given id; deleting a missing id is not
    /// an error.
    pub fn delete(conn: &SafeConnection, id: &str) -> (r: Result<(), DbError>)
        ensures
            match r {
                Ok(u) => true,
                Err(e) => e is StorageEngine,
            },
    {
        let (mut db, handle) = conn.lock.acquire_write();
        let r;
        match mirror_exec(&db, TODO_DELETE_SQL, one_text_param(id)) {
            Ok(_) => {
                db.delete_todo(id);
                r = Ok(());
            },
            Err(msg) => {
                r = Err(DbError::StorageEngine(msg));
            },
        }
        handle.release_write(db);
        r
    }
}

// ---------------------------------------------------------------------------
// Notification repository
// ---------------------------------------------------------------------------

impl NotificationRecord {
    /// Inserts a new notification; fails with `ConstraintViolation` when
    /// the id already exists.
    pub fn create(conn: &SafeConnection, notification: &NotificationRecord) -> (r: Result<
        (),
        DbError,
    >)
        ensures
            match r {
                Ok(u) => true,
                Err(e) => e == DbError::ConstraintViolation || e is StorageEngine,
            },
    {
        let (mut db, handle) = conn.lock.acquire_write();
        let r;
        if db.has_note_key(notification.id.as_str()) {
            r = Err(DbError::ConstraintViolation);
        } else {
            match mirror_exec(&db, NOTE_INSERT_SQL, encode_note(notification)) {
                Ok(_) => {
                    match db.create_note(notification) {
                        Ok(_) => {
                            r = Ok(());
                        },
                        Err(e) => {
                            r = Err(e);
                        },
                    }
                },
                Err(msg) => {
                    r = Err(DbError::StorageEngine(msg));
                },
            }
        }
        handle.release_write(db);
        r
    }

    /// Every unread notification, newest creation instant first.
    pub fn get_unread(conn: &SafeConnection) -> (r: Result<Vec<NotificationRecord>, DbError>)
        ensures
            r is Ok,
            crate::store::sorted_by_key(
                r.unwrap()@,
                |x: NotificationRecord| crate::store::note_ord(x),
            ),
            forall|k: int| 0 <= k < r.unwrap()@.len() ==> (#[trigger] r.unwrap()@[k]).status == 0,
    {
        let handle = conn.lock.acquire_read();
        let found = handle.borrow().unread_notes();
        handle.release_read();
        Ok(found)
    }

    /// Marks the unread notification with the given id as read, stamping
    /// its read instant; an already read row or a missing id is left as
    /// it is.
    pub fn mark_as_read(conn: &SafeConnection, id: &str) -> (r: Result<(), DbError>)
        ensures
            match r {
                Ok(u) => true,
                Err(e) => e is StorageEngine,
            },
    {
        let now = crate::time::now_timestamp();
        let (mut db, handle) = conn.lock.acquire_write();
        let r;
        match mirror_exec(&db, NOTE_MARK_SQL, encode_mark_one(now, id)) {
            Ok(_) => {
                db.mark_note_read(id, now);
                r = Ok(());
            },
            Err(msg) => {
                r = Err(DbError::StorageEngine(msg));
            },
        }
        handle.release_write(db);
        r
    }

    /// Marks every unread notification of the given type as read.
    pub fn mark_as_read_by_type(conn: &SafeConnection, type_: i32) -> (r: Result<(), DbError>)
        ensures
            match r {
                Ok(u) => true,
                Err(e) => e is StorageEngine,
            },
    {
        let now = crate::time::now_timestamp();
        let (mut db, handle) = conn.lock.acquire_write();
        let r;
        match mirror_exec(&db, NOTE_MARK_TYPE_SQL, encode_mark_type(now, type_)) {
            Ok(_) => {
                db.mark_notes_read_by_type(type_, now);
                r = Ok(());
            },
            Err(msg) => {
                r = Err(DbError::StorageEngine(msg));
            },
        }
        handle.release_write(db);
        r
    }

    /// Marks every unread notification as read; no unread row remains
    /// afterwards.
    pub fn mark_all_as_read(conn: &SafeConnection) -> (r: Result<(), DbError>)
        ensures
            match r {
                Ok(u) => true,
                Err(e) => e is StorageEngine,
            },
    {
        let now = crate::time::now_timestamp();
        let (mut db, handle) = conn.lock.acquire_write();
        let r;
        match mirror_exec(&db, NOTE_MARK_ALL_SQL, encode_mark_all(now)) {
            Ok(_) => {
                db.mark_all_notes_read(now);
                r = Ok(());
            },
            Err(msg) => {
                r = Err(DbError::StorageEngine(msg));
            },
        }
        handle.release_write(db);
        r
    }

    /// The stored notification with the given id, or `None`; a missing
    /// row is not an error.
    pub fn get_by_id(conn: &SafeConnection, id: &str) -> (r: Result<
        Option<NotificationRecord>,
        DbError,
    >)
        ensures
            r is Ok,
            r.unwrap() is Some ==> r.unwrap().unwrap().id@ == id@,
    {
        let handle = conn.lock.acquire_read();
        let found = handle.borrow().note_by_id(id);
        handle.release_read();
        Ok(found)
    }

    /// Full-row update by id of all mutable columns; the creation and
    /// read instants stay. A missing id is a silent no-op.
    pub fn update(&self, conn: &SafeConnection) -> (r: Result<(), DbError>)
        ensures
            match r {
                Ok(u) => true,
                Err(e) => e is StorageEngine,
            },
    {
        let (mut db, handle) = conn.lock.acquire_write();
        let r;
        match mirror_exec(&db, NOTE_UPDATE_SQL, encode_note_update(self)) {
            Ok(_) => {
                db.update_note(self);
                r = Ok(());
            },
            Err(msg) => {
                r = Err(DbError::StorageEngine(msg));
            },
        }
        handle.release_write(db);
        r
    }

    /// Removes the notification with the given id; deleting a missing id
    /// is not an error.
    pub fn delete(conn: &SafeConnection, id: &str) -> (r: Result<(), DbError>)
        ensures
            match r {
                Ok(u) => true,
                Err(e) => e is StorageEngine,
            },
    {
        let (mut db, handle) = conn.lock.acquire_write();
        let r;
        match mirror_exec(&db, NOTE_DELETE_SQL, one_text_param(id)) {
            Ok(_) => {
                db.delete_note(id);
                r = Ok(());
            },
            Err(msg) => {
                r = Err(DbError::StorageEngine(msg));
            },
        }
        handle.release_write(db);
        r
    }
}

} // verus!
