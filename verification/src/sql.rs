use vstd::prelude::*;

verus! {

#[verifier::external_type_specification]
#[verifier::external_body]
pub struct ExConnection(rusqlite::Connection);

#[verifier::external_type_specification]
#[verifier::external_body]
pub struct ExValue(rusqlite::types::Value);

/// One dynamically typed SQL value, as the embedded engine stores it.
/// `Other` stands for an engine value the repositories never produce
/// (a floating-point number); a row holding one is treated as malformed.
#[derive(Debug, Clone, PartialEq)]
pub enum SqlValue {
    Null,
    Int(i64),
    Text(String),
    Blob(Vec<u8>),
    Other,
}

/// Relies on rusqlite's `Value` constructors: each repository value maps to
/// the engine value of the same shape; `Other` is never bound and maps to
/// `NULL`.
#[verifier::external_body]
fn to_engine_value(v: SqlValue) -> rusqlite::types::Value {
    match v {
        SqlValue::Null | SqlValue::Other => rusqlite::types::Value::Null,
        SqlValue::Int(i) => rusqlite::types::Value::Integer(i),
        SqlValue::Text(s) => rusqlite::types::Value::Text(s),
        SqlValue::Blob(b) => rusqlite::types::Value::Blob(b),
    }
}

/// Relies on rusqlite's `Value` enum: each engine value maps to the
/// repository value of the same shape, one variant per arm; a
/// floating-point value becomes `Other`.
#[verifier::external_body]
fn from_engine_value(v: rusqlite::types::Value) -> SqlValue {
    match v {
        rusqlite::types::Value::Null => SqlValue::Null,
        rusqlite::types::Value::Integer(i) => SqlValue::Int(i),
        rusqlite::types::Value::Text(s) => SqlValue::Text(s),
        rusqlite::types::Value::Blob(b) => SqlValue::Blob(b),
        rusqlite::types::Value::Real(_) => SqlValue::Other,
    }
}

/// Relies on rusqlite's `Connection::open_with_flags`: opens (or creates)
/// the backing file `fates.db` under the given directory, read-write,
/// create-if-missing, and with the engine's own mutex disabled — the
/// connection guard supplies all synchronization.
#[verifier::external_body]
pub(crate) fn open_file_connection(dir: &str) -> Result<rusqlite::Connection, String> {
    let flags = rusqlite::OpenFlags::SQLITE_OPEN_READ_WRITE
        | rusqlite::OpenFlags::SQLITE_OPEN_CREATE
        | rusqlite::OpenFlags::SQLITE_OPEN_NO_MUTEX;
    rusqlite::Connection::open_with_flags(format!("{}/fates.db", dir), flags)
        .map_err(|e| e.to_string())
}

/// Relies on rusqlite's `Connection::open_in_memory`: a fresh, empty
/// in-memory database, used by callers that need no durable file.
#[verifier::external_body]
pub(crate) fn open_memory_connection() -> Result<rusqlite::Connection, String> {
    rusqlite::Connection::open_in_memory().map_err(|e| e.to_string())
}

/// Relies on rusqlite's `Connection::execute`: runs one statement with the
/// given parameters bound positionally and reports the engine's error text
/// on failure. Nothing is assumed of the on-disk effect.
#[verifier::external_body]
pub(crate) fn exec_sql(conn: &rusqlite::Connection, sql: &str, params: Vec<SqlValue>) -> Result<
    usize,
    String,
> {
    let vals: Vec<rusqlite::types::Value> = params.into_iter().map(to_engine_value).collect();
    conn.execute(sql, rusqlite::params_from_iter(vals)).map_err(|e| e.to_string())
}

/// Relies on rusqlite's `prepare`, `query` and `Row::get`: runs one
/// parameterless query and hands back every row as plain values, in the
/// order the engine produced them. Nothing is assumed of the contents.
#[verifier::external_body]
pub(crate) fn query_sql(conn: &rusqlite::Connection, sql: &str) -> Result<Vec<Vec<SqlValue>>, String> {
    let mut stmt = conn.prepare(sql).map_err(|e| e.to_string())?;
    let ncols = stmt.column_count();
    let mut rows = stmt.query([]).map_err(|e| e.to_string())?;
    let mut out = Vec::new();
    while let Some(row) = rows.next().map_err(|e| e.to_string())? {
        let mut vals = Vec::new();
        for i in 0..ncols {
            vals.push(from_engine_value(row.get(i).map_err(|e| e.to_string())?));
        }
        out.push(vals);
    }
    Ok(out)
}

} // verus!
