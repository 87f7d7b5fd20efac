//! Persistence and repository layer of a local task/calendar/notification
//! manager. Six entity repositories (events, recurring tasks, key-value
//! settings, tags, todos, notifications) operate over one shared connection
//! guard; the in-memory table state is fully verified, and an embedded
//! SQLite database mirrors it on disk.

pub mod api;
pub mod entities;
pub mod errors;
pub mod laws;
pub mod sql;
pub mod store;
pub mod strutil;
pub mod time;
pub mod timeline;
