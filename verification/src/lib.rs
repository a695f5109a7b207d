//! An in-memory todo-list manager: create, list, find, and delete task
//! records, each with an auto-incrementing identifier, free-text content,
//! and a status.  The manager's validation, identifier-assignment, and
//! storage behaviour is stated in contracts and proved.

pub mod task;
pub mod manager;
pub mod laws;
