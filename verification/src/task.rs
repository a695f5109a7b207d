//! The task records the manager stores, their identifiers and status,
//! and the two failure kinds its operations can report.

use vstd::prelude::*;

verus! {

/// Upper bound on task content length.  Length is measured in Unicode
/// characters, i.e. the length of the content string's `Seq<char>` view.
pub const MAX_CONTENT_LEN: usize = 100;

/// Lifecycle state of a task.  Every task is created as `Doing`; no
/// operation currently moves one to `Done`.
#[derive(Clone, Copy, PartialEq, Eq, Structural, Debug)]
pub enum Status {
    Doing,
    Done,
}

/// Identifier of a task: a positive integer, unique within one manager's
/// lifetime and never reused after deletion.  Equality is by value.
#[derive(Clone, Copy, PartialEq, Eq, Structural, Debug)]
pub struct TodoId(pub u32);

/// Transient, unvalidated creation payload; it is never stored.
pub struct DraftTodo {
    pub content: String,
}

/// A stored todo record: identifier, free-text content, and status.
#[derive(Debug)]
pub struct Todo {
    pub id: TodoId,
    pub content: String,
    pub status: Status,
}

impl Clone for Todo {
    /// Cloning a task preserves its value exactly.
    fn clone(&self) -> (r: Self)
        ensures
            r == *self,
    {
        Todo { id: self.id, content: self.content.clone(), status: self.status }
    }
}

/// The two failure kinds the manager can report, as a closed sum type so
/// callers can branch on the kind.
#[derive(Clone, Copy, PartialEq, Eq, Structural, Debug)]
pub enum TodoError {
    ContentTooLong,
    NotFound,
}

/// Content is acceptable exactly when its length does not exceed
/// `MAX_CONTENT_LEN`.
pub open spec fn content_ok(content: Seq<char>) -> bool {
    content.len() <= MAX_CONTENT_LEN
}

} // verus!
