//! The failure conditions of the library: validation failures on the write
//! path and lookups of ids that are not in the store.

use vstd::prelude::*;

use crate::numfmt::{dec_int, i32_string};

verus! {

/// A typed failure of a store or validation operation.
///
/// Validation failures (`EmptyTitle`, `InvalidDateFormat`, `DueDateNotFuture`)
/// come from the write path; `NotFound` comes from operating on an id with no
/// record; `StoreFull` reports that the id space is exhausted.
#[derive(Debug, PartialEq, Eq, Structural)]
pub enum TaskError {
    /// A task title must be non-empty.
    EmptyTitle,
    /// A due-date string was neither a calendar date nor a full timestamp.
    InvalidDateFormat,
    /// A due date resolved to an instant not strictly after the current one.
    DueDateNotFuture,
    /// No task with the given id exists.
    NotFound(i32),
    /// No id is left to assign to a new task.
    StoreFull,
}

impl TaskError {
    /// The user-facing text of the error.
    pub open spec fn message_spec(self) -> Seq<char> {
        match self {
            TaskError::EmptyTitle => "Task title must not be empty"@,
            TaskError::InvalidDateFormat => "Invalid date format. Please use YYYY-MM-DD or RFC3339 format"@,
            TaskError::DueDateNotFuture => "Due date must be in the future"@,
            TaskError::NotFound(id) => "Task with ID "@ + dec_int(id as int) + " not found"@,
            TaskError::StoreFull => "No id is left to assign to a new task"@,
        }
    }

    /// Render the error for display.
    pub fn message(&self) -> (r: String)
        ensures
            r@ == self.message_spec(),
    {
        match self {
            TaskError::EmptyTitle => "Task title must not be empty".to_owned(),
            TaskError::InvalidDateFormat => {
                "Invalid date format. Please use YYYY-MM-DD or RFC3339 format".to_owned()
            },
            TaskError::DueDateNotFuture => "Due date must be in the future".to_owned(),
            TaskError::NotFound(id) => {
                let mut s = "Task with ID ".to_owned();
                s.append(i32_string(*id).as_str());
                s.append(" not found");
                proof {
                    assert(s@ =~= self.message_spec());
                }
                s
            },
            TaskError::StoreFull => "No id is left to assign to a new task".to_owned(),
        }
    }
}

} // verus!
