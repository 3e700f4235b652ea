//! The task entity: one record with its derived, read-only presentation
//! values (priority label, status label, due-date text, overdue check, and
//! the one-line and multi-line renderings).

use vstd::prelude::*;

use crate::dates::{format_ymd, format_ymd_hm, ymd_format, ymd_hm_format};
use crate::errors::TaskError;
use crate::numfmt::{dec_int, i32_string};

verus! {

/// A priority level, encoded in storage as an ordinal (0, 1 or 2).
#[derive(Clone, Copy, Debug, PartialEq, Eq, Structural)]
pub enum Priority {
    Low,
    Medium,
    High,
}

/// The priority that an ordinal decodes to: the three ordinals map to their
/// level, and anything out of range falls back to `Medium`. The fallback is
/// the library's policy for values read back from a corrupt store.
pub open spec fn priority_of_ordinal(value: i32) -> Priority {
    if value == 0 {
        Priority::Low
    } else if value == 2 {
        Priority::High
    } else {
        Priority::Medium
    }
}

impl Priority {
    /// The ordinal of this level.
    pub open spec fn ordinal(self) -> i32 {
        match self {
            Priority::Low => 0,
            Priority::Medium => 1,
            Priority::High => 2,
        }
    }

    /// Encode the level as its storage ordinal.
    pub fn to_int(&self) -> (r: i32)
        ensures
            r == self.ordinal(),
    {
        match self {
            Priority::Low => 0,
            Priority::Medium => 1,
            Priority::High => 2,
        }
    }

    /// Decode an ordinal, falling back to `Medium` on out-of-range input.
    pub fn from_int(value: i32) -> (r: Priority)
        ensures
            r == priority_of_ordinal(value),
    {
        if value == 0 {
            Priority::Low
        } else if value == 1 {
            Priority::Medium
        } else if value == 2 {
            Priority::High
        } else {
            Priority::Medium
        }
    }
}

/// Encoding and decoding a priority are mutually inverse on the three levels.
pub proof fn lemma_priority_roundtrip(p: Priority)
    ensures
        priority_of_ordinal(p.ordinal()) == p,
{
}

/// The label of a priority ordinal: the three ordinals have their own label,
/// and anything out of range renders as MEDIUM rather than erroring.
pub open spec fn priority_label(p: i32) -> Seq<char> {
    if p == 0 {
        "LOW"@
    } else if p == 2 {
        "HIGH"@
    } else {
        "MEDIUM"@
    }
}

/// The completion label of a task.
pub open spec fn status_label(completed: bool) -> Seq<char> {
    if completed {
        "COMPLETED"@
    } else {
        "PENDING"@
    }
}

/// One task record. Instants (`due_date`, `created_at`, `updated_at`) are
/// Unix timestamps in seconds, UTC.
#[derive(Debug)]
pub struct Task {
    /// Assigned by the store on creation; `None` before first persistence.
    pub id: Option<i32>,
    pub title: String,
    pub description: Option<String>,
    pub due_date: Option<i64>,
    /// Priority ordinal; out-of-range values are coerced only on display.
    pub priority: i32,
    pub completed: bool,
    pub created_at: i64,
    pub updated_at: i64,
}

impl Clone for Task {
    fn clone(&self) -> (r: Self)
        ensures
            r == *self,
    {
        Task {
            id: self.id,
            title: self.title.clone(),
            description: self.description.clone(),
            due_date: self.due_date,
            priority: self.priority,
            completed: self.completed,
            created_at: self.created_at,
            updated_at: self.updated_at,
        }
    }
}

/// A task is overdue exactly when it is not completed, has a due date, and
/// that due date is strictly before the given instant. A completed task is
/// never overdue.
pub open spec fn spec_is_overdue(t: Task, now: i64) -> bool {
    &&& !t.completed
    &&& match t.due_date {
        Some(d) => d < now,
        None => false,
    }
}

/// The due-date text of a task: the calendar-day rendering of the due
/// instant, or a fixed phrase when there is none.
pub open spec fn due_text_spec(due: Option<i64>) -> Seq<char> {
    match due {
        Some(d) => ymd_format(d),
        None => "No due date"@,
    }
}

/// The id a rendering shows: the assigned id, or 0 before assignment.
pub open spec fn display_id(id: Option<i32>) -> int {
    match id {
        Some(i) => i as int,
        None => 0,
    }
}

/// The one-line rendering of a task.
pub open spec fn summary_spec(t: Task) -> Seq<char> {
    "["@ + dec_int(display_id(t.id)) + "] "@ + t.title@ + " "@ + priority_label(t.priority) + " "@
        + status_label(t.completed) + " "@ + due_text_spec(t.due_date)
}

/// The description block of the multi-line rendering: its own line when a
/// description is present, nothing otherwise.
pub open spec fn description_block_spec(description: Option<String>) -> Seq<char> {
    match description {
        Some(d) => "\nDescription: "@ + d@,
        None => Seq::<char>::empty(),
    }
}

/// The multi-line rendering of a task.
pub open spec fn detail_spec(t: Task) -> Seq<char> {
    "Task #"@ + dec_int(display_id(t.id)) + ": "@ + t.title@ + "\nPriority: "@ + priority_label(
        t.priority,
    ) + "\nStatus: "@ + status_label(t.completed) + "\nDue: "@ + due_text_spec(t.due_date)
        + description_block_spec(t.description) + "\nCreated: "@ + ymd_hm_format(t.created_at)
        + "\nUpdated: "@ + ymd_hm_format(t.updated_at)
}

impl Task {
    /// A new, not yet persisted task: no id, not completed, both timestamps
    /// the given instant. An empty title is rejected.
    pub fn new(
        title: String,
        description: Option<String>,
        due_date: Option<i64>,
        priority: i32,
        now: i64,
    ) -> (r: Result<Task, TaskError>)
        ensures
            title@.len() == 0 ==> r == Err::<Task, TaskError>(TaskError::EmptyTitle),
            title@.len() > 0 ==> r == Ok::<Task, TaskError>(
                Task {
                    id: None,
                    title: title,
                    description: description,
                    due_date: due_date,
                    priority: priority,
                    completed: false,
                    created_at: now,
                    updated_at: now,
                },
            ),
    {
        if title.as_str().is_empty() {
            Err(TaskError::EmptyTitle)
        } else {
            Ok(
                Task {
                    id: None,
                    title,
                    description,
                    due_date,
                    priority,
                    completed: false,
                    created_at: now,
                    updated_at: now,
                },
            )
        }
    }

    /// The priority label: out-of-range ordinals render as MEDIUM.
    pub fn priority_text(&self) -> (r: &'static str)
        ensures
            r@ == priority_label(self.priority),
    {
        if self.priority == 0 {
            "LOW"
        } else if self.priority == 2 {
            "HIGH"
        } else {
            "MEDIUM"
        }
    }

    /// The completion label: COMPLETED or PENDING.
    pub fn status_text(&self) -> (r: &'static str)
        ensures
            r@ == status_label(self.completed),
    {
        if self.completed {
            "COMPLETED"
        } else {
            "PENDING"
        }
    }

    /// The due-date text: the calendar day of the due instant, or a fixed
    /// phrase when there is none.
    pub fn due_date_text(&self) -> (r: String)
        ensures
            r@ == due_text_spec(self.due_date),
    {
        match self.due_date {
            Some(d) => format_ymd(d),
            None => "No due date".to_owned(),
        }
    }

    /// Whether the task is overdue at the given instant. A completed task is
    /// never overdue, whatever its due date.
    pub fn is_overdue(&self, now: i64) -> (r: bool)
        ensures
            r == spec_is_overdue(*self, now),
    {
        if self.completed {
            return false;
        }
        match self.due_date {
            Some(d) => d < now,
            None => false,
        }
    }

    /// The one-line rendering: id, title, priority label, status and due
    /// date.
    pub fn display_summary(&self) -> (r: String)
        ensures
            r@ == summary_spec(*self),
    {
        let id = match self.id {
            Some(i) => i,
            None => 0,
        };
        let mut s = "[".to_owned();
        s.append(i32_string(id).as_str());
        s.append("] ");
        s.append(self.title.as_str());
        s.append(" ");
        s.append(self.priority_text());
        s.append(" ");
        s.append(self.status_text());
        s.append(" ");
        s.append(self.due_date_text().as_str());
        proof {
            assert(s@ =~= summary_spec(*self));
        }
        s
    }

    /// The multi-line rendering: id, title, priority label, status, due
    /// date, the description when present, and both timestamps.
    pub fn display_detailed(&self) -> (r: String)
        ensures
            r@ == detail_spec(*self),
    {
        let id = match self.id {
            Some(i) => i,
            None => 0,
        };
        let mut s = "Task #".to_owned();
        s.append(i32_string(id).as_str());
        s.append(": ");
        s.append(self.title.as_str());
        s.append("\nPriority: ");
        s.append(self.priority_text());
        s.append("\nStatus: ");
        s.append(self.status_text());
        s.append("\nDue: ");
        s.append(self.due_date_text().as_str());
        match &self.description {
            Some(d) => {
                s.append("\nDescription: ");
                s.append(d.as_str());
            },
            None => {},
        }
        s.append("\nCreated: ");
        s.append(format_ymd_hm(self.created_at).as_str());
        s.append("\nUpdated: ");
        s.append(format_ymd_hm(self.updated_at).as_str());
        proof {
            assert(s@ =~= detail_spec(*self));
        }
        s
    }
}

} // verus!
