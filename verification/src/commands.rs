//! The operations the command-line layer calls: each takes plain values,
//! validates them, performs the store operation, and reports a typed result.
//! Mutations on an id that is not in the store fail with a not-found error.

use vstd::prelude::*;

use crate::dates::{parse_rfc3339, parse_ymd, rfc3339_timestamp, ymd_timestamp};
use crate::errors::TaskError;
use crate::models::{Priority, Task};
use crate::store::{
    completed_row, contains_id, list_sorted, match_pred, row_matches, with_id, Database,
};

verus! {

/// The instant a due-date string denotes: the calendar-date form is tried
/// first, then the full timestamp form; `None` when neither fits.
pub open spec fn parsed_due(s: Seq<char>) -> Option<i64> {
    if ymd_timestamp(s) is Some {
        ymd_timestamp(s)
    } else {
        rfc3339_timestamp(s)
    }
}

/// The outcome of validating a due-date string at instant `now`: its
/// instant where it parses and lies strictly in the future, and otherwise
/// the exact validation error.
pub open spec fn due_date_outcome(s: Seq<char>, now: i64) -> Result<i64, TaskError> {
    match parsed_due(s) {
        Some(t) => if t > now {
            Ok(t)
        } else {
            Err(TaskError::DueDateNotFuture)
        },
        None => Err(TaskError::InvalidDateFormat),
    }
}

/// Whether an optional due-date argument passes validation at `now`.
pub open spec fn due_arg_ok(due_date: Option<&str>, now: i64) -> bool {
    match due_date {
        Some(s) => due_date_outcome(s@, now) is Ok,
        None => true,
    }
}

/// Parse and validate a due-date string against the instant `now`: a
/// calendar date (taken at midnight UTC) or a full timestamp with offset is
/// accepted; any other form is an invalid-format error, and an instant not
/// strictly after `now` is a must-be-in-the-future error.
pub fn parse_due_date(date_str: &str, now: i64) -> (r: Result<i64, TaskError>)
    ensures
        r == due_date_outcome(date_str@, now),
{
    let parsed: i64 = match parse_ymd(date_str) {
        Some(t) => t,
        None => match parse_rfc3339(date_str) {
            Some(t) => t,
            None => {
                return Err(TaskError::InvalidDateFormat);
            },
        },
    };
    if parsed > now {
        Ok(parsed)
    } else {
        Err(TaskError::DueDateNotFuture)
    }
}

/// The view of an optional borrowed string.
pub open spec fn opt_str_view(s: Option<&str>) -> Option<Seq<char>> {
    match s {
        Some(x) => Some(x@),
        None => None,
    }
}

/// What a successful creation stores: the caller's fields under the fresh
/// id, not completed, both timestamps the creation instant.
pub open spec fn created_row(
    t: Task,
    id: i32,
    title: Seq<char>,
    description: Option<Seq<char>>,
    due: Option<i64>,
    priority: i32,
    now: i64,
) -> bool {
    &&& t.id == Some(id)
    &&& t.title@ == title
    &&& (match (t.description, description) {
        (Some(a), Some(b)) => a@ == b,
        (None, None) => true,
        _ => false,
    })
    &&& t.due_date == due
    &&& t.priority == priority
    &&& t.completed == false
    &&& t.created_at == now
    &&& t.updated_at == now
}

/// Create a task from the caller's arguments and persist it, returning the
/// assigned id. The due date, when given, must validate at `now`; the title
/// must be non-empty; both timestamps are set to `now`.
pub fn add_task(
    db: &mut Database,
    title: &str,
    description: Option<&str>,
    due_date: Option<&str>,
    priority: &Priority,
    now: i64,
) -> (r: Result<i32, TaskError>)
    requires
        old(db).wf(),
    ensures
        final(db).wf(),
        r is Err ==> final(db).next_id_spec() == old(db).next_id_spec(),
        r is Ok ==> final(db).next_id_spec() == old(db).next_id_spec() + 1,
        match due_date {
            Some(s) => match due_date_outcome(s@, now) {
                Err(e) => r == Err::<i32, TaskError>(e) && final(db)@ == old(db)@,
                Ok(_) => true,
            },
            None => true,
        },
        due_arg_ok(due_date, now) && title@.len() == 0 ==> r == Err::<i32, TaskError>(
            TaskError::EmptyTitle,
        ) && final(db)@ == old(db)@,
        due_arg_ok(due_date, now) && title@.len() > 0 && old(db).next_id_spec() == i32::MAX ==> r
            == Err::<i32, TaskError>(TaskError::StoreFull) && final(db)@ == old(db)@,
        due_arg_ok(due_date, now) && title@.len() > 0 && old(db).next_id_spec() < i32::MAX ==> {
            &&& r == Ok::<i32, TaskError>(old(db).next_id_spec())
            &&& !contains_id(old(db)@, old(db).next_id_spec())
            &&& final(db)@.len() == old(db)@.len() + 1
            &&& final(db)@.take(old(db)@.len() as int) == old(db)@
            &&& created_row(
                final(db)@.last(),
                old(db).next_id_spec(),
                title@,
                opt_str_view(description),
                match due_date {
                    Some(s) => Some(due_date_outcome(s@, now)->Ok_0),
                    None => None,
                },
                priority.ordinal(),
                now,
            )
        },
{
    let due_parsed: Option<i64> = match due_date {
        Some(s) => match parse_due_date(s, now) {
            Ok(t) => Some(t),
            Err(e) => {
                return Err(e);
            },
        },
        None => None,
    };
    let description_owned: Option<String> = match description {
        Some(d) => Some(d.to_owned()),
        None => None,
    };
    let task = match Task::new(title.to_owned(), description_owned, due_parsed, priority.to_int(), now) {
        Ok(t) => t,
        Err(e) => {
            return Err(e);
        },
    };
    let r = db.add_task(&task);
    proof {
        if old(db).next_id_spec() < i32::MAX {
            assert(db@ == old(db)@.push(with_id(task, old(db).next_id_spec())));
            assert(db@.take(old(db)@.len() as int) =~= old(db)@);
            assert(db@.last() == with_id(task, old(db).next_id_spec()));
        }
    }
    r
}

/// The requested priority filter as a storage ordinal.
pub open spec fn ordinal_filter(p: Option<&Priority>) -> Option<i32> {
    match p {
        Some(pr) => Some(pr.ordinal()),
        None => None,
    }
}

/// The tasks to show: all rows passing the completion and priority filters,
/// ordered by priority descending and creation time ascending. An empty
/// listing is an ordinary result, not an error.
pub fn list_tasks(db: &Database, include_completed: bool, priority_filter: Option<&Priority>) -> (r:
    Vec<Task>)
    ensures
        r@.to_multiset() == db@.filter(
            match_pred(include_completed, ordinal_filter(priority_filter)),
        ).to_multiset(),
        list_sorted(r@),
        forall|k: int|
            0 <= k < r@.len() ==> row_matches(
                #[trigger] r@[k],
                include_completed,
                ordinal_filter(priority_filter),
            ),
{
    let pf: Option<i32> = match priority_filter {
        Some(p) => Some(p.to_int()),
        None => None,
    };
    db.get_all_tasks(include_completed, pf)
}

/// Mark the task at `id` completed at instant `now`. Fails with a not-found
/// error, changing nothing, when the id is not in the store.
pub fn complete_task(db: &mut Database, id: i32, now: i64) -> (r: Result<(), TaskError>)
    requires
        old(db).wf(),
    ensures
        final(db).wf(),
        final(db).next_id_spec() == old(db).next_id_spec(),
        !contains_id(old(db)@, id) ==> r == Err::<(), TaskError>(TaskError::NotFound(id)) && final(db)@ == old(db)@,
        contains_id(old(db)@, id) ==> r == Ok::<(), TaskError>(()) && exists|i: int|
            0 <= i < old(db)@.len() && (#[trigger] old(db)@[i]).id == Some(id) && final(db)@ == old(db)@.update(i, completed_row(old(db)@[i], now)),
{
    if !db.task_exists(id) {
        return Err(TaskError::NotFound(id));
    }
    db.complete_task(id, now)
}

/// Remove the task at `id`. Fails with a not-found error, changing nothing,
/// when the id is not in the store; afterwards the id is absent either way.
pub fn delete_task(db: &mut Database, id: i32) -> (r: Result<(), TaskError>)
    requires
        old(db).wf(),
    ensures
        final(db).wf(),
        final(db).next_id_spec() == old(db).next_id_spec(),
        !contains_id(old(db)@, id) ==> r == Err::<(), TaskError>(TaskError::NotFound(id)) && final(db)@ == old(db)@,
        contains_id(old(db)@, id) ==> r == Ok::<(), TaskError>(()) && exists|i: int|
            0 <= i < old(db)@.len() && (#[trigger] old(db)@[i]).id == Some(id) && final(db)@ == old(db)@.remove(i),
        !contains_id(final(db)@, id),
{
    if !db.task_exists(id) {
        return Err(TaskError::NotFound(id));
    }
    db.delete_task(id);
    Ok(())
}

/// The task at `id`, or a not-found error.
pub fn show_task(db: &Database, id: i32) -> (r: Result<Task, TaskError>)
    ensures
        contains_id(db@, id) ==> (r matches Ok(t) && t.id == Some(id) && db@.contains(t)),
        !contains_id(db@, id) ==> r == Err::<Task, TaskError>(TaskError::NotFound(id)),
{
    match db.get_task_by_id(id) {
        Some(t) => Ok(t),
        None => Err(TaskError::NotFound(id)),
    }
}

/// How an update changes the row at `id`: each given override replaces its
/// field, each omitted one leaves the field as stored; completion state, id
/// and creation time are kept, and the update time becomes `now`.
pub open spec fn updated_fields(
    orig: Task,
    updated: Task,
    title: Option<&str>,
    description: Option<&str>,
    due_date: Option<&str>,
    priority: Option<&Priority>,
    now: i64,
) -> bool {
    &&& updated.id == orig.id
    &&& (match title {
        Some(s) => updated.title@ == s@,
        None => updated.title == orig.title,
    })
    &&& (match description {
        Some(s) => updated.description matches Some(d) && d@ == s@,
        None => updated.description == orig.description,
    })
    &&& (match due_date {
        Some(s) => due_date_outcome(s@, now) matches Ok(t) && updated.due_date == Some(t),
        None => updated.due_date == orig.due_date,
    })
    &&& (match priority {
        Some(p) => updated.priority == p.ordinal(),
        None => updated.priority == orig.priority,
    })
    &&& updated.completed == orig.completed
    &&& updated.created_at == orig.created_at
    &&& updated.updated_at == now
}

/// Overwrite the given fields of the task at `id`, leaving the others as
/// stored, and refresh the update time to `now`. Fails with a not-found
/// error when the id is not in the store, and with the due date's
/// validation error when one is given and does not validate; on any failure
/// the store is unchanged.
pub fn update_task(
    db: &mut Database,
    id: i32,
    title: Option<&str>,
    description: Option<&str>,
    due_date: Option<&str>,
    priority: Option<&Priority>,
    now: i64,
) -> (r: Result<(), TaskError>)
    requires
        old(db).wf(),
    ensures
        final(db).wf(),
        final(db).next_id_spec() == old(db).next_id_spec(),
        !contains_id(old(db)@, id) ==> r == Err::<(), TaskError>(TaskError::NotFound(id)) && final(db)@ == old(db)@,
        contains_id(old(db)@, id) ==> match due_date {
            Some(s) => match due_date_outcome(s@, now) {
                Err(e) => r == Err::<(), TaskError>(e) && final(db)@ == old(db)@,
                Ok(_) => true,
            },
            None => true,
        },
        contains_id(old(db)@, id) && due_arg_ok(due_date, now) ==> r == Ok::<(), TaskError>(())
            && exists|i: int|
            0 <= i < old(db)@.len() && (#[trigger] old(db)@[i]).id == Some(id) && final(db)@ == old(db)@.update(i, final(db)@[i]) && updated_fields(
                old(db)@[i],
                final(db)@[i],
                title,
                description,
                due_date,
                priority,
                now,
            ),
{
    if !db.task_exists(id) {
        return Err(TaskError::NotFound(id));
    }
    let mut task = match db.get_task_by_id(id) {
        Some(t) => t,
        None => {
            return Err(TaskError::NotFound(id));
        },
    };
    let ghost fetched = task;
    if let Some(new_title) = title {
        task.title = new_title.to_owned();
    }
    if let Some(new_description) = description {
        task.description = Some(new_description.to_owned());
    }
    if let Some(due_str) = due_date {
        match parse_due_date(due_str, now) {
            Ok(t) => {
                task.due_date = Some(t);
            },
            Err(e) => {
                return Err(e);
            },
        }
    }
    if let Some(new_priority) = priority {
        task.priority = new_priority.to_int();
    }
    let r = db.update_task(id, &task, now);
    proof {
        let i = choose|i: int|
            0 <= i < old(db)@.len() && (#[trigger] old(db)@[i]).id == Some(id) && db@ == old(db)@.update(i, crate::store::updated_row(old(db)@[i], task, now));
        let m = choose|m: int| 0 <= m < old(db)@.len() && old(db)@[m] == fetched;
        if i != m {
            assert(old(db)@[i].id != old(db)@[m].id);
        }
        assert(old(db)@[i] == fetched);
        assert(db@[i] == crate::store::updated_row(old(db)@[i], task, now));
        assert(db@ == old(db)@.update(i, db@[i]));
        assert(updated_fields(old(db)@[i], db@[i], title, description, due_date, priority, now));
    }
    r
}

} // verus!
