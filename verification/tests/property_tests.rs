use tasklist::commands::{add_task, complete_task, delete_task, parse_due_date, update_task};
use tasklist::errors::TaskError;
use tasklist::models::{Priority, Task};
use tasklist::store::Database;

// Midnight UTC at the start of 2030.
const TS_2030_01_01: i64 = 1893456000;

fn now_ts() -> i64 {
    chrono::Utc::now().timestamp()
}

#[test]
fn test_due_date_round_trip() {
    // Creating a task with due date "2030-01-01" and reading it back yields
    // a due date formatting to "2030-01-01".
    let mut db = Database::new();
    let id = add_task(
        &mut db,
        "Round trip",
        None,
        Some("2030-01-01"),
        &Priority::Medium,
        now_ts(),
    )
    .unwrap();

    let stored = db.get_task_by_id(id).unwrap();
    assert_eq!(stored.due_date_text(), "2030-01-01");
}

#[test]
fn test_parse_ymd_exact_instant() {
    // The calendar-date form resolves to midnight UTC of that day.
    let parsed = parse_due_date("2030-01-01", 0).unwrap();
    assert_eq!(parsed, TS_2030_01_01);
}

#[test]
fn test_parse_rfc3339_honors_offset() {
    // A timestamp with a non-zero offset resolves to the same instant as
    // its UTC spelling.
    let utc = parse_due_date("2030-01-01T00:00:00Z", 0).unwrap();
    let offset = parse_due_date("2030-01-01T05:30:00+05:30", 0).unwrap();
    assert_eq!(utc, TS_2030_01_01);
    assert_eq!(offset, TS_2030_01_01);
}

#[test]
fn test_parse_invalid_and_past_dates() {
    // "not-a-date" fails with the invalid-format validation error.
    assert_eq!(
        parse_due_date("not-a-date", now_ts()),
        Err(TaskError::InvalidDateFormat)
    );

    // Yesterday fails with the must-be-in-the-future validation error.
    let now = now_ts();
    let yesterday = chrono::DateTime::<chrono::Utc>::from_timestamp(now - 86400, 0)
        .unwrap()
        .format("%Y-%m-%d")
        .to_string();
    assert_eq!(
        parse_due_date(&yesterday, now),
        Err(TaskError::DueDateNotFuture)
    );

    // Both far-future spellings succeed and normalize to equal instants.
    let a = parse_due_date("2099-12-31", now).unwrap();
    let b = parse_due_date("2099-12-31T00:00:00Z", now).unwrap();
    assert_eq!(a, b);
}

#[test]
fn test_empty_title_rejected() {
    let mut db = Database::new();
    let r = add_task(&mut db, "", None, None, &Priority::Low, now_ts());
    assert_eq!(r, Err(TaskError::EmptyTitle));
    assert_eq!(db.get_all_tasks(true, None).len(), 0);
    assert_eq!(
        TaskError::EmptyTitle.message(),
        "Task title must not be empty"
    );
}

#[test]
fn test_update_nonexistent_does_not_create() {
    // An update on a nonexistent id fails with a not-found error and does
    // not create a record.
    let mut db = Database::new();
    let r = update_task(&mut db, 7, Some("Ghostly"), None, None, None, now_ts());
    assert_eq!(r, Err(TaskError::NotFound(7)));
    assert_eq!(db.get_all_tasks(true, None).len(), 0);
    assert!(!db.task_exists(7));
}

#[test]
fn test_out_of_range_priority_renders_medium() {
    // A task with priority ordinal 7 read back from storage renders a
    // MEDIUM label rather than erroring.
    let mut db = Database::new();
    let mut task = Task::new("Odd".to_string(), None, None, 1, now_ts()).unwrap();
    task.priority = 7;
    let id = db.add_task(&task).unwrap();
    let stored = db.get_task_by_id(id).unwrap();
    assert_eq!(stored.priority, 7);
    assert_eq!(stored.priority_text(), "MEDIUM");
    assert!(stored.display_summary().contains("MEDIUM"));
}

#[test]
fn test_listing_order_priority_then_creation() {
    // Create task A (High, no due date) then task B (Low, no due date);
    // listing everything returns [A, B].
    let mut db = Database::new();
    let now = now_ts();
    add_task(&mut db, "A", None, None, &Priority::High, now).unwrap();
    add_task(&mut db, "B", None, None, &Priority::Low, now + 1).unwrap();

    let tasks = db.get_all_tasks(true, None);
    assert_eq!(tasks.len(), 2);
    assert_eq!(tasks[0].title, "A");
    assert_eq!(tasks[1].title, "B");

    // Within equal priority, the older task comes first.
    add_task(&mut db, "C", None, None, &Priority::High, now + 2).unwrap();
    let again = db.get_all_tasks(true, None);
    assert_eq!(again[0].title, "A");
    assert_eq!(again[1].title, "C");
    assert_eq!(again[2].title, "B");
}

#[test]
fn test_completed_tasks_filtered_from_listing() {
    // After completing a task, it is absent from the incomplete-only
    // listing and present in the full one.
    let mut db = Database::new();
    let now = now_ts();
    let id = add_task(&mut db, "Done soon", None, None, &Priority::Medium, now).unwrap();
    complete_task(&mut db, id, now + 5).unwrap();

    let open_only = db.get_all_tasks(false, None);
    assert!(open_only.iter().all(|t| t.id != Some(id)));
    assert_eq!(open_only.len(), 0);

    let everything = db.get_all_tasks(true, None);
    assert!(everything.iter().any(|t| t.id == Some(id) && t.completed));
}

#[test]
fn test_complete_preserves_other_fields() {
    let mut db = Database::new();
    let now = now_ts();
    let id = add_task(
        &mut db,
        "Steady",
        Some("unchanged"),
        Some("2030-01-01"),
        &Priority::High,
        now,
    )
    .unwrap();
    let before = db.get_task_by_id(id).unwrap();

    complete_task(&mut db, id, now + 9).unwrap();
    let after = db.get_task_by_id(id).unwrap();

    assert!(after.completed);
    assert_eq!(after.title, before.title);
    assert_eq!(after.description, before.description);
    assert_eq!(after.due_date, before.due_date);
    assert_eq!(after.priority, before.priority);
    assert_eq!(after.created_at, before.created_at);
    assert!(after.updated_at > before.updated_at);
}

#[test]
fn test_delete_then_absent() {
    // Deleting an id makes lookups return absence and existence false.
    let mut db = Database::new();
    let now = now_ts();
    let id = add_task(&mut db, "Ephemeral", None, None, &Priority::Low, now).unwrap();
    assert!(db.task_exists(id));

    delete_task(&mut db, id).unwrap();
    assert!(db.get_task_by_id(id).is_none());
    assert!(!db.task_exists(id));

    // Deleting again at the command level reports not-found.
    assert_eq!(delete_task(&mut db, id), Err(TaskError::NotFound(id)));
}

#[test]
fn test_created_ids_unique_and_stable() {
    let mut db = Database::new();
    let now = now_ts();
    let a = add_task(&mut db, "First", None, None, &Priority::Low, now).unwrap();
    let b = add_task(&mut db, "Second", None, None, &Priority::Low, now).unwrap();
    let c = add_task(&mut db, "Third", None, None, &Priority::Low, now).unwrap();
    assert!(a != b && b != c && a != c);

    // Mutations do not change any task's id.
    complete_task(&mut db, b, now + 1).unwrap();
    update_task(&mut db, c, Some("Third anew"), None, None, None, now + 2).unwrap();
    let ids: Vec<Option<i32>> = db.get_all_tasks(true, None).iter().map(|t| t.id).collect();
    assert!(ids.contains(&Some(a)) && ids.contains(&Some(b)) && ids.contains(&Some(c)));
}

#[test]
fn test_not_found_message_exact() {
    assert_eq!(
        TaskError::NotFound(42).message(),
        "Task with ID 42 not found"
    );
    assert_eq!(
        TaskError::NotFound(-7).message(),
        "Task with ID -7 not found"
    );
}

#[test]
fn test_display_summary_exact() {
    let task = Task {
        id: Some(5),
        title: "Write".to_string(),
        description: None,
        due_date: None,
        priority: 2,
        completed: false,
        created_at: 0,
        updated_at: 0,
    };
    assert_eq!(task.display_summary(), "[5] Write HIGH PENDING No due date");
}

#[test]
fn test_display_detailed_timestamps() {
    let task = Task {
        id: Some(9),
        title: "Dated".to_string(),
        description: Some("with times".to_string()),
        due_date: Some(TS_2030_01_01),
        priority: 0,
        completed: true,
        created_at: TS_2030_01_01,
        updated_at: TS_2030_01_01 + 3660,
    };
    let detailed = task.display_detailed();
    assert!(detailed.contains("Task #9: Dated"));
    assert!(detailed.contains("Priority: LOW"));
    assert!(detailed.contains("Status: COMPLETED"));
    assert!(detailed.contains("Due: 2030-01-01"));
    assert!(detailed.contains("Description: with times"));
    assert!(detailed.contains("Created: 2030-01-01 00:00"));
    assert!(detailed.contains("Updated: 2030-01-01 01:01"));
}

#[test]
fn test_priority_filter_exact() {
    let mut db = Database::new();
    let now = now_ts();
    add_task(&mut db, "Low one", None, None, &Priority::Low, now).unwrap();
    add_task(&mut db, "High one", None, None, &Priority::High, now).unwrap();

    let highs = tasklist::commands::list_tasks(&db, true, Some(&Priority::High));
    assert_eq!(highs.len(), 1);
    assert_eq!(highs[0].title, "High one");

    let lows = tasklist::commands::list_tasks(&db, true, Some(&Priority::Low));
    assert_eq!(lows.len(), 1);
    assert_eq!(lows[0].title, "Low one");
}

#[test]
fn test_show_task_reports_not_found() {
    let db = Database::new();
    let r = tasklist::commands::show_task(&db, 3);
    assert!(matches!(r, Err(TaskError::NotFound(3))));
}
