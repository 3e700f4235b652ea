use tasklist::models::Task;
use tasklist::store::Database;

fn now_ts() -> i64 {
    chrono::Utc::now().timestamp()
}

fn create_test_db() -> Database {
    let db = Database::new();
    db.init();
    db
}

fn create_test_task() -> Task {
    let now = now_ts();
    Task::new(
        "Test task".to_string(),
        Some("Test description".to_string()),
        Some(now),
        1,
        now,
    )
    .unwrap()
}

#[test]
fn db_test_database_initialization() {
    let mut db = create_test_db();

    // Test that we can add a task (table exists)
    let task = create_test_task();
    let id = db.add_task(&task).unwrap();
    assert_eq!(id, 1);
}

#[test]
fn test_add_and_get_task() {
    let mut db = create_test_db();

    let task = create_test_task();
    let id = db.add_task(&task).unwrap();

    let retrieved_task = db.get_task_by_id(id).unwrap();
    assert_eq!(retrieved_task.title, "Test task");
    assert_eq!(
        retrieved_task.description,
        Some("Test description".to_string())
    );
    assert_eq!(retrieved_task.priority, 1);
    assert_eq!(retrieved_task.completed, false);
}

#[test]
fn test_get_all_tasks() {
    let mut db = create_test_db();

    // Add multiple tasks
    let now = now_ts();
    let task1 = Task::new("Task 1".to_string(), None, None, 0, now).unwrap();
    let task2 = Task::new("Task 2".to_string(), None, None, 2, now).unwrap();

    db.add_task(&task1).unwrap();
    db.add_task(&task2).unwrap();

    let tasks = db.get_all_tasks(true, None);
    assert_eq!(tasks.len(), 2);

    // Test priority filtering
    let high_priority_tasks = db.get_all_tasks(true, Some(2));
    assert_eq!(high_priority_tasks.len(), 1);
    assert_eq!(high_priority_tasks[0].title, "Task 2");
}

#[test]
fn db_test_complete_task() {
    let mut db = create_test_db();

    let task = create_test_task();
    let id = db.add_task(&task).unwrap();

    // Complete the task
    db.complete_task(id, now_ts()).unwrap();

    let completed_task = db.get_task_by_id(id).unwrap();
    assert!(completed_task.completed);
}

#[test]
fn db_test_delete_task() {
    let mut db = create_test_db();

    let task = create_test_task();
    let id = db.add_task(&task).unwrap();

    // Verify task exists
    assert!(db.task_exists(id));

    // Delete the task
    db.delete_task(id);

    // Verify task is deleted
    assert!(!db.task_exists(id));
    assert!(db.get_task_by_id(id).is_none());
}

#[test]
fn db_test_update_task() {
    let mut db = create_test_db();

    let task = create_test_task();
    let id = db.add_task(&task).unwrap();

    // Update the task
    let mut updated_task = db.get_task_by_id(id).unwrap();
    updated_task.title = "Updated task".to_string();
    updated_task.priority = 2;

    db.update_task(id, &updated_task, now_ts()).unwrap();

    let retrieved_task = db.get_task_by_id(id).unwrap();
    assert_eq!(retrieved_task.title, "Updated task");
    assert_eq!(retrieved_task.priority, 2);
}

#[test]
fn main_test_database_initialization() {
    let mut db = create_test_db();

    // Test that the store is properly initialized
    let task = Task::new("Test task".to_string(), None, None, 1, now_ts()).unwrap();

    let id = db.add_task(&task).unwrap();
    assert_eq!(id, 1);
}
