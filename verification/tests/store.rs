use todo_list::date::{parse_date, Date};
use todo_list::priority::{parse_priority, Priority};
use todo_list::store::{EditOutcome, TaskManager};
use todo_list::task::Field;

fn june_first() -> Date {
    parse_date("2024-06-01").unwrap()
}

#[test]
fn test_add_assigns_sequential_ids() {
    let mut mgr = TaskManager::new();
    let a = mgr.add(
        String::from("one"),
        String::from(""),
        Priority::Low,
        june_first(),
    );
    assert_eq!(a, 1);
    let b = mgr.add(
        String::from("two"),
        String::from(""),
        Priority::High,
        june_first(),
    );
    assert_eq!(b, 2);
    assert!(mgr.remove(2));
    let c = mgr.add(
        String::from("three"),
        String::from(""),
        Priority::Medium,
        june_first(),
    );
    assert_eq!(c, 3);
}

#[test]
fn test_add_then_list_shows_task_once() {
    let mut mgr = TaskManager::new();
    let id = mgr.add(
        String::from("Buy milk"),
        String::from("2% milk"),
        Priority::Low,
        june_first(),
    );
    let tasks = mgr.list();
    assert_eq!(tasks.len(), 1);
    let hits = tasks.iter().filter(|t| t.id == id).count();
    assert_eq!(hits, 1);
    let t = &tasks[0];
    assert_eq!(t.id, 1);
    assert_eq!(t.name, "Buy milk");
    assert_eq!(t.description, "2% milk");
    assert_eq!(t.priority, Priority::Low);
    assert!(!t.completed);
    assert_eq!(t.due_date, june_first());
}

#[test]
fn test_mark_completed_idempotent() {
    let mut mgr = TaskManager::new();
    let id = mgr.add(
        String::from("Buy milk"),
        String::from("2% milk"),
        Priority::Low,
        june_first(),
    );
    assert!(mgr.mark_completed(id));
    assert!(mgr.mark_completed(id));
    let t = mgr.find_by_id(id).unwrap();
    assert!(t.completed);
    assert_eq!(t.id, 1);
    assert_eq!(t.name, "Buy milk");
    assert_eq!(t.description, "2% milk");
    assert_eq!(t.priority, Priority::Low);
    assert_eq!(t.due_date, june_first());
}

#[test]
fn test_mark_completed_unknown_id() {
    let mut mgr = TaskManager::new();
    mgr.add(
        String::from("one"),
        String::from(""),
        Priority::Low,
        june_first(),
    );
    assert!(!mgr.mark_completed(7));
    assert!(!mgr.list()[0].completed);
}

#[test]
fn test_remove_then_find_not_found() {
    let mut mgr = TaskManager::new();
    mgr.add(
        String::from("one"),
        String::from(""),
        Priority::Low,
        june_first(),
    );
    mgr.add(
        String::from("two"),
        String::from(""),
        Priority::High,
        june_first(),
    );
    assert!(mgr.remove(1));
    assert!(mgr.find_by_id(1).is_none());
    let tasks = mgr.list();
    assert_eq!(tasks.len(), 1);
    assert_eq!(tasks[0].id, 2);
    assert_eq!(tasks[0].name, "two");
}

#[test]
fn test_remove_unknown_id_leaves_store() {
    let mut mgr = TaskManager::new();
    mgr.add(
        String::from("one"),
        String::from(""),
        Priority::Low,
        june_first(),
    );
    assert!(!mgr.remove(42));
    let tasks = mgr.list();
    assert_eq!(tasks.len(), 1);
    assert_eq!(tasks[0].id, 1);
    assert_eq!(tasks[0].name, "one");
}

#[test]
fn test_edit_name_replaces_only_name() {
    let mut mgr = TaskManager::new();
    let id = mgr.add(
        String::from("old name"),
        String::from("desc"),
        Priority::Medium,
        june_first(),
    );
    let r = mgr.update_field(id, Field::Name, "new name");
    assert_eq!(r, EditOutcome::Updated);
    let t = mgr.find_by_id(id).unwrap();
    assert_eq!(t.id, 1);
    assert_eq!(t.name, "new name");
    assert_eq!(t.description, "desc");
    assert_eq!(t.priority, Priority::Medium);
    assert!(!t.completed);
    assert_eq!(t.due_date, june_first());
}

#[test]
fn test_edit_description_replaces_only_description() {
    let mut mgr = TaskManager::new();
    let id = mgr.add(
        String::from("name"),
        String::from("old desc"),
        Priority::Medium,
        june_first(),
    );
    let r = mgr.update_field(id, Field::Description, "new desc");
    assert_eq!(r, EditOutcome::Updated);
    let t = mgr.find_by_id(id).unwrap();
    assert_eq!(t.name, "name");
    assert_eq!(t.description, "new desc");
    assert_eq!(t.priority, Priority::Medium);
    assert_eq!(t.due_date, june_first());
}

#[test]
fn test_edit_priority_parses_and_replaces() {
    let mut mgr = TaskManager::new();
    let id = mgr.add(
        String::from("name"),
        String::from("desc"),
        Priority::Low,
        june_first(),
    );
    let r = mgr.update_field(id, Field::Priority, "HIGH");
    assert_eq!(r, EditOutcome::Updated);
    let t = mgr.find_by_id(id).unwrap();
    assert_eq!(t.priority, Priority::High);
    assert_eq!(t.name, "name");
    assert_eq!(t.due_date, june_first());
}

#[test]
fn test_edit_invalid_priority_leaves_store() {
    let mut mgr = TaskManager::new();
    let id = mgr.add(
        String::from("name"),
        String::from("desc"),
        Priority::Low,
        june_first(),
    );
    let r = mgr.update_field(id, Field::Priority, "urgent");
    assert_eq!(r, EditOutcome::InvalidValue);
    let t = mgr.find_by_id(id).unwrap();
    assert_eq!(t.priority, Priority::Low);
    assert_eq!(t.name, "name");
}

#[test]
fn test_edit_due_date_parses_and_replaces() {
    let mut mgr = TaskManager::new();
    let id = mgr.add(
        String::from("name"),
        String::from("desc"),
        Priority::Low,
        june_first(),
    );
    let r = mgr.update_field(id, Field::DueDate, "2025-12-31");
    assert_eq!(r, EditOutcome::Updated);
    let t = mgr.find_by_id(id).unwrap();
    assert_eq!(t.due_date, parse_date("2025-12-31").unwrap());
    assert_eq!(t.name, "name");
    assert_eq!(t.priority, Priority::Low);
}

#[test]
fn test_edit_invalid_date_leaves_store() {
    let mut mgr = TaskManager::new();
    let id = mgr.add(
        String::from("name"),
        String::from("desc"),
        Priority::Low,
        june_first(),
    );
    let r = mgr.update_field(id, Field::DueDate, "12/31/2025");
    assert_eq!(r, EditOutcome::InvalidValue);
    let t = mgr.find_by_id(id).unwrap();
    assert_eq!(t.due_date, june_first());
}

#[test]
fn test_edit_unknown_id_not_found() {
    let mut mgr = TaskManager::new();
    mgr.add(
        String::from("name"),
        String::from("desc"),
        Priority::Low,
        june_first(),
    );
    let r = mgr.update_field(9, Field::Name, "whatever");
    assert_eq!(r, EditOutcome::NotFound);
    assert_eq!(mgr.list()[0].name, "name");
}

#[test]
fn test_full_scenario() {
    let mut mgr = TaskManager::new();
    let first = mgr.add(
        String::from("Buy milk"),
        String::from("2% milk"),
        parse_priority("low").unwrap(),
        parse_date("2024-06-01").unwrap(),
    );
    assert_eq!(first, 1);
    let second = mgr.add(
        String::from("Pay rent"),
        String::from(""),
        parse_priority("high").unwrap(),
        parse_date("2024-06-05").unwrap(),
    );
    assert_eq!(second, 2);
    {
        let tasks = mgr.list();
        assert_eq!(tasks.len(), 2);
        assert_eq!(tasks[0].name, "Buy milk");
        assert_eq!(tasks[1].name, "Pay rent");
    }
    assert!(mgr.mark_completed(1));
    assert!(mgr.find_by_id(1).unwrap().completed);
    assert!(mgr.remove(2));
    let tasks = mgr.list();
    assert_eq!(tasks.len(), 1);
    assert_eq!(tasks[0].id, 1);
    assert_eq!(tasks[0].name, "Buy milk");
}
