use todo_manager::manager::TodoManager;
use todo_manager::task::{Status, TodoError, TodoId, MAX_CONTENT_LEN};

#[test]
fn crud_walkthrough() {
    let mut manager = TodoManager::new();

    let a = manager.create(String::from("Learn X")).unwrap();
    assert_eq!(a.id, TodoId(1));
    assert!(matches!(a.status, Status::Doing));

    let b = manager.create(String::from("Practice")).unwrap();
    assert_eq!(b.id, TodoId(2));

    let c = manager.create(String::from("Write docs")).unwrap();
    assert_eq!(c.id, TodoId(3));

    let ids: Vec<u32> = manager.all().iter().map(|t| t.id.0).collect();
    assert_eq!(ids, vec![1, 2, 3]);

    manager.delete(TodoId(2)).unwrap();
    let ids: Vec<u32> = manager.all().iter().map(|t| t.id.0).collect();
    assert_eq!(ids, vec![1, 3]);

    assert_eq!(manager.delete(TodoId(10)).unwrap_err(), TodoError::NotFound);
    let ids: Vec<u32> = manager.all().iter().map(|t| t.id.0).collect();
    assert_eq!(ids, vec![1, 3]);

    let d = manager.create(String::from("Prepare")).unwrap();
    assert_eq!(d.id, TodoId(4));
    let ids: Vec<u32> = manager.all().iter().map(|t| t.id.0).collect();
    assert_eq!(ids, vec![1, 3, 4]);
}

#[test]
fn rejected_create_leaves_manager_untouched() {
    let mut manager = TodoManager::new();

    let err = manager.create("x".repeat(MAX_CONTENT_LEN + 1)).unwrap_err();
    assert_eq!(err, TodoError::ContentTooLong);
    assert!(manager.all().is_empty());

    let task = manager.create(String::from("short enough")).unwrap();
    assert_eq!(task.id, TodoId(1));
}
