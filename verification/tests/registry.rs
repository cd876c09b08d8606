use task_manager::{ErrorKind, TaskManager, TaskRecord, Transfer};

fn two_users() -> TaskManager {
    let mut manager = TaskManager::new();
    manager.add_user(1, "Alice".to_string());
    manager.add_user(2, "Bob".to_string());
    manager
}

fn sorted(mut records: Vec<TaskRecord>) -> Vec<TaskRecord> {
    records.sort_by_key(|record| record.id);
    records
}

#[test]
fn new_registry_is_empty() {
    let manager = TaskManager::new();
    assert!(manager.list_tasks().is_empty());
    assert_eq!(manager.next_task_id(), 1);
    assert!(manager.user(1).is_none());
    assert!(manager.task(1).is_none());
}

#[test]
fn add_user_stores_id_and_name() {
    let manager = two_users();
    let alice = manager.user(1).unwrap();
    assert_eq!(alice.id, 1);
    assert_eq!(alice.name, "Alice");
    let bob = manager.user(2).unwrap();
    assert_eq!(bob.id, 2);
    assert_eq!(bob.name, "Bob");
    assert!(manager.user(3).is_none());
}

#[test]
fn last_registration_wins() {
    let mut manager = TaskManager::new();
    manager.add_user(7, "first".to_string());
    manager.add_user(8, "other".to_string());
    manager.add_user(7, "second".to_string());
    manager.add_user(7, "third".to_string());
    assert_eq!(manager.user(7).unwrap().name, "third");
    assert_eq!(manager.user(8).unwrap().name, "other");
}

#[test]
fn registering_again_renames_the_owner_in_listings() {
    let mut manager = two_users();
    assert_eq!(manager.add_task(1, "Buy milk".to_string()), Ok(1));
    manager.add_user(1, "Alicia".to_string());
    let records = manager.list_tasks();
    assert_eq!(records.len(), 1);
    assert_eq!(records[0].owner_name, "Alicia");
}

#[test]
fn user_id_zero_and_empty_name_are_accepted() {
    let mut manager = TaskManager::new();
    manager.add_user(0, String::new());
    assert_eq!(manager.user(0).unwrap().name, "");
    assert_eq!(manager.add_task(0, String::new()), Ok(1));
    let records = manager.list_tasks();
    assert_eq!(records[0].description, "");
    assert_eq!(records[0].owner_name, "");
}

#[test]
fn add_task_returns_ids_from_one_upwards() {
    let mut manager = two_users();
    assert_eq!(manager.add_task(1, "a".to_string()), Ok(1));
    assert_eq!(manager.add_task(2, "b".to_string()), Ok(2));
    assert_eq!(manager.add_task(1, "c".to_string()), Ok(3));
    assert_eq!(manager.next_task_id(), 4);
}

#[test]
fn add_task_stores_an_open_task() {
    let mut manager = two_users();
    assert_eq!(manager.add_task(2, "Walk the dog".to_string()), Ok(1));
    let task = manager.task(1).unwrap();
    assert_eq!(task.id, 1);
    assert_eq!(task.description, "Walk the dog");
    assert!(!task.completed);
    assert_eq!(task.owner, 2);
}

#[test]
fn add_task_for_unknown_owner_fails_and_uses_no_id() {
    let mut manager = two_users();
    assert_eq!(manager.add_task(99, "X".to_string()), Err(ErrorKind::UserNotFound));
    assert_eq!(manager.next_task_id(), 1);
    assert!(manager.list_tasks().is_empty());
    assert_eq!(manager.add_task(1, "Y".to_string()), Ok(1));
}

#[test]
fn add_task_in_empty_registry_fails() {
    let mut manager = TaskManager::new();
    assert_eq!(manager.add_task(1, "X".to_string()), Err(ErrorKind::UserNotFound));
}

#[test]
fn task_ids_keep_growing_between_failures_and_other_operations() {
    let mut manager = two_users();
    let mut last = 0;
    for round in 0..5 {
        assert_eq!(manager.add_task(99, "refused".to_string()), Err(ErrorKind::UserNotFound));
        let id = manager.add_task(1, format!("task {}", round)).unwrap();
        assert!(id > last);
        last = id;
        assert!(manager.transfer_task(id, 2).is_ok());
        assert_eq!(manager.complete_task(id), Ok(()));
        assert_eq!(manager.complete_task(id + 1), Err(ErrorKind::TaskNotFound));
    }
    assert_eq!(last, 5);
}

#[test]
fn transfer_replaces_the_owner_and_reports_the_old_one() {
    let mut manager = two_users();
    assert_eq!(manager.add_task(1, "Buy milk".to_string()), Ok(1));
    assert_eq!(
        manager.transfer_task(1, 2),
        Ok(Transfer { task_id: 1, old_owner: 1, new_owner: 2 })
    );
    let task = manager.task(1).unwrap();
    assert_eq!(task.owner, 2);
    assert_eq!(task.description, "Buy milk");
    assert!(!task.completed);
    assert_eq!(
        manager.transfer_task(1, 1),
        Ok(Transfer { task_id: 1, old_owner: 2, new_owner: 1 })
    );
    assert_eq!(manager.task(1).unwrap().owner, 1);
}

#[test]
fn transfer_to_the_current_owner_succeeds() {
    let mut manager = two_users();
    assert_eq!(manager.add_task(1, "Buy milk".to_string()), Ok(1));
    assert_eq!(
        manager.transfer_task(1, 1),
        Ok(Transfer { task_id: 1, old_owner: 1, new_owner: 1 })
    );
    assert_eq!(manager.task(1).unwrap().owner, 1);
}

#[test]
fn transfer_of_unknown_task_fails_whoever_the_new_owner_is() {
    let mut manager = two_users();
    assert_eq!(manager.add_task(1, "Buy milk".to_string()), Ok(1));
    assert_eq!(manager.transfer_task(5, 2), Err(ErrorKind::TaskNotFound));
    assert_eq!(manager.transfer_task(5, 99), Err(ErrorKind::TaskNotFound));
    assert_eq!(manager.transfer_task(0, 1), Err(ErrorKind::TaskNotFound));
    assert_eq!(manager.task(1).unwrap().owner, 1);
}

#[test]
fn transfer_to_unknown_user_fails_and_keeps_the_owner() {
    let mut manager = two_users();
    assert_eq!(manager.add_task(1, "Buy milk".to_string()), Ok(1));
    assert_eq!(manager.transfer_task(1, 99), Err(ErrorKind::UserNotFound));
    assert_eq!(manager.task(1).unwrap().owner, 1);
}

#[test]
fn transfer_leaves_other_tasks_alone() {
    let mut manager = two_users();
    assert_eq!(manager.add_task(1, "a".to_string()), Ok(1));
    assert_eq!(manager.add_task(1, "b".to_string()), Ok(2));
    assert!(manager.transfer_task(2, 2).is_ok());
    assert_eq!(manager.task(1).unwrap().owner, 1);
    assert_eq!(manager.task(2).unwrap().owner, 2);
}

#[test]
fn complete_sets_the_flag_and_may_be_repeated() {
    let mut manager = two_users();
    assert_eq!(manager.add_task(1, "Buy milk".to_string()), Ok(1));
    assert!(!manager.task(1).unwrap().completed);
    assert_eq!(manager.complete_task(1), Ok(()));
    assert!(manager.task(1).unwrap().completed);
    assert_eq!(manager.complete_task(1), Ok(()));
    let task = manager.task(1).unwrap();
    assert!(task.completed);
    assert_eq!(task.owner, 1);
    assert_eq!(task.description, "Buy milk");
}

#[test]
fn complete_of_unknown_task_fails() {
    let mut manager = two_users();
    assert_eq!(manager.complete_task(1), Err(ErrorKind::TaskNotFound));
    assert_eq!(manager.add_task(1, "Buy milk".to_string()), Ok(1));
    assert_eq!(manager.complete_task(2), Err(ErrorKind::TaskNotFound));
    assert_eq!(manager.complete_task(0), Err(ErrorKind::TaskNotFound));
    assert!(!manager.task(1).unwrap().completed);
}

#[test]
fn completion_survives_a_transfer() {
    let mut manager = two_users();
    assert_eq!(manager.add_task(1, "Buy milk".to_string()), Ok(1));
    assert_eq!(manager.complete_task(1), Ok(()));
    assert!(manager.transfer_task(1, 2).is_ok());
    let task = manager.task(1).unwrap();
    assert!(task.completed);
    assert_eq!(task.owner, 2);
}

#[test]
fn owner_name_is_the_registered_name() {
    let mut manager = two_users();
    assert_eq!(manager.owner_name(1), "Alice");
    assert_eq!(manager.owner_name(2), "Bob");
    manager.add_user(2, "Robert".to_string());
    assert_eq!(manager.owner_name(2), "Robert");
}

#[test]
fn owner_name_of_an_unregistered_id_is_unknown() {
    let manager = two_users();
    assert_eq!(manager.owner_name(3), "Unknown");
    assert_eq!(manager.owner_name(0), "Unknown");
    assert_eq!(TaskManager::new().owner_name(1), "Unknown");
}

#[test]
fn listing_has_one_record_for_each_task() {
    let mut manager = two_users();
    assert_eq!(manager.add_task(1, "a".to_string()), Ok(1));
    assert_eq!(manager.add_task(2, "b".to_string()), Ok(2));
    assert_eq!(manager.add_task(1, "c".to_string()), Ok(3));
    assert_eq!(manager.complete_task(2), Ok(()));
    assert!(manager.transfer_task(3, 2).is_ok());
    let records = sorted(manager.list_tasks());
    assert_eq!(
        records,
        vec![
            TaskRecord {
                id: 1,
                description: "a".to_string(),
                owner_name: "Alice".to_string(),
                completed: false,
            },
            TaskRecord {
                id: 2,
                description: "b".to_string(),
                owner_name: "Bob".to_string(),
                completed: true,
            },
            TaskRecord {
                id: 3,
                description: "c".to_string(),
                owner_name: "Bob".to_string(),
                completed: false,
            },
        ]
    );
}

#[test]
fn listing_can_be_repeated_and_changes_nothing() {
    let mut manager = two_users();
    assert_eq!(manager.add_task(1, "a".to_string()), Ok(1));
    assert_eq!(manager.add_task(2, "b".to_string()), Ok(2));
    let first = sorted(manager.list_tasks());
    let second = sorted(manager.list_tasks());
    assert_eq!(first, second);
    assert_eq!(manager.next_task_id(), 3);
}

#[test]
fn listing_of_many_tasks_is_complete() {
    let mut manager = two_users();
    for i in 0..100 {
        assert_eq!(manager.add_task(1 + i % 2, format!("task {}", i)), Ok(i + 1));
    }
    let records = sorted(manager.list_tasks());
    assert_eq!(records.len(), 100);
    for (i, record) in records.iter().enumerate() {
        assert_eq!(record.id, i + 1);
        assert_eq!(record.description, format!("task {}", i));
        assert_eq!(record.owner_name, if i % 2 == 0 { "Alice" } else { "Bob" });
        assert!(!record.completed);
    }
}

#[test]
fn one_task_from_creation_to_completion() {
    let mut manager = TaskManager::new();
    manager.add_user(1, "Alice".to_string());
    manager.add_user(2, "Bob".to_string());
    assert_eq!(manager.add_task(1, "Buy milk".to_string()), Ok(1));
    assert_eq!(manager.add_task(99, "X".to_string()), Err(ErrorKind::UserNotFound));
    assert_eq!(manager.list_tasks().len(), 1);
    assert!(manager.transfer_task(1, 2).is_ok());
    assert_eq!(manager.task(1).unwrap().owner, 2);
    assert_eq!(manager.complete_task(1), Ok(()));
    assert_eq!(
        manager.list_tasks(),
        vec![TaskRecord {
            id: 1,
            description: "Buy milk".to_string(),
            owner_name: "Bob".to_string(),
            completed: true,
        }]
    );
    assert_eq!(manager.transfer_task(5, 1), Err(ErrorKind::TaskNotFound));
    assert_eq!(manager.complete_task(5), Err(ErrorKind::TaskNotFound));
}
