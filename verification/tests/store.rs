use practice_tasks::db::{DBError, TaskStatus, User, UserSettings, DB};
use practice_tasks::math::{Operation, Task};

fn create_db() -> DB {
    let mut db = DB::new();
    db.migrate().expect("migrate");
    db
}

#[test]
fn test_connect() {
    let _ = create_db();
    assert!(true);
}

#[test]
fn test_users() {
    let mut db = create_db();
    let users = db.get_users().unwrap();
    assert_eq!(users.len(), 0);

    // insert user
    let uid = db.new_user(123);
    assert!(uid.is_ok());

    // check if more users appeared
    let users = db.get_users().unwrap();
    assert_eq!(users.len(), 1);

    // update user
    let user = &users[0];
    let upd_user = User {
        id: user.id,
        chat_id: user.chat_id,
        name: "Danil".to_string(),
        settings: vec![UserSettings {
            operation: Operation::PLUS,
            prob_bits: (1.0f64).to_bits(),
            n_from: 10,
            n_to: 20,
        }],
    };
    assert!(db.update_user(&upd_user).is_ok());

    let user = &db.get_users().unwrap()[0];
    let settings = &user.settings[0];
    assert_eq!(user.name, "Danil");
    assert_eq!(settings.n_from, 10);
    assert_eq!(settings.n_to, 20);
    assert_eq!(settings.prob_bits, (1.0f64).to_bits());
}

#[test]
fn test_tasks() {
    let mut db = create_db();
    let _ = db.new_user(123);

    let users = db.get_users().unwrap();
    let user = &users[0];

    let new_task = Task {
        num_left: 10,
        num_right: 20,
        operation: Operation::PLUS,
    };

    assert!(db.add_task(user.id, &new_task).is_ok());
    let tasks = db.get_tasks(user.id, None).unwrap();
    assert_eq!(tasks.len(), 1);
}

#[test]
fn test_new_user_has_one_entry_per_operation() {
    let mut db = create_db();
    db.new_user(55).unwrap();
    let users = db.get_users().unwrap();
    assert_eq!(users.len(), 1);
    let settings = &users[0].settings;
    assert_eq!(settings.len(), 4);
    assert_eq!(settings[0].operation, Operation::PLUS);
    assert_eq!(settings[1].operation, Operation::MINUS);
    assert_eq!(settings[2].operation, Operation::MULTIPLY);
    assert_eq!(settings[3].operation, Operation::DIVIDE);
    for i in 0..4 {
        for j in (i + 1)..4 {
            assert_ne!(settings[i].operation, settings[j].operation);
        }
    }
}

#[test]
fn test_new_user_default_settings() {
    let mut db = create_db();
    db.new_user(55).unwrap();
    let users = db.get_users().unwrap();
    for entry in &users[0].settings {
        assert_eq!(entry.prob_bits, (1.0f64).to_bits());
        assert_eq!(entry.n_from, 1);
        assert_eq!(entry.n_to, 10);
    }
}

#[test]
fn test_duplicate_chat_id_rejected() {
    let mut db = create_db();
    db.new_user(77).unwrap();
    assert_eq!(db.new_user(77), Err(DBError::Storage));
    assert_eq!(db.get_users().unwrap().len(), 1);
}

#[test]
fn test_get_user_by_chat() {
    let mut db = create_db();
    let uid = db.new_user(123).unwrap();
    assert_eq!(db.get_user_by_chat(123), Ok(uid));
    assert_eq!(db.get_user_by_chat(124), Err(DBError::NotFound));
}

#[test]
fn test_update_user_unknown_id_changes_nothing() {
    let mut db = create_db();
    db.new_user(1).unwrap();
    let before = db.get_users().unwrap();
    let absent_user = User {
        id: 999,
        chat_id: 1,
        name: "nobody".to_string(),
        settings: vec![],
    };
    assert!(db.update_user(&absent_user).is_ok());
    let after = db.get_users().unwrap();
    assert_eq!(after.len(), before.len());
    assert_eq!(after[0].name, before[0].name);
    assert_eq!(after[0].settings, before[0].settings);
}

#[test]
fn test_update_user_touches_only_named_operation() {
    let mut db = create_db();
    let uid = db.new_user(9).unwrap();
    let upd = User {
        id: uid,
        chat_id: 9,
        name: "n".to_string(),
        settings: vec![UserSettings {
            operation: Operation::MINUS,
            prob_bits: (0.5f64).to_bits(),
            n_from: 2,
            n_to: 30,
        }],
    };
    db.update_user(&upd).unwrap();
    let users = db.get_users().unwrap();
    let settings = &users[0].settings;
    assert_eq!(settings[1].prob_bits, (0.5f64).to_bits());
    assert_eq!(settings[1].n_from, 2);
    assert_eq!(settings[1].n_to, 30);
    // the other three groups keep their defaults
    for i in [0usize, 2, 3] {
        assert_eq!(settings[i].prob_bits, (1.0f64).to_bits());
        assert_eq!(settings[i].n_from, 1);
        assert_eq!(settings[i].n_to, 10);
    }
}

#[test]
fn test_add_task_lists_one_more() {
    let mut db = create_db();
    let uid = db.new_user(5).unwrap();
    let t1 = Task::new(3, 4, Operation::MULTIPLY);
    db.add_task(uid, &t1).unwrap();
    let before = db.get_tasks(uid, None).unwrap();

    let t2 = Task::new(8, 2, Operation::MINUS);
    db.add_task(uid, &t2).unwrap();
    let after = db.get_tasks(uid, None).unwrap();

    assert_eq!(after.len(), before.len() + 1);
    let newest = &after[after.len() - 1];
    assert_eq!(newest.task, t2);
    assert_eq!(newest.status, TaskStatus::NEW);
}

#[test]
fn test_identical_tasks_may_coexist() {
    let mut db = create_db();
    let uid = db.new_user(5).unwrap();
    let t = Task::new(2, 2, Operation::PLUS);
    db.add_task(uid, &t).unwrap();
    db.add_task(uid, &t).unwrap();
    let tasks = db.get_tasks(uid, None).unwrap();
    assert_eq!(tasks.len(), 2);
    assert_ne!(tasks[0].id, tasks[1].id);
}

#[test]
fn test_add_task_unknown_user_rejected() {
    let mut db = create_db();
    let t = Task::new(1, 2, Operation::PLUS);
    assert_eq!(db.add_task(42, &t), Err(DBError::Storage));
}

#[test]
fn test_grade_task_transitions() {
    let mut db = create_db();
    let uid = db.new_user(5).unwrap();
    let t = Task::new(6, 7, Operation::MULTIPLY);
    db.add_task(uid, &t).unwrap();
    let task_id = db.get_tasks(uid, None).unwrap()[0].id;

    db.grade_task(task_id, true).unwrap();
    let tasks = db.get_tasks(uid, None).unwrap();
    assert_eq!(tasks[0].status, TaskStatus::CORRECT);

    // a graded task is terminal: no second transition
    assert_eq!(db.grade_task(task_id, false), Err(DBError::NotFound));
    let tasks = db.get_tasks(uid, None).unwrap();
    assert_eq!(tasks[0].status, TaskStatus::CORRECT);
}

#[test]
fn test_grade_task_wrong_answer() {
    let mut db = create_db();
    let uid = db.new_user(5).unwrap();
    let t = Task::new(6, 7, Operation::MULTIPLY);
    db.add_task(uid, &t).unwrap();
    let task_id = db.get_tasks(uid, None).unwrap()[0].id;
    db.grade_task(task_id, false).unwrap();
    assert_eq!(db.get_tasks(uid, None).unwrap()[0].status, TaskStatus::WRONG);
}

#[test]
fn test_grade_unknown_task_rejected() {
    let mut db = create_db();
    db.new_user(5).unwrap();
    assert_eq!(db.grade_task(1, true), Err(DBError::NotFound));
}

#[test]
fn test_get_tasks_status_filter() {
    let mut db = create_db();
    let uid = db.new_user(5).unwrap();
    db.add_task(uid, &Task::new(1, 1, Operation::PLUS)).unwrap();
    db.add_task(uid, &Task::new(2, 2, Operation::PLUS)).unwrap();
    let first_id = db.get_tasks(uid, None).unwrap()[0].id;
    db.grade_task(first_id, true).unwrap();

    let fresh = db.get_tasks(uid, Some(TaskStatus::NEW)).unwrap();
    assert_eq!(fresh.len(), 1);
    assert_eq!(fresh[0].task, Task::new(2, 2, Operation::PLUS));

    let graded = db.get_tasks(uid, Some(TaskStatus::CORRECT)).unwrap();
    assert_eq!(graded.len(), 1);
    assert_eq!(graded[0].id, first_id);

    assert_eq!(db.get_tasks(uid, Some(TaskStatus::WRONG)).unwrap().len(), 0);
}

#[test]
fn test_tasks_are_per_user() {
    let mut db = create_db();
    let a = db.new_user(1).unwrap();
    let b = db.new_user(2).unwrap();
    db.add_task(a, &Task::new(1, 1, Operation::PLUS)).unwrap();
    assert_eq!(db.get_tasks(a, None).unwrap().len(), 1);
    assert_eq!(db.get_tasks(b, None).unwrap().len(), 0);
}

#[test]
fn test_migrate_twice_keeps_data() {
    let mut db = create_db();
    db.new_user(123).unwrap();
    let before = db.get_users().unwrap();

    assert!(db.migrate().is_ok());
    assert!(db.migrate().is_ok());

    let after = db.get_users().unwrap();
    assert_eq!(after.len(), before.len());
    assert_eq!(after[0].name, before[0].name);
    assert_eq!(after[0].chat_id, before[0].chat_id);
    assert_eq!(after[0].settings, before[0].settings);
}

#[test]
fn test_status_round_trip() {
    let statuses = vec![TaskStatus::NEW, TaskStatus::CORRECT, TaskStatus::WRONG];
    for s in statuses {
        let code = s.to_int();
        assert_eq!(TaskStatus::from_int(code), Some(s));
    }
}

#[test]
fn test_status_codes_are_stable() {
    assert_eq!(TaskStatus::NEW.to_int(), 0);
    assert_eq!(TaskStatus::CORRECT.to_int(), 1);
    assert_eq!(TaskStatus::WRONG.to_int(), 2);
}

#[test]
fn test_status_from_unknown_int() {
    assert_eq!(TaskStatus::from_int(3), None);
    assert_eq!(TaskStatus::from_int(-1), None);
}
