use task_store::table::{StoreError, TaskTable};
use task_store::task::Id;

#[test]
fn create_ok() {
    // -- Setup
    let mut db = TaskTable::new();
    let fx_title = "create_ok title";

    // -- Exec
    let res = db.create(fx_title).expect("create Task failed");

    // -- Get
    let id = res.id;
    let task = db.read(id).expect("select Task failed");
    assert_eq!(task.title, fx_title);

    // -- Cleanup
    let count = db.delete(id);
    assert_eq!(count, 1, "Did not delete the row?");
}

#[test]
fn get_err_not_found() {
    // -- Setup
    let db = TaskTable::new();
    let fx_id = 100;

    // -- Exec
    let res = db.read(fx_id);

    // -- Check
    assert!(matches!(res, None), "Did a task get found?");
}

#[test]
fn create_read_delete_with_id_42() {
    let mut db = TaskTable::starting_at(42);
    let created = db.create("create_ok title");
    assert_eq!(created, Ok(Id { id: 42 }));
    let task = db.read(42).expect("the task was just created");
    assert_eq!(task.id, 42);
    assert_eq!(task.title, "create_ok title");
    assert_eq!(db.delete(42), 1);
}

#[test]
fn first_id_is_one_and_ids_count_up() {
    let mut db = TaskTable::new();
    assert_eq!(db.create("a"), Ok(Id { id: 1 }));
    assert_eq!(db.create("b"), Ok(Id { id: 2 }));
    assert_eq!(db.create("a"), Ok(Id { id: 3 }));
    assert_eq!(db.read(1).map(|t| t.title), Some(String::from("a")));
    assert_eq!(db.read(2).map(|t| t.title), Some(String::from("b")));
    assert_eq!(db.read(3).map(|t| t.id), Some(3));
}

#[test]
fn missing_id_is_not_found_however_often_read() {
    let mut db = TaskTable::new();
    db.create("only one").expect("an id is left");
    for _ in 0..5 {
        assert!(db.read(100).is_none());
        assert!(db.read(0).is_none());
        assert!(db.read(-1).is_none());
    }
    assert!(db.read(1).is_some());
}

#[test]
fn title_round_trips_exactly() {
    let titles = ["", " ", "plain", "tab\tand\nnewline", "ünïcôdé ✓", "  padded  "];
    let mut db = TaskTable::new();
    for title in titles {
        let id = db.create(title).expect("an id is left").id;
        let task = db.read(id).expect("the task was just created");
        assert_eq!(task.id, id);
        assert_eq!(task.title, title);
    }
}

#[test]
fn second_delete_removes_nothing() {
    let mut db = TaskTable::new();
    let id = db.create("short lived").expect("an id is left").id;
    assert_eq!(db.delete(id), 1);
    assert_eq!(db.delete(id), 0);
    assert!(db.read(id).is_none());
}

#[test]
fn delete_leaves_the_other_tasks() {
    let mut db = TaskTable::new();
    let a = db.create("a").expect("an id is left").id;
    let b = db.create("b").expect("an id is left").id;
    let c = db.create("c").expect("an id is left").id;
    assert_eq!(db.delete(b), 1);
    assert_eq!(db.read(a).map(|t| t.title), Some(String::from("a")));
    assert!(db.read(b).is_none());
    assert_eq!(db.read(c).map(|t| t.title), Some(String::from("c")));
}

#[test]
fn deleted_id_is_not_given_out_again() {
    let mut db = TaskTable::new();
    let first = db.create("first").expect("an id is left").id;
    assert_eq!(db.delete(first), 1);
    let second = db.create("second").expect("an id is left").id;
    assert_eq!(second, first + 1);
    assert!(db.read(first).is_none());
}

#[test]
fn delete_of_missing_id_removes_nothing() {
    let mut db = TaskTable::new();
    assert_eq!(db.delete(100), 0);
    db.create("kept").expect("an id is left");
    assert_eq!(db.delete(100), 0);
    assert!(db.read(1).is_some());
}

#[test]
fn create_fails_when_ids_are_exhausted() {
    let mut db = TaskTable::starting_at(i64::MAX - 1);
    assert_eq!(db.create("last"), Ok(Id { id: i64::MAX - 1 }));
    assert_eq!(db.create("one too many"), Err(StoreError::IdsExhausted));
    assert_eq!(db.create("still none"), Err(StoreError::IdsExhausted));
    assert!(db.read(i64::MAX).is_none());
    assert_eq!(db.read(i64::MAX - 1).map(|t| t.title), Some(String::from("last")));
}
