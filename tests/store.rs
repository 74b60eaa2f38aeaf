use todo_store::record::{decode_row, encode_insert, ColumnValue, DecodeError, Todo};
use todo_store::store::{create_outcome, listing_outcome, lookup_outcome, StoreError};
use todo_store::table::TodoTable;

fn todo(id: i64, task: &str, done: bool) -> Todo {
    Todo { id, task: task.to_string(), done }
}

fn row(id: i64, task: &str, done: i64) -> Vec<ColumnValue> {
    vec![ColumnValue::Integer(id), ColumnValue::Text(task.to_string()), ColumnValue::Integer(done)]
}

#[test]
fn scenario_buy_milk_walk_dog() {
    let mut t = TodoTable::new();
    assert_eq!(t.create("buy milk".to_string()), Ok(todo(1, "buy milk", false)));
    assert_eq!(t.create("walk dog".to_string()), Ok(todo(2, "walk dog", false)));
    assert_eq!(t.get_by_id(1), Ok(Some(todo(1, "buy milk", false))));
    assert_eq!(t.get_by_id(99), Ok(None));
    let all = t.list_all().unwrap();
    assert_eq!(all.len(), 2);
    assert!(all.contains(&todo(1, "buy milk", false)));
    assert!(all.contains(&todo(2, "walk dog", false)));
}

#[test]
fn create_then_get_round_trip() {
    let mut t = TodoTable::new();
    for task in ["", "a", "emoji \u{1F600}", "  spaced  "] {
        let made = t.create(task.to_string()).unwrap();
        assert_eq!(t.get_by_id(made.id), Ok(Some(made.clone())));
    }
}

#[test]
fn create_ids_strictly_increase() {
    let mut t = TodoTable::new();
    let mut last = 0;
    for i in 0..50 {
        let made = t.create(format!("task {}", i)).unwrap();
        assert!(made.id > last);
        assert!(!made.done);
        last = made.id;
    }
    assert_eq!(last, 50);
}

#[test]
fn get_unknown_ids_is_not_found() {
    let mut t = TodoTable::new();
    assert_eq!(t.get_by_id(1), Ok(None));
    t.create("x".to_string()).unwrap();
    assert_eq!(t.get_by_id(0), Ok(None));
    assert_eq!(t.get_by_id(-1), Ok(None));
    assert_eq!(t.get_by_id(2), Ok(None));
    assert_eq!(t.get_by_id(i64::MAX), Ok(None));
}

#[test]
fn list_after_creates_returns_them_all() {
    let mut t = TodoTable::new();
    assert_eq!(t.list_all(), Ok(vec![]));
    let mut made = Vec::new();
    for i in 0..7 {
        made.push(t.create(format!("t{}", i)).unwrap());
    }
    assert_eq!(t.list_all(), Ok(made));
}

#[test]
fn decode_reads_columns_by_position() {
    assert_eq!(decode_row(&row(7, "buy milk", 0)), Ok(todo(7, "buy milk", false)));
    assert_eq!(decode_row(&row(-3, "", 1)), Ok(todo(-3, "", true)));
    assert_eq!(decode_row(&row(4, "x", 42)), Ok(todo(4, "x", true)));
}

#[test]
fn decode_rejects_wrong_arity() {
    assert_eq!(decode_row(&vec![]), Err(DecodeError::Arity(0)));
    let mut long = row(1, "a", 0);
    long.push(ColumnValue::Null);
    assert_eq!(decode_row(&long), Err(DecodeError::Arity(4)));
    assert_eq!(
        decode_row(&vec![ColumnValue::Integer(1), ColumnValue::Text("a".to_string())]),
        Err(DecodeError::Arity(2))
    );
}

#[test]
fn decode_rejects_null_fields() {
    let mut r = row(1, "a", 0);
    r[1] = ColumnValue::Null;
    assert_eq!(decode_row(&r), Err(DecodeError::Null(1)));
    r[0] = ColumnValue::Null;
    assert_eq!(decode_row(&r), Err(DecodeError::Null(0)));
    let mut r = row(1, "a", 0);
    r[2] = ColumnValue::Null;
    assert_eq!(decode_row(&r), Err(DecodeError::Null(2)));
}

#[test]
fn decode_rejects_incompatible_types() {
    let mut r = row(1, "a", 0);
    r[0] = ColumnValue::Text("1".to_string());
    assert_eq!(decode_row(&r), Err(DecodeError::Type(0)));
    let mut r = row(1, "a", 0);
    r[1] = ColumnValue::Integer(5);
    assert_eq!(decode_row(&r), Err(DecodeError::Type(1)));
    let mut r = row(1, "a", 0);
    r[1] = ColumnValue::Blob(vec![97]);
    assert_eq!(decode_row(&r), Err(DecodeError::Type(1)));
    let mut r = row(1, "a", 0);
    r[2] = ColumnValue::Real;
    assert_eq!(decode_row(&r), Err(DecodeError::Type(2)));
}

#[test]
fn encode_fixes_done_false() {
    let p = encode_insert(&"walk dog".to_string());
    assert_eq!(p, vec![ColumnValue::Text("walk dog".to_string()), ColumnValue::Integer(0)]);
    let mut full = vec![ColumnValue::Integer(12)];
    full.extend(p);
    assert_eq!(decode_row(&full), Ok(todo(12, "walk dog", false)));
}

#[test]
fn create_outcome_uses_engine_identity() {
    assert_eq!(create_outcome("a".to_string(), true, 17), Ok(todo(17, "a", false)));
    assert_eq!(create_outcome("a".to_string(), false, 17), Err(StoreError::Write));
}

#[test]
fn lookup_outcome_cases() {
    assert_eq!(lookup_outcome(None), Err(StoreError::Read));
    assert_eq!(lookup_outcome(Some(vec![])), Ok(None));
    assert_eq!(lookup_outcome(Some(vec![row(1, "a", 0)])), Ok(Some(todo(1, "a", false))));
    assert_eq!(
        lookup_outcome(Some(vec![row(1, "a", 0), row(1, "b", 0)])),
        Err(StoreError::Invariant)
    );
    assert_eq!(lookup_outcome(Some(vec![vec![ColumnValue::Null]])), Err(StoreError::Read));
}

#[test]
fn listing_outcome_cases() {
    assert_eq!(listing_outcome(None), Err(StoreError::Read));
    assert_eq!(listing_outcome(Some(vec![])), Ok(vec![]));
    assert_eq!(
        listing_outcome(Some(vec![row(2, "b", 1), row(1, "a", 0)])),
        Ok(vec![todo(2, "b", true), todo(1, "a", false)])
    );
    let mut bad = row(3, "c", 0);
    bad[2] = ColumnValue::Text("no".to_string());
    assert_eq!(
        listing_outcome(Some(vec![row(1, "a", 0), bad, row(2, "b", 0)])),
        Err(StoreError::Read)
    );
}
