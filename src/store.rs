use vstd::prelude::*;

use crate::record::{ColumnValue, DecodeError, Todo, TodoModel, decode_row, decoded};

verus! {

/// Why an operation of the store failed. A lookup that finds nothing is no
/// failure: it is `Ok(None)`.
#[derive(Debug, Clone, Copy, PartialEq, Eq, Structural)]
pub enum StoreError {
    /// No connection could be had from the pool.
    Pool,
    /// The insert statement failed.
    Write,
    /// The query could not run, or a row it gave does not decode.
    Read,
    /// More than one row carries the identity that was looked up.
    Invariant,
}

/// The table: identity assigned by the engine, columns in the order that
/// decoding reads them.
pub const CREATE_TABLE_SQL: &'static str =
    "CREATE TABLE IF NOT EXISTS todos (id INTEGER PRIMARY KEY AUTOINCREMENT, task TEXT NOT NULL, done BOOLEAN NOT NULL DEFAULT 0)";

/// The insert; its parameters are those of `encode_insert`.
pub const INSERT_SQL: &'static str = "INSERT INTO todos (task, done) VALUES (?1, ?2)";

/// The lookup by identity; its one parameter is the identity.
pub const SELECT_ONE_SQL: &'static str = "SELECT id, task, done FROM todos WHERE id = ?1";

/// The scan of every row, ascending by identity.
pub const SELECT_ALL_SQL: &'static str = "SELECT id, task, done FROM todos ORDER BY id";

/// What a lookup by identity gives, from the rows that the query matched.
pub open spec fn lookup_of(rows: Seq<Vec<ColumnValue>>) -> Result<Option<TodoModel>, StoreError> {
    if rows.len() == 0 {
        Ok(None)
    } else if rows.len() > 1 {
        Err(StoreError::Invariant)
    } else {
        match decoded(rows[0]@) {
            Ok(m) => Ok(Some(m)),
            Err(_) => Err(StoreError::Read),
        }
    }
}

/// Every row of a scan decodes.
pub open spec fn all_decode(rows: Seq<Vec<ColumnValue>>) -> bool {
    forall|i: int| 0 <= i < rows.len() ==> (#[trigger] decoded(rows[i]@)) is Ok
}

/// The record that `row` stands for, where it decodes.
pub open spec fn record_of(row: Vec<ColumnValue>) -> TodoModel {
    decoded(row@)->Ok_0
}

/// The outcome of a create, from whether the insert ran and the identity the
/// engine then reports for the connection's latest insert.
pub fn create_outcome(task: String, inserted: bool, rowid: i64) -> (r: Result<Todo, StoreError>)
    ensures
        inserted ==> r is Ok && r->Ok_0@ == (TodoModel { id: rowid, task: task@, done: false }),
        !inserted ==> r == Err::<Todo, StoreError>(StoreError::Write),
{
    if inserted {
        Ok(Todo { id: rowid, task, done: false })
    } else {
        Err(StoreError::Write)
    }
}

/// The outcome of a lookup by identity, from the rows the query matched, or
/// `None` where the query failed.
pub fn lookup_outcome(rows: Option<Vec<Vec<ColumnValue>>>) -> (r: Result<Option<Todo>, StoreError>)
    ensures
        match rows {
            None => r == Err::<Option<Todo>, StoreError>(StoreError::Read),
            Some(v) => match (r, lookup_of(v@)) {
                (Ok(None), Ok(None)) => true,
                (Ok(Some(t)), Ok(Some(m))) => t@ == m,
                (Err(e), Err(f)) => e == f,
                _ => false,
            },
        },
{
    match rows {
        None => Err(StoreError::Read),
        Some(v) => {
            if v.len() == 0 {
                Ok(None)
            } else if v.len() > 1 {
                Err(StoreError::Invariant)
            } else {
                match decode_row(&v[0]) {
                    Ok(t) => Ok(Some(t)),
                    Err(_) => Err(StoreError::Read),
                }
            }
        },
    }
}

/// The outcome of listing every record, from the rows of the scan, or `None`
/// where the scan failed. One row that does not decode fails the whole
/// listing; otherwise the records come in the order of the rows.
pub fn listing_outcome(rows: Option<Vec<Vec<ColumnValue>>>) -> (r: Result<Vec<Todo>, StoreError>)
    ensures
        match rows {
            None => r == Err::<Vec<Todo>, StoreError>(StoreError::Read),
            Some(v) => {
                &&& r is Ok <==> all_decode(v@)
                &&& r is Err ==> r == Err::<Vec<Todo>, StoreError>(StoreError::Read)
                &&& r is Ok ==> {
                    &&& r->Ok_0@.len() == v@.len()
                    &&& forall|i: int| 0 <= i < v@.len() ==> (#[trigger] r->Ok_0@[i])@ == record_of(v@[i])
                }
            },
        },
{
    match rows {
        None => Err(StoreError::Read),
        Some(v) => {
            let mut out: Vec<Todo> = Vec::new();
            let mut i: usize = 0;
            while i < v.len()
                invariant
                    rows == Some(v),
                    i <= v@.len(),
                    out@.len() == i,
                    forall|j: int| 0 <= j < i ==> (#[trigger] decoded(v@[j]@)) is Ok,
                    forall|j: int| 0 <= j < i ==> (#[trigger] out@[j])@ == record_of(v@[j]),
                decreases v@.len() - i,
            {
                match decode_row(&v[i]) {
                    Ok(t) => out.push(t),
                    Err(_) => {
                        assert(!(decoded(v@[i as int]@) is Ok));
                        return Err(StoreError::Read);
                    },
                }
                i = i + 1;
            }
            Ok(out)
        },
    }
}

} // verus!
