use vstd::prelude::*;

verus! {

/// One task of the list, as the store hands it out.
#[derive(Debug, Clone, PartialEq, Eq)]
pub struct Todo {
    pub id: i64,
    pub task: String,
    pub done: bool,
}

/// What a `Todo` is, mathematically.
pub ghost struct TodoModel {
    pub id: i64,
    pub task: Seq<char>,
    pub done: bool,
}

impl View for Todo {
    type V = TodoModel;

    open spec fn view(&self) -> TodoModel {
        TodoModel { id: self.id, task: self.task@, done: self.done }
    }
}

/// One field of a stored row, by its storage class.
///
/// A floating-point field is kept only as its class: no column of the
/// table holds one, and decoding rejects it whatever its value.
#[derive(Debug, Clone, PartialEq)]
pub enum ColumnValue {
    Null,
    Integer(i64),
    Real,
    Text(String),
    Blob(Vec<u8>),
}

/// Why a row could not be read as a `Todo`.
#[derive(Debug, Clone, Copy, PartialEq, Eq, Structural)]
pub enum DecodeError {
    /// The row does not have exactly three fields; holds how many it has.
    Arity(usize),
    /// The field at this position is null.
    Null(usize),
    /// The field at this position has a storage class that does not convert.
    Type(usize),
}

/// Number of fields of a stored row: `(id, task, done)`.
pub const COLUMNS: usize = 3;

/// The field at position `i` read as an integer, as for the `id` and `done`
/// columns.
pub open spec fn integer_field(v: ColumnValue, i: usize) -> Result<i64, DecodeError> {
    match v {
        ColumnValue::Integer(n) => Ok(n),
        ColumnValue::Null => Err(DecodeError::Null(i)),
        _ => Err(DecodeError::Type(i)),
    }
}

/// The field at position `i` read as text, as for the `task` column.
pub open spec fn text_field(v: ColumnValue, i: usize) -> Result<Seq<char>, DecodeError> {
    match v {
        ColumnValue::Text(s) => Ok(s@),
        ColumnValue::Null => Err(DecodeError::Null(i)),
        _ => Err(DecodeError::Type(i)),
    }
}

/// The record a row stands for: fields are read by position, `(id, task,
/// done)`, and the first field that does not convert is reported. A stored
/// boolean is an integer, and any value but zero is true.
pub open spec fn decoded(row: Seq<ColumnValue>) -> Result<TodoModel, DecodeError> {
    if row.len() != COLUMNS {
        Err(DecodeError::Arity(row.len() as usize))
    } else {
        match integer_field(row[0], 0) {
            Err(e) => Err(e),
            Ok(id) => match text_field(row[1], 1) {
                Err(e) => Err(e),
                Ok(task) => match integer_field(row[2], 2) {
                    Err(e) => Err(e),
                    Ok(flag) => Ok(TodoModel { id, task, done: flag != 0 }),
                },
            },
        }
    }
}

/// The parameters of an insert for `task`: the text, then `done` stored as
/// false. The identity is left to the storage engine.
pub open spec fn insert_params_of(params: Seq<ColumnValue>, task: Seq<char>) -> bool {
    &&& params.len() == 2
    &&& text_field(params[0], 1) == Ok::<Seq<char>, DecodeError>(task)
    &&& params[1] == ColumnValue::Integer(0)
}

fn integer_at(row: &Vec<ColumnValue>, i: usize) -> (r: Result<i64, DecodeError>)
    requires
        i < row@.len(),
    ensures
        r == integer_field(row@[i as int], i),
{
    match &row[i] {
        ColumnValue::Integer(n) => Ok(*n),
        ColumnValue::Null => Err(DecodeError::Null(i)),
        _ => Err(DecodeError::Type(i)),
    }
}

/// Reads a stored row `(id, task, done)` as a `Todo`.
pub fn decode_row(row: &Vec<ColumnValue>) -> (r: Result<Todo, DecodeError>)
    ensures
        match (r, decoded(row@)) {
            (Ok(t), Ok(m)) => t@ == m,
            (Err(e), Err(f)) => e == f,
            _ => false,
        },
{
    if row.len() != COLUMNS {
        return Err(DecodeError::Arity(row.len()));
    }
    let id = match integer_at(row, 0) {
        Ok(n) => n,
        Err(e) => return Err(e),
    };
    let task = match &row[1] {
        ColumnValue::Text(s) => s.clone(),
        ColumnValue::Null => return Err(DecodeError::Null(1)),
        _ => return Err(DecodeError::Type(1)),
    };
    let flag = match integer_at(row, 2) {
        Ok(n) => n,
        Err(e) => return Err(e),
    };
    Ok(Todo { id, task, done: flag != 0 })
}

/// The parameters of the insert that creates a record for `task`.
pub fn encode_insert(task: &String) -> (r: Vec<ColumnValue>)
    ensures
        insert_params_of(r@, task@),
{
    vec![ColumnValue::Text(task.clone()), ColumnValue::Integer(0)]
}

/// A row made of an identity and the parameters of an insert reads back as
/// the record that was meant: the given identity and task, not done. Decoding
/// and encoding agree on how a boolean is stored.
pub proof fn lemma_insert_then_decode(id: i64, params: Seq<ColumnValue>, task: Seq<char>)
    requires
        insert_params_of(params, task),
    ensures
        decoded(seq![ColumnValue::Integer(id)] + params) == Ok::<TodoModel, DecodeError>(
            TodoModel { id, task, done: false },
        ),
{
    let row = seq![ColumnValue::Integer(id)] + params;
    assert(row[0] == ColumnValue::Integer(id));
    assert(row[1] == params[0]);
    assert(row[2] == params[1]);
}

} // verus!
