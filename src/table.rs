use vstd::prelude::*;

use crate::record::{ColumnValue, Todo, TodoModel, decoded, encode_insert};
use crate::store::{StoreError, create_outcome, listing_outcome, lookup_outcome, record_of};

verus! {

/// The table as it stands: its records in the order they were inserted, and
/// the largest identity ever handed out (zero when none was).
pub ghost struct TableModel {
    pub records: Seq<TodoModel>,
    pub last_id: i64,
}

/// Identities grow along the sequence.
pub open spec fn ids_ascending(records: Seq<TodoModel>) -> bool {
    forall|i: int, j: int| 0 <= i < j < records.len() ==> records[i].id < records[j].id
}

/// Every identity is positive and at most `last_id`.
pub open spec fn ids_within(records: Seq<TodoModel>, last_id: i64) -> bool {
    forall|i: int| 0 <= i < records.len() ==> 1 <= #[trigger] records[i].id <= last_id
}

/// Some record carries identity `id`.
pub open spec fn holds_id(records: Seq<TodoModel>, id: i64) -> bool {
    exists|i: int| 0 <= i < records.len() && #[trigger] records[i].id == id
}

impl TableModel {
    pub open spec fn valid(self) -> bool {
        &&& self.last_id >= 0
        &&& ids_ascending(self.records)
        &&& ids_within(self.records, self.last_id)
    }

    /// The record that the next create of `task` makes.
    pub open spec fn next_record(self, task: Seq<char>) -> TodoModel {
        TodoModel { id: (self.last_id + 1) as i64, task, done: false }
    }

    /// The table after a create of `task`.
    pub open spec fn inserted(self, task: Seq<char>) -> TableModel {
        TableModel {
            records: self.records.push(self.next_record(task)),
            last_id: (self.last_id + 1) as i64,
        }
    }
}

/// The table that creates of `tasks`, in order, make from an empty table.
pub open spec fn built(tasks: Seq<Seq<char>>) -> TableModel
    decreases tasks.len(),
{
    if tasks.len() == 0 {
        TableModel { records: Seq::empty(), last_id: 0 }
    } else {
        built(tasks.drop_last()).inserted(tasks.last())
    }
}

/// A create on a valid table keeps it valid, gives an identity above every
/// one already there, and a lookup of that identity then finds exactly the
/// record the create returned.
pub proof fn lemma_create_then_get(before: TableModel, task: Seq<char>)
    requires
        before.valid(),
        before.last_id < i64::MAX,
    ensures
        before.inserted(task).valid(),
        forall|i: int| 0 <= i < before.records.len() ==> #[trigger] before.records[i].id < before.next_record(task).id,
        holds_id(before.inserted(task).records, before.next_record(task).id),
        forall|i: int|
            0 <= i < before.inserted(task).records.len() && #[trigger] before.inserted(task).records[i].id
                == before.next_record(task).id ==> before.inserted(task).records[i] == before.next_record(task),
{
    let after = before.inserted(task);
    let m = before.next_record(task);
    let n = before.records.len();
    assert(after.records[n as int] == m);
    assert forall|i: int| 0 <= i < after.records.len() implies 1 <= #[trigger] after.records[i].id <= after.last_id by {
        if i < n {
            assert(after.records[i] == before.records[i]);
        }
    }
    assert forall|i: int, j: int| 0 <= i < j < after.records.len() implies after.records[i].id < after.records[j].id by {
        assert(after.records[i] == before.records[i]);
        if j < n {
            assert(after.records[j] == before.records[j]);
        }
    }
    assert forall|i: int| 0 <= i < after.records.len() && #[trigger] after.records[i].id == m.id implies after.records[i]
        == m by {
        if i < n {
            assert(after.records[i] == before.records[i]);
        }
    }
}

/// On a table made by creates of `tasks` from an empty table, the records
/// are exactly what those creates returned, in order: the `i`-th has
/// identity `i + 1`, its task, and is not done. So identities strictly grow
/// and no two records share one.
pub proof fn lemma_fresh_table(tasks: Seq<Seq<char>>)
    requires
        tasks.len() <= i64::MAX,
    ensures
        built(tasks).valid(),
        built(tasks).last_id == tasks.len(),
        built(tasks).records.len() == tasks.len(),
        forall|i: int| 0 <= i < tasks.len() ==> #[trigger] built(tasks).records[i] == (TodoModel {
            id: (i + 1) as i64,
            task: tasks[i],
            done: false,
        }),
    decreases tasks.len(),
{
    if tasks.len() > 0 {
        let prev = tasks.drop_last();
        lemma_fresh_table(prev);
        lemma_create_then_get(built(prev), tasks.last());
        let b = built(tasks);
        assert forall|i: int| 0 <= i < tasks.len() implies #[trigger] b.records[i] == (TodoModel {
            id: (i + 1) as i64,
            task: tasks[i],
            done: false,
        }) by {
            if i < prev.len() {
                assert(b.records[i] == built(prev).records[i]);
                assert(prev[i] == tasks[i]);
            }
        }
    } else {
        let b = built(tasks);
        assert(b.records.len() == 0);
    }
}

/// On a table made by creates of `tasks` from an empty table, an identity
/// that none of them returned is held by no record.
pub proof fn lemma_unissued_id_absent(tasks: Seq<Seq<char>>, id: i64)
    requires
        tasks.len() <= i64::MAX,
        !(1 <= id <= tasks.len()),
    ensures
        !holds_id(built(tasks).records, id),
{
    lemma_fresh_table(tasks);
}

/// A stored row: the three columns, `done` held as an integer.
struct StoredRow {
    id: i64,
    task: String,
    done: i64,
}

/// The todo table held in memory. Identities are handed out in increasing
/// order, starting from one, and never reused; a create fails once the
/// largest identity is taken.
pub struct TodoTable {
    rows: Vec<StoredRow>,
    last_id: i64,
}

spec fn stored_model(r: StoredRow) -> TodoModel {
    TodoModel { id: r.id, task: r.task@, done: r.done != 0 }
}

impl View for TodoTable {
    type V = TableModel;

    closed spec fn view(&self) -> TableModel {
        TableModel { records: self.rows@.map_values(|r: StoredRow| stored_model(r)), last_id: self.last_id }
    }
}

/// The row the engine gives back for a stored row, columns `(id, task, done)`.
fn materialize(r: &StoredRow) -> (row: Vec<ColumnValue>)
    ensures
        record_of(row) == stored_model(*r),
        decoded(row@) is Ok,
{
    let row = vec![ColumnValue::Integer(r.id), ColumnValue::Text(r.task.clone()), ColumnValue::Integer(r.done)];
    assert(row@[0] == ColumnValue::Integer(r.id));
    assert(row@[2] == ColumnValue::Integer(r.done));
    row
}

impl TodoTable {
    pub open spec fn wf(&self) -> bool {
        self@.valid()
    }

    /// An empty table.
    pub fn new() -> (t: TodoTable)
        ensures
            t.wf(),
            t@.records == Seq::<TodoModel>::empty(),
            t@.last_id == 0,
    {
        let t = TodoTable { rows: Vec::new(), last_id: 0 };
        assert(t@.records =~= Seq::<TodoModel>::empty());
        t
    }

    /// Stores a new record for `task` under the next identity, not done.
    pub fn create(&mut self, task: String) -> (r: Result<Todo, StoreError>)
        requires
            old(self).wf(),
        ensures
            final(self).wf(),
            old(self)@.last_id < i64::MAX ==> {
                &&& r is Ok
                &&& r->Ok_0@ == old(self)@.next_record(task@)
                &&& final(self)@ == old(self)@.inserted(task@)
            },
            old(self)@.last_id == i64::MAX ==> {
                &&& r == Err::<Todo, StoreError>(StoreError::Write)
                &&& final(self)@ == old(self)@
            },
    {
        if self.last_id == i64::MAX {
            return create_outcome(task, false, 0);
        }
        let params = encode_insert(&task);
        let stored_task = match &params[0] {
            ColumnValue::Text(s) => s.clone(),
            _ => return create_outcome(task, false, 0),
        };
        let done = match &params[1] {
            ColumnValue::Integer(n) => *n,
            _ => return create_outcome(task, false, 0),
        };
        let id = self.last_id + 1;
        let ghost before = self@;
        self.rows.push(StoredRow { id, task: stored_task, done });
        self.last_id = id;
        assert(self@.records =~= before.inserted(task@).records);
        create_outcome(task, true, id)
    }

    /// The record under identity `id`, or `None` where there is none.
    pub fn get_by_id(&self, id: i64) -> (r: Result<Option<Todo>, StoreError>)
        requires
            self.wf(),
        ensures
            holds_id(self@.records, id) ==> r is Ok && r->Ok_0 is Some,
            forall|i: int|
                0 <= i < self@.records.len() && #[trigger] self@.records[i].id == id ==> r is Ok && r->Ok_0 is Some
                    && r->Ok_0->Some_0@ == self@.records[i],
            !holds_id(self@.records, id) ==> r matches Ok(None),
    {
        let ghost recs = self@.records;
        let mut matched: Vec<Vec<ColumnValue>> = Vec::new();
        let ghost mut at: int = -1;
        let mut i: usize = 0;
        while i < self.rows.len()
            invariant
                self.wf(),
                recs == self@.records,
                recs.len() == self.rows@.len(),
                i <= recs.len(),
                matched@.len() <= 1,
                matched@.len() == 0 ==> forall|j: int| 0 <= j < i ==> (#[trigger] recs[j]).id != id,
                matched@.len() == 1 ==> {
                    &&& 0 <= at < i
                    &&& recs[at].id == id
                    &&& decoded(matched@[0]@) is Ok
                    &&& record_of(matched@[0]) == recs[at]
                },
            decreases recs.len() - i,
        {
            assert(recs[i as int] == stored_model(self.rows@[i as int]));
            if self.rows[i].id == id {
                if matched.len() == 1 {
                    assert(recs[at].id < recs[i as int].id);
                }
                matched.push(materialize(&self.rows[i]));
                proof {
                    at = i as int;
                }
            }
            i = i + 1;
        }
        let ghost rows_seen = matched@;
        let r = lookup_outcome(Some(matched));
        proof {
            assert forall|k: int| 0 <= k < recs.len() && #[trigger] recs[k].id == id implies rows_seen.len() == 1
                && record_of(rows_seen[0]) == recs[k] by {
                if at != k {
                    if at < k {
                        assert(recs[at].id < recs[k].id);
                    } else {
                        assert(recs[k].id < recs[at].id);
                    }
                }
            }
        }
        r
    }

    /// Every record, in the order of their identities.
    pub fn list_all(&self) -> (r: Result<Vec<Todo>, StoreError>)
        requires
            self.wf(),
        ensures
            r is Ok,
            r->Ok_0@.len() == self@.records.len(),
            forall|i: int| 0 <= i < self@.records.len() ==> (#[trigger] r->Ok_0@[i])@ == self@.records[i],
    {
        let ghost recs = self@.records;
        let mut rows: Vec<Vec<ColumnValue>> = Vec::new();
        let mut i: usize = 0;
        while i < self.rows.len()
            invariant
                recs == self@.records,
                recs.len() == self.rows@.len(),
                i <= recs.len(),
                rows@.len() == i,
                forall|j: int| 0 <= j < i ==> (#[trigger] decoded(rows@[j]@)) is Ok,
                forall|j: int| 0 <= j < i ==> #[trigger] record_of(rows@[j]) == recs[j],
            decreases recs.len() - i,
        {
            assert(recs[i as int] == stored_model(self.rows@[i as int]));
            rows.push(materialize(&self.rows[i]));
            i = i + 1;
        }
        listing_outcome(Some(rows))
    }
}

} // verus!
