//! The task table: what creating, reading and deleting a task mean, and a table
//! held in memory that does exactly that.

use vstd::prelude::*;
use crate::task::{Id, Task, TaskView};

verus! {

/// Why the table refused an operation.
#[derive(Clone, Copy, Debug, PartialEq, Eq, Structural)]
pub enum StoreError {
    /// Every id has been given out.
    IdsExhausted,
}

/// The table as contracts see it: the title stored under each id, and the id
/// that the next task will get.
pub struct TableModel {
    pub rows: Map<i64, Seq<char>>,
    pub next_id: i64,
}

impl TableModel {
    /// Every id in use was given out before `next_id`.
    pub open spec fn wf(self) -> bool {
        forall|id: i64| self.rows.contains_key(id) ==> id < self.next_id
    }

    /// Whether every id has been given out.
    pub open spec fn exhausted(self) -> bool {
        self.next_id == i64::MAX
    }

    /// What creating a task returns: the next id, unless none is left.
    pub open spec fn create_result(self) -> Result<Id, StoreError> {
        if self.exhausted() {
            Err(StoreError::IdsExhausted)
        } else {
            Ok(Id { id: self.next_id })
        }
    }

    /// The table after creating a task with `title`.
    pub open spec fn create(self, title: Seq<char>) -> TableModel {
        if self.exhausted() {
            self
        } else {
            TableModel {
                rows: self.rows.insert(self.next_id, title),
                next_id: (self.next_id + 1) as i64,
            }
        }
    }

    /// What reading `id` returns: the task stored under it, or nothing.
    pub open spec fn read(self, id: i64) -> Option<TaskView> {
        if self.rows.contains_key(id) {
            Some(TaskView { id, title: self.rows[id] })
        } else {
            None
        }
    }

    /// How many rows deleting `id` removes.
    pub open spec fn delete_count(self, id: i64) -> u64 {
        if self.rows.contains_key(id) {
            1
        } else {
            0
        }
    }

    /// The table after deleting `id`. Its id is not given out again.
    pub open spec fn delete(self, id: i64) -> TableModel {
        TableModel { rows: self.rows.remove(id), next_id: self.next_id }
    }
}

/// Creating and deleting keep a valid table valid.
pub proof fn law_validity_is_kept(table: TableModel, title: Seq<char>, id: i64)
    requires
        table.wf(),
    ensures
        table.create(title).wf(),
        table.delete(id).wf(),
{
}

/// Reading an id that the table does not hold finds nothing, and nothing else:
/// there is no error to return, and a read leaves the table as it is, so the
/// answer is the same however often it is asked.
pub proof fn law_read_missing(table: TableModel, id: i64)
    requires
        !table.rows.contains_key(id),
    ensures
        table.read(id) is None,
{
}

/// A new task gets an id that no task in the table has, and the tasks that
/// were there stay as they were.
pub proof fn law_create_is_fresh(table: TableModel, title: Seq<char>, other: i64)
    requires
        table.wf(),
        !table.exhausted(),
    ensures
        table.create_result() == Ok::<Id, StoreError>(Id { id: table.next_id }),
        table.read(table.next_id) is None,
        other != table.next_id ==> table.create(title).read(other) == table.read(other),
{
}

/// Round trip: a task that was created is read back under the id it was given,
/// with exactly the title it was created with.
pub proof fn law_create_then_read(table: TableModel, title: Seq<char>)
    requires
        !table.exhausted(),
    ensures
        table.create_result() is Ok,
        table.create(title).read(table.create_result()->Ok_0.id) == Some(
            (TaskView { id: table.create_result()->Ok_0.id, title }),
        ),
{
}

/// Deleting a task that was just created removes one row and leaves the table
/// as it was before the task was created, but for the id, which is spent;
/// deleting it again removes none.
pub proof fn law_delete_once(table: TableModel, title: Seq<char>)
    requires
        table.wf(),
        !table.exhausted(),
    ensures
        ({
            let id = table.next_id;
            let created = table.create(title);
            &&& created.delete_count(id) == 1
            &&& created.delete(id).rows == table.rows
            &&& created.delete(id).delete_count(id) == 0
            &&& created.delete(id).delete(id) == created.delete(id)
        }),
{
    let id = table.next_id;
    let created = table.create(title);
    assert(created.delete(id).rows =~= table.rows);
    assert(created.delete(id).delete(id).rows =~= created.delete(id).rows);
}

/// No two rows have the same id.
spec fn distinct_ids(rows: Seq<Task>) -> bool {
    forall|i: int, j: int| 0 <= i < j < rows.len() ==> rows[i].id != rows[j].id
}

/// Whether some row has this id.
spec fn has_id(rows: Seq<Task>, id: i64) -> bool {
    exists|i: int| 0 <= i < rows.len() && #[trigger] rows[i].id == id
}

/// The titles of the rows, by id.
spec fn titles_by_id(rows: Seq<Task>) -> Map<i64, Seq<char>> {
    Map::new(
        |id: i64| has_id(rows, id),
        |id: i64| rows[choose|i: int| 0 <= i < rows.len() && #[trigger] rows[i].id == id].title@,
    )
}

/// With distinct ids, a row is found under its id, with its title.
proof fn lemma_row_is_listed(rows: Seq<Task>, i: int)
    requires
        distinct_ids(rows),
        0 <= i < rows.len(),
    ensures
        titles_by_id(rows).contains_key(rows[i].id),
        titles_by_id(rows)[rows[i].id] == rows[i].title@,
{
    let id = rows[i].id;
    let j = choose|j: int| 0 <= j < rows.len() && #[trigger] rows[j].id == id;
    assert(j == i);
}

/// A table of tasks held in memory.
pub struct TaskTable {
    rows: Vec<Task>,
    next_id: i64,
}

impl View for TaskTable {
    type V = TableModel;

    closed spec fn view(&self) -> TableModel {
        TableModel { rows: titles_by_id(self.rows@), next_id: self.next_id }
    }
}

impl TaskTable {
    /// The table's invariant: ids are unique, and each was given out before the
    /// next one. The model of a valid table is valid: each operation says so.
    pub closed spec fn wf(&self) -> bool {
        &&& distinct_ids(self.rows@)
        &&& forall|i: int| 0 <= i < self.rows@.len() ==> self.rows@[i].id < self.next_id
    }

    /// An empty table whose first task will get id 1.
    pub fn new() -> (out: Self)
        ensures
            out.wf(),
            out@.wf(),
            out@ == (TableModel { rows: Map::empty(), next_id: 1 }),
    {
        Self::starting_at(1)
    }

    /// An empty table whose first task will get `first_id`.
    pub fn starting_at(first_id: i64) -> (out: Self)
        ensures
            out.wf(),
            out@.wf(),
            out@ == (TableModel { rows: Map::empty(), next_id: first_id }),
    {
        let out = TaskTable { rows: Vec::new(), next_id: first_id };
        assert(out@.rows =~= Map::empty());
        out
    }

    /// The position of the row with this id, if there is one.
    fn position(&self, id: i64) -> (out: Option<usize>)
        ensures
            match out {
                Some(i) => i < self.rows@.len() && self.rows@[i as int].id == id,
                None => !has_id(self.rows@, id),
            },
    {
        let mut i: usize = 0;
        while i < self.rows.len()
            invariant
                i <= self.rows@.len(),
                forall|j: int| 0 <= j < i ==> self.rows@[j].id != id,
            decreases self.rows@.len() - i,
        {
            if self.rows[i].id == id {
                return Some(i);
            }
            i += 1;
        }
        None
    }

    /// Stores a new task with this title under the next id, and returns that id.
    /// Fails, and changes nothing, only when no id is left.
    pub fn create(&mut self, title: &str) -> (out: Result<Id, StoreError>)
        requires
            old(self).wf(),
        ensures
            final(self).wf(),
            final(self)@.wf(),
            out == old(self)@.create_result(),
            final(self)@ == old(self)@.create(title@),
    {
        if self.next_id == i64::MAX {
            return Err(StoreError::IdsExhausted);
        }
        let id: i64 = self.next_id;
        let ghost before = self.rows@;
        self.rows.push(Task { id, title: title.to_owned() });
        self.next_id = id + 1;
        proof {
            let after = self.rows@;
            assert(distinct_ids(after));
            assert forall|k: i64| #[trigger]
                titles_by_id(after).contains_key(k) == titles_by_id(before).insert(
                    id,
                    title@,
                ).contains_key(k) by {
                if has_id(before, k) {
                    let i = choose|i: int| 0 <= i < before.len() && #[trigger] before[i].id == k;
                    assert(after[i].id == k);
                }
                if k == id {
                    assert(after[before.len() as int].id == k);
                }
            }
            assert forall|k: i64| #[trigger] titles_by_id(after).contains_key(k) implies titles_by_id(
                after,
            )[k] == titles_by_id(before).insert(id, title@)[k] by {
                let i = choose|i: int| 0 <= i < after.len() && #[trigger] after[i].id == k;
                lemma_row_is_listed(after, i);
                if i < before.len() {
                    lemma_row_is_listed(before, i);
                }
            }
            assert(titles_by_id(after) =~= titles_by_id(before).insert(id, title@));
        }
        Ok(Id { id })
    }

    /// The task stored under `id`, or nothing where there is none.
    pub fn read(&self, id: i64) -> (out: Option<Task>)
        requires
            self.wf(),
        ensures
            match out {
                Some(task) => self@.read(id) == Some(task@),
                None => self@.read(id) is None,
            },
    {
        match self.position(id) {
            Some(i) => {
                proof {
                    lemma_row_is_listed(self.rows@, i as int);
                }
                Some(Task { id: self.rows[i].id, title: self.rows[i].title.clone() })
            },
            None => None,
        }
    }

    /// Removes the task stored under `id` and returns how many rows that removed:
    /// one, or none where there was no such task.
    pub fn delete(&mut self, id: i64) -> (out: u64)
        requires
            old(self).wf(),
        ensures
            final(self).wf(),
            final(self)@.wf(),
            out == old(self)@.delete_count(id),
            final(self)@ == old(self)@.delete(id),
    {
        let ghost before = self.rows@;
        match self.position(id) {
            Some(i) => {
                let _ = self.rows.remove(i);
                proof {
                    let after = self.rows@;
                    assert(distinct_ids(after));
                    assert forall|k: i64| #[trigger]
                        titles_by_id(after).contains_key(k) == titles_by_id(before).remove(
                            id,
                        ).contains_key(k) by {
                        if has_id(after, k) {
                            let j = choose|j: int| 0 <= j < after.len() && #[trigger] after[j].id == k;
                            let b = if j < i { j } else { j + 1 };
                            assert(before[b].id == k);
                        }
                        if has_id(before, k) && k != id {
                            let b = choose|b: int| 0 <= b < before.len() && #[trigger] before[b].id == k;
                            let j = if b < i { b } else { b - 1 };
                            assert(after[j].id == k);
                        }
                    }
                    assert forall|k: i64| #[trigger]
                        titles_by_id(after).contains_key(k) implies titles_by_id(after)[k]
                        == titles_by_id(before).remove(id)[k] by {
                        let j = choose|j: int| 0 <= j < after.len() && #[trigger] after[j].id == k;
                        let b = if j < i { j } else { j + 1 };
                        lemma_row_is_listed(after, j);
                        lemma_row_is_listed(before, b);
                    }
                    assert(titles_by_id(after) =~= titles_by_id(before).remove(id));
                }
                1
            },
            None => {
                proof {
                    assert(titles_by_id(before) =~= titles_by_id(before).remove(id));
                }
                0
            },
        }
    }
}

} // verus!
