//! The task table as the queue sees it: rows kept newest first, each either
//! free or leased to one claim in flight. Leasing skips rows that another
//! claim holds, so two claims never hold the same row, and an abandoned
//! claim only has to let go of its leases.

use vstd::prelude::*;
use crate::task::Task;
use crate::task_state::TaskState;
use crate::task_type::TaskType;

verus! {

/// One stored task and, while a claim in flight holds it, that claim's worker.
#[derive(Clone, Copy, Debug, PartialEq, Eq, Structural)]
pub struct Row {
    pub task: Task,
    pub holder: Option<u64>,
}

/// Why the table refused a request.
#[derive(Clone, Copy, Debug, PartialEq, Eq, Structural)]
pub enum StoreError {
    /// A row with this id already exists.
    DuplicateId,
}

/// What a delete request found.
#[derive(Clone, Copy, Debug, PartialEq, Eq, Structural)]
pub enum DeleteOutcome {
    /// The task was incomplete and free, and is now deleted.
    Deleted,
    /// No incomplete task has this id.
    NotFound,
    /// A claim in flight holds the row; the request has to wait for it to end.
    Leased,
}

/// A row that a claim may lease: incomplete and held by nobody.
pub open spec fn free(row: Row) -> bool {
    row.holder is None && row.task.state == TaskState::Incomplete
}

/// The number of free rows among the first `i`.
pub open spec fn free_before(rows: Seq<Row>, i: int) -> nat
    decreases i,
{
    if i <= 0 {
        0
    } else {
        free_before(rows, i - 1) + if free(rows[i - 1]) { 1nat } else { 0nat }
    }
}

/// Whether a claim for at most `limit` rows leases row `i`: the row is free
/// and fewer than `limit` free rows stand before it.
pub open spec fn leased(rows: Seq<Row>, limit: nat, i: int) -> bool {
    0 <= i < rows.len() && free(rows[i]) && free_before(rows, i) < limit
}

/// The tasks that such a claim leases among the first `i` rows, in row order.
pub open spec fn batch_upto(rows: Seq<Row>, limit: nat, i: int) -> Seq<Task>
    decreases i,
{
    if i <= 0 {
        Seq::empty()
    } else {
        let before = batch_upto(rows, limit, i - 1);
        if leased(rows, limit, i - 1) {
            before.push(rows[i - 1].task)
        } else {
            before
        }
    }
}

/// The count of free rows never shrinks along the table.
pub proof fn lemma_free_before_grows(rows: Seq<Row>, i: int, j: int)
    requires
        i <= j,
    ensures
        free_before(rows, i) <= free_before(rows, j),
    decreases j - i,
{
    if i < j {
        lemma_free_before_grows(rows, i, j - 1);
    }
}

/// Once `limit` free rows have been passed, a claim leases nothing more.
pub proof fn lemma_batch_stops(rows: Seq<Row>, limit: nat, i: int, j: int)
    requires
        0 <= i <= j,
        free_before(rows, i) >= limit,
    ensures
        batch_upto(rows, limit, j) == batch_upto(rows, limit, i),
        forall|k: int| i <= k < j ==> !leased(rows, limit, k),
    decreases j - i,
{
    if i < j {
        lemma_batch_stops(rows, limit, i, j - 1);
        lemma_free_before_grows(rows, i, j - 1);
        assert forall|k: int| i <= k < j implies !leased(rows, limit, k) by {
            lemma_free_before_grows(rows, i, k);
        }
    }
}

/// The tasks that a claim for at most `limit` rows leases.
pub open spec fn batch(rows: Seq<Row>, limit: nat) -> Seq<Task> {
    batch_upto(rows, limit, rows.len() as int)
}

/// The table after `worker` has claimed at most `limit` rows.
pub open spec fn claimed(rows: Seq<Row>, worker: u64, limit: nat) -> Seq<Row> {
    Seq::new(
        rows.len(),
        |i: int|
            if leased(rows, limit, i) {
                Row { task: rows[i].task, holder: Some(worker) }
            } else {
                rows[i]
            },
    )
}

/// The table after `worker` has abandoned its claim: its leases are gone and
/// no task has changed.
pub open spec fn released(rows: Seq<Row>, worker: u64) -> Seq<Row> {
    Seq::new(
        rows.len(),
        |i: int|
            if rows[i].holder == Some(worker) {
                Row { task: rows[i].task, holder: None }
            } else {
                rows[i]
            },
    )
}

/// The table after `worker` has committed its claim: of the rows it held,
/// those whose id is in `handled` are complete, and all are free again.
pub open spec fn committed(rows: Seq<Row>, worker: u64, handled: Seq<u128>) -> Seq<Row> {
    Seq::new(
        rows.len(),
        |i: int|
            if rows[i].holder == Some(worker) {
                Row {
                    task: if handled.contains(rows[i].task.id) {
                        Task { state: TaskState::Complete, ..rows[i].task }
                    } else {
                        rows[i].task
                    },
                    holder: None,
                }
            } else {
                rows[i]
            },
    )
}

/// Whether some row carries `id`.
pub open spec fn has_id(rows: Seq<Row>, id: u128) -> bool {
    exists|i: int| 0 <= i < rows.len() && (#[trigger] rows[i]).task.id == id
}

/// The index of a row that carries `id`; meaningful when `has_id` holds.
pub open spec fn index_of_id(rows: Seq<Row>, id: u128) -> int {
    choose|i: int| 0 <= i < rows.len() && (#[trigger] rows[i]).task.id == id
}

/// The task stored under `id`, if there is one.
pub open spec fn task_of(rows: Seq<Row>, id: u128) -> Option<Task> {
    if has_id(rows, id) {
        Some(rows[index_of_id(rows, id)].task)
    } else {
        None
    }
}

/// Whether `i` is where a task submitted at `now` goes: behind every
/// strictly newer row and before the rest.
pub open spec fn is_slot(rows: Seq<Row>, now: i64, i: int) -> bool {
    &&& 0 <= i <= rows.len()
    &&& forall|k: int| 0 <= k < i ==> (#[trigger] rows[k]).task.submitted > now
    &&& i < rows.len() ==> rows[i].task.submitted <= now
}

/// The place where a task submitted at `now` goes.
pub open spec fn slot(rows: Seq<Row>, now: i64) -> int {
    choose|i: int| is_slot(rows, now, i)
}

/// The table after a delete request for `id`.
pub open spec fn deleted(rows: Seq<Row>, id: u128) -> Seq<Row> {
    if has_id(rows, id) && free(rows[index_of_id(rows, id)]) {
        let i = index_of_id(rows, id);
        rows.update(i, Row { task: Task { state: TaskState::Deleted, ..rows[i].task }, holder: None })
    } else {
        rows
    }
}

/// What a delete request for `id` answers.
pub open spec fn delete_outcome(rows: Seq<Row>, id: u128) -> DeleteOutcome {
    match task_of(rows, id) {
        None => DeleteOutcome::NotFound,
        Some(t) => if t.state != TaskState::Incomplete {
            DeleteOutcome::NotFound
        } else if rows[index_of_id(rows, id)].holder is Some {
            DeleteOutcome::Leased
        } else {
            DeleteOutcome::Deleted
        },
    }
}

/// The tasks of the first `i` rows whose type and state are both selected, in row order.
pub open spec fn listing_upto(
    rows: Seq<Row>,
    types: Seq<TaskType>,
    states: Seq<TaskState>,
    i: int,
) -> Seq<Task>
    decreases i,
{
    if i <= 0 {
        Seq::empty()
    } else {
        let before = listing_upto(rows, types, states, i - 1);
        let t = rows[i - 1].task;
        if types.contains(t.task_type) && states.contains(t.state) {
            before.push(t)
        } else {
            before
        }
    }
}

/// The tasks whose type and state are both selected, newest first.
pub open spec fn listing(rows: Seq<Row>, types: Seq<TaskType>, states: Seq<TaskState>) -> Seq<Task> {
    listing_upto(rows, types, states, rows.len() as int)
}

/// The validity of a table: no id occurs twice, rows stand newest first,
/// and only incomplete tasks are ever leased.
pub open spec fn valid(rows: Seq<Row>) -> bool {
    &&& forall|i: int, j: int|
        0 <= i < j < rows.len() ==> (#[trigger] rows[i]).task.id != (#[trigger] rows[j]).task.id
    &&& forall|i: int, j: int|
        0 <= i <= j < rows.len() ==> (#[trigger] rows[i]).task.submitted >= (
        #[trigger] rows[j]).task.submitted
    &&& forall|i: int|
        0 <= i < rows.len() && (#[trigger] rows[i]).holder is Some ==> rows[i].task.state
            == TaskState::Incomplete
}

/// The task table.
pub struct Store {
    rows: Vec<Row>,
}

impl View for Store {
    type V = Seq<Row>;

    closed spec fn view(&self) -> Seq<Row> {
        self.rows@
    }
}

fn contains_type(types: &Vec<TaskType>, t: TaskType) -> (r: bool)
    ensures
        r == types@.contains(t),
{
    let mut i: usize = 0;
    while i < types.len()
        invariant
            i <= types@.len(),
            forall|k: int| 0 <= k < i ==> types@[k] != t,
        decreases types@.len() - i,
    {
        if types[i] == t {
            return true;
        }
        i += 1;
    }
    false
}

fn contains_state(states: &Vec<TaskState>, s: TaskState) -> (r: bool)
    ensures
        r == states@.contains(s),
{
    let mut i: usize = 0;
    while i < states.len()
        invariant
            i <= states@.len(),
            forall|k: int| 0 <= k < i ==> states@[k] != s,
        decreases states@.len() - i,
    {
        if states[i] == s {
            return true;
        }
        i += 1;
    }
    false
}

fn contains_id(ids: &Vec<u128>, id: u128) -> (r: bool)
    ensures
        r == ids@.contains(id),
{
    let mut i: usize = 0;
    while i < ids.len()
        invariant
            i <= ids@.len(),
            forall|k: int| 0 <= k < i ==> ids@[k] != id,
        decreases ids@.len() - i,
    {
        if ids[i] == id {
            return true;
        }
        i += 1;
    }
    false
}

impl Store {
    /// Whether the table is valid.
    pub open spec fn wf(&self) -> bool {
        valid(self@)
    }

    /// An empty table.
    pub fn new() -> (r: Store)
        ensures
            r@ == Seq::<Row>::empty(),
            r.wf(),
    {
        Store { rows: Vec::new() }
    }

    /// The number of rows, whatever their state.
    pub fn len(&self) -> (r: usize)
        ensures
            r == self@.len(),
    {
        self.rows.len()
    }

    fn find(&self, id: u128) -> (r: Option<usize>)
        requires
            self.wf(),
        ensures
            r is Some <==> has_id(self@, id),
            r matches Some(i) ==> i == index_of_id(self@, id) && i < self@.len() && self@[i as int].task.id
                == id,
    {
        let mut i: usize = 0;
        while i < self.rows.len()
            invariant
                self.wf(),
                i <= self.rows@.len(),
                forall|k: int| 0 <= k < i ==> (#[trigger] self.rows@[k]).task.id != id,
            decreases self.rows@.len() - i,
        {
            if self.rows[i].task.id == id {
                proof {
                    let rows = self.rows@;
                    assert(rows[i as int].task.id == id);
                    let c = index_of_id(rows, id);
                    assert(rows[c].task.id == id);
                    if c < i {
                        assert(rows[c].task.id != rows[i as int].task.id);
                    }
                    if i < c {
                        assert(rows[i as int].task.id != rows[c].task.id);
                    }
                }
                return Some(i);
            }
            i += 1;
        }
        None
    }

    /// Stores a new incomplete task, submitted at `now`, under `id`. An id
    /// that is already in the table is refused and nothing changes.
    pub fn insert(&mut self, id: u128, task_type: TaskType, now: i64) -> (r: Result<(), StoreError>)
        requires
            old(self).wf(),
        ensures
            final(self).wf(),
            is_slot(old(self)@, now, slot(old(self)@, now)),
            has_id(old(self)@, id) ==> r == Err::<(), StoreError>(StoreError::DuplicateId) && final(self)@
                == old(self)@,
            !has_id(old(self)@, id) ==> r == Ok::<(), StoreError>(()) && final(self)@ == old(self)@.insert(
                slot(old(self)@, now),
                Row { task: Task { id, task_type, submitted: now, state: TaskState::Incomplete }, holder: None },
            ),
    {
        let mut i: usize = 0;
        while i < self.rows.len() && self.rows[i].task.submitted > now
            invariant
                i <= self.rows@.len(),
                forall|k: int| 0 <= k < i ==> (#[trigger] self.rows@[k]).task.submitted > now,
            decreases self.rows@.len() - i,
        {
            i += 1;
        }
        if self.find(id).is_some() {
            assert(is_slot(self.rows@, now, i as int));
            return Err(StoreError::DuplicateId);
        }
        let row = Row { task: Task::new(id, task_type, now), holder: None };
        proof {
            let rows = self.rows@;
            assert(is_slot(rows, now, i as int));
            let s = slot(rows, now);
            assert(is_slot(rows, now, s));
            if s < i {
                assert(rows[s].task.submitted > now);
            }
            if i < s {
                assert(rows[i as int].task.submitted > now);
            }
            assert(s == i);
            let next = rows.insert(i as int, row);
            assert forall|a: int, b: int| 0 <= a < b < next.len() implies (#[trigger] next[a]).task.id != (
            #[trigger] next[b]).task.id by {
                let pa = if a < i { a } else { a - 1 };
                let pb = if b < i { b } else { b - 1 };
                if a != i {
                    assert(next[a] == rows[pa]);
                }
                if b != i {
                    assert(next[b] == rows[pb]);
                }
            }
            assert forall|a: int, b: int| 0 <= a <= b < next.len() implies (#[trigger] next[a]).task.submitted
                >= (#[trigger] next[b]).task.submitted by {
                let pa = if a < i { a } else { a - 1 };
                let pb = if b < i { b } else { b - 1 };
                if a != i {
                    assert(next[a] == rows[pa]);
                }
                if b != i {
                    assert(next[b] == rows[pb]);
                }
                if i < rows.len() && b > i {
                    assert(rows[i as int].task.submitted >= rows[pb].task.submitted);
                }
            }
            assert forall|a: int| 0 <= a < next.len() && (#[trigger] next[a]).holder is Some implies next[a].task.state
                == TaskState::Incomplete by {
                let pa = if a < i { a } else { a - 1 };
                if a != i {
                    assert(next[a] == rows[pa]);
                }
            }
        }
        self.rows.insert(i, row);
        Ok(())
    }

    /// The task stored under `id`, whatever its state.
    pub fn get(&self, id: u128) -> (r: Option<Task>)
        requires
            self.wf(),
        ensures
            r == task_of(self@, id),
    {
        match self.find(id) {
            Some(i) => Some(self.rows[i].task),
            None => None,
        }
    }

    /// The tasks whose type is among `types` and whose state is among
    /// `states`, newest first. Nothing changes.
    pub fn list(&self, types: &Vec<TaskType>, states: &Vec<TaskState>) -> (r: Vec<Task>)
        ensures
            r@ == listing(self@, types@, states@),
    {
        let mut out: Vec<Task> = Vec::new();
        let mut i: usize = 0;
        while i < self.rows.len()
            invariant
                i <= self.rows@.len(),
                out@ == listing_upto(self.rows@, types@, states@, i as int),
            decreases self.rows@.len() - i,
        {
            let t = self.rows[i].task;
            if contains_type(types, t.task_type) && contains_state(states, t.state) {
                out.push(t);
            }
            i += 1;
        }
        out
    }

    /// Marks the incomplete task `id` as deleted. A task that is missing,
    /// complete or already deleted is not found; one that a claim in flight
    /// holds is left to that claim.
    pub fn delete(&mut self, id: u128) -> (r: DeleteOutcome)
        requires
            old(self).wf(),
        ensures
            final(self).wf(),
            r == delete_outcome(old(self)@, id),
            final(self)@ == deleted(old(self)@, id),
    {
        match self.find(id) {
            Some(i) => {
                let row = self.rows[i];
                match row.task.state {
                    TaskState::Incomplete => {
                        if row.holder.is_some() {
                            DeleteOutcome::Leased
                        } else {
                            self.rows[i] = Row {
                                task: Task { state: TaskState::Deleted, ..row.task },
                                holder: None,
                            };
                            DeleteOutcome::Deleted
                        }
                    },
                    _ => DeleteOutcome::NotFound,
                }
            },
            None => DeleteOutcome::NotFound,
        }
    }

    /// Leases to `worker` the first `limit` free rows, newest first, and
    /// returns their tasks. Rows that are complete, deleted or held by
    /// another claim are passed over.
    pub fn claim(&mut self, worker: u64, limit: usize) -> (r: Vec<Task>)
        requires
            old(self).wf(),
        ensures
            final(self).wf(),
            r@ == batch(old(self)@, limit as nat),
            final(self)@ == claimed(old(self)@, worker, limit as nat),
            r@.len() <= limit,
            forall|j: int| 0 <= j < r@.len() ==> (#[trigger] r@[j]).state == TaskState::Incomplete,
    {
        let ghost before = self.rows@;
        let n: usize = self.rows.len();
        let mut out: Vec<Task> = Vec::new();
        let mut i: usize = 0;
        while i < n && out.len() < limit
            invariant
                valid(before),
                n == before.len(),
                self.rows@.len() == n,
                i <= n,
                out@ == batch_upto(before, limit as nat, i as int),
                out@.len() <= limit,
                out@.len() <= i,
                out@.len() == if free_before(before, i as int) < limit {
                    free_before(before, i as int)
                } else {
                    limit as nat
                },
                forall|j: int| 0 <= j < out@.len() ==> (#[trigger] out@[j]).state == TaskState::Incomplete,
                forall|k: int| 0 <= k < i ==> (#[trigger] self.rows@[k]) == claimed(before, worker, limit as nat)[k],
                forall|k: int| i <= k < n ==> (#[trigger] self.rows@[k]) == before[k],
            decreases n - i,
        {
            let row = self.rows[i];
            let is_free = row.holder.is_none() && row.task.state == TaskState::Incomplete;
            if is_free {
                self.rows[i] = Row { task: row.task, holder: Some(worker) };
                out.push(row.task);
            }
            i += 1;
        }
        proof {
            let next = claimed(before, worker, limit as nat);
            if i < n {
                lemma_batch_stops(before, limit as nat, i as int, n as int);
            }
            assert(self.rows@ =~= next);
            assert forall|a: int, b: int| 0 <= a <= b < next.len() implies (#[trigger] next[a]).task
                == before[a].task && (#[trigger] next[b]).task == before[b].task by {}
        }
        out
    }

    /// Ends `worker`'s claim for good: of the rows it holds, those whose id
    /// is in `handled` become complete, and all of them are free again.
    pub fn commit(&mut self, worker: u64, handled: &Vec<u128>)
        requires
            old(self).wf(),
        ensures
            final(self).wf(),
            final(self)@ == committed(old(self)@, worker, handled@),
    {
        let ghost before = self.rows@;
        let n: usize = self.rows.len();
        let mut i: usize = 0;
        while i < n
            invariant
                n == before.len(),
                self.rows@.len() == n,
                i <= n,
                forall|k: int| 0 <= k < i ==> (#[trigger] self.rows@[k]) == committed(before, worker, handled@)[k],
                forall|k: int| i <= k < n ==> (#[trigger] self.rows@[k]) == before[k],
            decreases n - i,
        {
            let row = self.rows[i];
            match row.holder {
                Some(w) => {
                    if w == worker {
                        let task = if contains_id(handled, row.task.id) {
                            Task { state: TaskState::Complete, ..row.task }
                        } else {
                            row.task
                        };
                        self.rows[i] = Row { task, holder: None };
                    }
                },
                None => {},
            }
            i += 1;
        }
        proof {
            let next = committed(before, worker, handled@);
            assert(self.rows@ =~= next);
            assert forall|a: int, b: int| 0 <= a <= b < next.len() implies (#[trigger] next[a]).task.id
                == before[a].task.id && (#[trigger] next[b]).task.id == before[b].task.id && next[a].task.submitted
                == before[a].task.submitted && next[b].task.submitted == before[b].task.submitted by {}
        }
    }

    /// Abandons `worker`'s claim: the rows it holds are free again and no
    /// task has changed.
    pub fn rollback(&mut self, worker: u64)
        requires
            old(self).wf(),
        ensures
            final(self).wf(),
            final(self)@ == released(old(self)@, worker),
    {
        let ghost before = self.rows@;
        let n: usize = self.rows.len();
        let mut i: usize = 0;
        while i < n
            invariant
                n == before.len(),
                self.rows@.len() == n,
                i <= n,
                forall|k: int| 0 <= k < i ==> (#[trigger] self.rows@[k]) == released(before, worker)[k],
                forall|k: int| i <= k < n ==> (#[trigger] self.rows@[k]) == before[k],
            decreases n - i,
        {
            let row = self.rows[i];
            match row.holder {
                Some(w) => {
                    if w == worker {
                        self.rows[i] = Row { task: row.task, holder: None };
                    }
                },
                None => {},
            }
            i += 1;
        }
        proof {
            let next = released(before, worker);
            assert(self.rows@ =~= next);
            assert forall|a: int, b: int| 0 <= a <= b < next.len() implies (#[trigger] next[a]).task
                == before[a].task && (#[trigger] next[b]).task == before[b].task by {}
        }
    }
}

} // verus!
