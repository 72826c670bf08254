//! What holds of the queue as a whole: which rows a claim can return, that
//! claims in flight never share a row, that an abandoned claim leaves no
//! trace, and what requests see.

use vstd::prelude::*;
use crate::claim::{after_pass, ids_of, runnable, runnable_upto, BATCH_SIZE};
use crate::filter::selection;
use crate::store::{
    batch, batch_upto, claimed, committed, delete_outcome, deleted, free, free_before, has_id,
    index_of_id, is_slot, leased, lemma_free_before_grows, listing, listing_upto, released, slot,
    task_of, valid, DeleteOutcome, Row,
};
use crate::task::Task;
use crate::task_state::TaskState;
use crate::task_type::TaskType;

verus! {

/// A task is among those leased from the first `i` rows exactly if one of
/// those rows is leased and stores it.
pub proof fn lemma_batch_members(rows: Seq<Row>, limit: nat, i: int, t: Task)
    requires
        0 <= i <= rows.len(),
    ensures
        batch_upto(rows, limit, i).contains(t) <==> exists|k: int|
            0 <= k < i && #[trigger] leased(rows, limit, k) && rows[k].task == t,
    decreases i,
{
    if i > 0 {
        lemma_batch_members(rows, limit, i - 1, t);
        let before = batch_upto(rows, limit, i - 1);
        let cur = batch_upto(rows, limit, i);
        if leased(rows, limit, i - 1) {
            let x = rows[i - 1].task;
            assert(cur == before.push(x));
            if cur.contains(t) {
                let j = choose|j: int| 0 <= j < cur.len() && cur[j] == t;
                if j < before.len() {
                    assert(before[j] == t);
                }
            }
            if before.contains(t) {
                let j = choose|j: int| 0 <= j < before.len() && before[j] == t;
                assert(cur[j] == t);
            }
            if t == x {
                assert(cur[before.len() as int] == t);
            }
        }
    }
}

/// A task is among those of the first `i` that may run exactly if it is one
/// of them and may run.
pub proof fn lemma_runnable_members(tasks: Seq<Task>, now: i64, i: int, t: Task)
    requires
        0 <= i <= tasks.len(),
    ensures
        runnable_upto(tasks, now, i).contains(t) <==> t.eligible(now) && exists|k: int|
            0 <= k < i && #[trigger] tasks[k] == t,
    decreases i,
{
    if i > 0 {
        lemma_runnable_members(tasks, now, i - 1, t);
        let before = runnable_upto(tasks, now, i - 1);
        let cur = runnable_upto(tasks, now, i);
        let x = tasks[i - 1];
        if x.eligible(now) {
            assert(cur == before.push(x));
            if cur.contains(t) {
                let j = choose|j: int| 0 <= j < cur.len() && cur[j] == t;
                if j < before.len() {
                    assert(before[j] == t);
                }
            }
            if before.contains(t) {
                let j = choose|j: int| 0 <= j < before.len() && before[j] == t;
                assert(cur[j] == t);
            }
            if t == x {
                assert(cur[before.len() as int] == t);
            }
        }
    }
}

/// A task is listed from the first `i` rows exactly if one of those rows
/// stores it and both filters select it.
pub proof fn lemma_listing_members(
    rows: Seq<Row>,
    types: Seq<TaskType>,
    states: Seq<TaskState>,
    i: int,
    t: Task,
)
    requires
        0 <= i <= rows.len(),
    ensures
        listing_upto(rows, types, states, i).contains(t) <==> types.contains(t.task_type)
            && states.contains(t.state) && exists|k: int| 0 <= k < i && (#[trigger] rows[k]).task == t,
    decreases i,
{
    if i > 0 {
        lemma_listing_members(rows, types, states, i - 1, t);
        let before = listing_upto(rows, types, states, i - 1);
        let cur = listing_upto(rows, types, states, i);
        let x = rows[i - 1].task;
        if types.contains(x.task_type) && states.contains(x.state) {
            assert(cur == before.push(x));
            if cur.contains(t) {
                let j = choose|j: int| 0 <= j < cur.len() && cur[j] == t;
                if j < before.len() {
                    assert(before[j] == t);
                }
            }
            if before.contains(t) {
                let j = choose|j: int| 0 <= j < before.len() && before[j] == t;
                assert(cur[j] == t);
            }
            if t == x {
                assert(cur[before.len() as int] == t);
            }
        }
    }
}

/// What is listed from the first `i` rows stands newest first.
pub proof fn lemma_listing_is_ordered(
    rows: Seq<Row>,
    types: Seq<TaskType>,
    states: Seq<TaskState>,
    i: int,
)
    requires
        valid(rows),
        0 <= i <= rows.len(),
    ensures
        forall|a: int, b: int|
            0 <= a <= b < listing_upto(rows, types, states, i).len() ==> (#[trigger] listing_upto(
                rows,
                types,
                states,
                i,
            )[a]).submitted >= (#[trigger] listing_upto(rows, types, states, i)[b]).submitted,
    decreases i,
{
    if i > 0 {
        lemma_listing_is_ordered(rows, types, states, i - 1);
        let before = listing_upto(rows, types, states, i - 1);
        let cur = listing_upto(rows, types, states, i);
        let x = rows[i - 1].task;
        assert forall|a: int, b: int| 0 <= a <= b < cur.len() implies (#[trigger] cur[a]).submitted >= (
        #[trigger] cur[b]).submitted by {
            if b == before.len() && a < b {
                assert(before.contains(before[a]));
                lemma_listing_members(rows, types, states, i - 1, before[a]);
                let k = choose|k: int| 0 <= k < i - 1 && (#[trigger] rows[k]).task == before[a];
                assert(rows[k].task.submitted >= rows[i - 1].task.submitted);
            }
        }
    }
}

/// At most `limit` tasks are leased from the first `i` rows, and they stand
/// newest first.
pub proof fn lemma_batch_is_ordered(rows: Seq<Row>, limit: nat, i: int)
    requires
        valid(rows),
        0 <= i <= rows.len(),
    ensures
        batch_upto(rows, limit, i).len() <= limit,
        batch_upto(rows, limit, i).len() <= free_before(rows, i),
        forall|a: int, b: int|
            0 <= a <= b < batch_upto(rows, limit, i).len() ==> (#[trigger] batch_upto(rows, limit, i)[a]).submitted
                >= (#[trigger] batch_upto(rows, limit, i)[b]).submitted,
    decreases i,
{
    if i > 0 {
        lemma_batch_is_ordered(rows, limit, i - 1);
        let before = batch_upto(rows, limit, i - 1);
        let cur = batch_upto(rows, limit, i);
        assert forall|a: int, b: int| 0 <= a <= b < cur.len() implies (#[trigger] cur[a]).submitted >= (
        #[trigger] cur[b]).submitted by {
            if b == before.len() && a < b {
                assert(before.contains(before[a]));
                lemma_batch_members(rows, limit, i - 1, before[a]);
                let k = choose|k: int|
                    0 <= k < i - 1 && #[trigger] leased(rows, limit, k) && rows[k].task == before[a];
                assert(rows[k].task.submitted >= rows[i - 1].task.submitted);
            }
        }
    }
}

/// A claim takes the newest free rows, newest first, and never more than
/// its limit: every free row it leaves behind is no newer than any row it
/// leases.
pub proof fn law_claim_takes_the_newest(rows: Seq<Row>, limit: nat, k: int, j: int)
    requires
        valid(rows),
        leased(rows, limit, k),
        0 <= j < rows.len(),
        free(rows[j]),
        !leased(rows, limit, j),
    ensures
        rows[k].task.submitted >= rows[j].task.submitted,
        batch(rows, limit).len() <= limit,
        forall|a: int, b: int|
            0 <= a <= b < batch(rows, limit).len() ==> (#[trigger] batch(rows, limit)[a]).submitted >= (
            #[trigger] batch(rows, limit)[b]).submitted,
{
    lemma_batch_is_ordered(rows, limit, rows.len() as int);
    if j <= k {
        lemma_free_before_grows(rows, j, k);
    }
}

/// Once a task is complete or deleted, no claim returns it again: every
/// task of a batch is incomplete, and none carries the id of a finished task.
pub proof fn law_finished_tasks_are_never_claimed(rows: Seq<Row>, limit: nat, i: int, t: Task)
    requires
        valid(rows),
        0 <= i < rows.len(),
        rows[i].task.state != TaskState::Incomplete,
        batch(rows, limit).contains(t),
    ensures
        t.state == TaskState::Incomplete,
        t.id != rows[i].task.id,
{
    lemma_batch_members(rows, limit, rows.len() as int, t);
    let k = choose|k: int| 0 <= k < rows.len() && #[trigger] leased(rows, limit, k) && rows[k].task == t;
    if k < i {
        assert(rows[k].task.id != rows[i].task.id);
    }
    if i < k {
        assert(rows[i].task.id != rows[k].task.id);
    }
}

/// On a valid table, claiming, abandoning, committing and deleting keep
/// every row in its place with its id, type and submission instant, and move
/// its state only forward: a complete or deleted task stays what it is.
pub proof fn law_states_only_move_forward(
    rows: Seq<Row>,
    worker: u64,
    limit: nat,
    handled: Seq<u128>,
    id: u128,
    i: int,
)
    requires
        valid(rows),
        0 <= i < rows.len(),
    ensures
        claimed(rows, worker, limit)[i].task == rows[i].task,
        released(rows, worker)[i].task == rows[i].task,
        committed(rows, worker, handled)[i].task == (Task {
            state: committed(rows, worker, handled)[i].task.state,
            ..rows[i].task
        }),
        deleted(rows, id)[i].task == (Task { state: deleted(rows, id)[i].task.state, ..rows[i].task }),
        rows[i].task.state.may_become(committed(rows, worker, handled)[i].task.state),
        rows[i].task.state.may_become(deleted(rows, id)[i].task.state),
        claimed(rows, worker, limit).len() == rows.len(),
        released(rows, worker).len() == rows.len(),
        committed(rows, worker, handled).len() == rows.len(),
        deleted(rows, id).len() == rows.len(),
{
    if has_id(rows, id) {
        let c = index_of_id(rows, id);
        assert(0 <= c < rows.len());
    }
}

/// Every table has a place for a task submitted at `now`.
pub proof fn lemma_slot_exists(rows: Seq<Row>, now: i64, i: int)
    requires
        0 <= i <= rows.len(),
        forall|k: int| 0 <= k < i ==> (#[trigger] rows[k]).task.submitted > now,
    ensures
        is_slot(rows, now, slot(rows, now)),
    decreases rows.len() - i,
{
    if i < rows.len() && rows[i].task.submitted > now {
        lemma_slot_exists(rows, now, i + 1);
    } else {
        assert(is_slot(rows, now, i));
    }
}

/// Storing a task under a fresh id adds exactly that task: it is found
/// under its id as it was stored, and under every other id the table
/// answers as before.
pub proof fn law_insert_adds_one_task(rows: Seq<Row>, task: Task, other: u128)
    requires
        valid(rows),
        !has_id(rows, task.id),
        other != task.id,
    ensures
        task_of(rows.insert(slot(rows, task.submitted), Row { task, holder: None }), task.id) == Some(task),
        task_of(rows.insert(slot(rows, task.submitted), Row { task, holder: None }), other) == task_of(
            rows,
            other,
        ),
{
    lemma_slot_exists(rows, task.submitted, 0);
    let p = slot(rows, task.submitted);
    let next = rows.insert(p, Row { task, holder: None });
    assert(next[p].task == task);
    assert(has_id(next, task.id));
    let c = index_of_id(next, task.id);
    if c != p {
        let q = if c < p { c } else { c - 1 };
        assert(next[c] == rows[q]);
        assert(rows[q].task.id == task.id);
    }
    if has_id(rows, other) {
        let a = index_of_id(rows, other);
        let b = if a < p { a } else { a + 1 };
        assert(next[b] == rows[a]);
        assert(has_id(next, other));
    }
    if has_id(next, other) {
        let d = index_of_id(next, other);
        let q = if d < p { d } else { d - 1 };
        assert(next[d] == rows[q]);
        assert(rows[q].task.id == other);
        assert(has_id(rows, other));
        let a = index_of_id(rows, other);
        if a < q {
            assert(rows[a].task.id != rows[q].task.id);
        }
        if q < a {
            assert(rows[q].task.id != rows[a].task.id);
        }
    }
}

/// Two claims in flight never hold the same task: what a second claim
/// leases while the first is still open shares no id with the first batch.
pub proof fn law_claims_never_overlap(
    rows: Seq<Row>,
    first: u64,
    first_limit: nat,
    second_limit: nat,
    x: Task,
    y: Task,
)
    requires
        valid(rows),
        batch(rows, first_limit).contains(x),
        batch(claimed(rows, first, first_limit), second_limit).contains(y),
    ensures
        x.id != y.id,
{
    let held = claimed(rows, first, first_limit);
    lemma_batch_members(rows, first_limit, rows.len() as int, x);
    lemma_batch_members(held, second_limit, held.len() as int, y);
    let a = choose|k: int| 0 <= k < rows.len() && #[trigger] leased(rows, first_limit, k) && rows[k].task == x;
    let b = choose|k: int| 0 <= k < held.len() && #[trigger] leased(held, second_limit, k) && held[k].task == y;
    assert(held[b].holder is None);
    assert(!leased(rows, first_limit, b));
    assert(held[b].task == rows[b].task);
    if a < b {
        assert(rows[a].task.id != rows[b].task.id);
    }
    if b < a {
        assert(rows[b].task.id != rows[a].task.id);
    }
}

/// A claim that is abandoned before it commits leaves no trace: no task has
/// changed, and for a worker that held nothing before, the table is what it
/// was, so the next claim leases the same batch.
pub proof fn law_abandoned_claim_changes_nothing(rows: Seq<Row>, worker: u64, limit: nat)
    ensures
        forall|i: int|
            0 <= i < rows.len() ==> (#[trigger] released(claimed(rows, worker, limit), worker)[i]).task
                == rows[i].task,
        (forall|i: int| 0 <= i < rows.len() ==> (#[trigger] rows[i]).holder != Some(worker)) ==> {
            &&& released(claimed(rows, worker, limit), worker) == rows
            &&& batch(released(claimed(rows, worker, limit), worker), limit) == batch(rows, limit)
        },
{
    let back = released(claimed(rows, worker, limit), worker);
    if forall|i: int| 0 <= i < rows.len() ==> (#[trigger] rows[i]).holder != Some(worker) {
        assert forall|i: int| 0 <= i < rows.len() implies back[i] == rows[i] by {
            assert(rows[i].holder != Some(worker));
        }
        assert(back =~= rows);
    }
}

/// Deleting a task that is complete, deleted or missing finds nothing and
/// changes nothing.
pub proof fn law_delete_spares_finished_tasks(rows: Seq<Row>, id: u128)
    requires
        match task_of(rows, id) {
            Some(t) => t.state != TaskState::Incomplete,
            None => true,
        },
    ensures
        delete_outcome(rows, id) == DeleteOutcome::NotFound,
        deleted(rows, id) == rows,
{
}

/// Deleting an incomplete task that no claim holds marks it deleted, and a
/// second delete of the same id finds nothing and changes nothing.
pub proof fn law_delete_happens_once(rows: Seq<Row>, id: u128)
    requires
        valid(rows),
        task_of(rows, id) matches Some(t) && t.state == TaskState::Incomplete,
        rows[index_of_id(rows, id)].holder is None,
    ensures
        delete_outcome(rows, id) == DeleteOutcome::Deleted,
        task_of(deleted(rows, id), id) == Some(
            Task { state: TaskState::Deleted, ..task_of(rows, id)->Some_0 },
        ),
        delete_outcome(deleted(rows, id), id) == DeleteOutcome::NotFound,
        deleted(deleted(rows, id), id) == deleted(rows, id),
{
    let i = index_of_id(rows, id);
    let next = deleted(rows, id);
    assert(next[i].task.id == id);
    assert(has_id(next, id));
    let c = index_of_id(next, id);
    assert(next[c].task.id == id);
    if c != i {
        assert(next[c] == rows[c]);
        if c < i {
            assert(rows[c].task.id != rows[i].task.id);
        } else {
            assert(rows[i].task.id != rows[c].task.id);
        }
    }
}

/// A listing shows its tasks newest first, whatever the filters.
pub proof fn law_listing_is_newest_first(rows: Seq<Row>, types: Seq<TaskType>, states: Seq<TaskState>)
    requires
        valid(rows),
    ensures
        forall|a: int, b: int|
            0 <= a <= b < listing(rows, types, states).len() ==> (#[trigger] listing(rows, types, states)[a]).submitted
                >= (#[trigger] listing(rows, types, states)[b]).submitted,
{
    lemma_listing_is_ordered(rows, types, states, rows.len() as int);
}

/// A listing without filters selects every type and the states
/// `Incomplete` and `Complete`: it shows exactly the stored tasks that are
/// not deleted.
pub proof fn law_default_listing_hides_deleted(rows: Seq<Row>, t: Task)
    ensures
        selection::<TaskType>(None, TaskType::all()) == TaskType::all(),
        selection::<TaskState>(None, TaskState::default_filter()) == TaskState::default_filter(),
        listing(rows, TaskType::all(), TaskState::default_filter()).contains(t) <==> t.state
            != TaskState::Deleted && exists|k: int| 0 <= k < rows.len() && (#[trigger] rows[k]).task == t,
{
    lemma_listing_members(rows, TaskType::all(), TaskState::default_filter(), rows.len() as int, t);
    let types = TaskType::all();
    let states = TaskState::default_filter();
    assert(types[0] == TaskType::Fizz && types[1] == TaskType::Buzz && types[2] == TaskType::FizzBuzz);
    assert(types.contains(t.task_type));
    assert(states[0] == TaskState::Incomplete && states[1] == TaskState::Complete);
    assert(states.contains(t.state) <==> t.state != TaskState::Deleted);
}

/// One pass of a worker that held nothing completes exactly the tasks it
/// leased that may run, frees every row it leased, and leaves all other
/// rows as they were.
pub proof fn law_pass_completes_what_may_run(rows: Seq<Row>, worker: u64, now: i64, i: int)
    requires
        valid(rows),
        forall|k: int| 0 <= k < rows.len() ==> (#[trigger] rows[k]).holder != Some(worker),
        0 <= i < rows.len(),
    ensures
        after_pass(rows, worker, now)[i] == if leased(rows, BATCH_SIZE as nat, i) && rows[i].task.eligible(
            now,
        ) {
            Row { task: Task { state: TaskState::Complete, ..rows[i].task }, holder: None }
        } else {
            rows[i]
        },
{
    let limit = BATCH_SIZE as nat;
    let leases = batch(rows, limit);
    let ready = runnable(leases, now);
    let ids = ids_of(ready);
    let me = rows[i].task;
    assert(rows[i].holder != Some(worker));
    if leased(rows, limit, i) {
        lemma_batch_members(rows, limit, rows.len() as int, me);
        assert(leases.contains(me));
        lemma_runnable_members(leases, now, leases.len() as int, me);
        if me.eligible(now) {
            let k = choose|k: int| 0 <= k < leases.len() && leases[k] == me;
            assert(leases[k] == me);
            assert(ready.contains(me));
            let j = choose|j: int| 0 <= j < ready.len() && ready[j] == me;
            assert(ids[j] == me.id);
            assert(ids.contains(me.id));
        } else {
            if ids.contains(me.id) {
                let j = choose|j: int| 0 <= j < ids.len() && ids[j] == me.id;
                let other = ready[j];
                assert(ready.contains(other));
                lemma_runnable_members(leases, now, leases.len() as int, other);
                assert(leases.contains(other));
                lemma_batch_members(rows, limit, rows.len() as int, other);
                let k = choose|k: int|
                    0 <= k < rows.len() && #[trigger] leased(rows, limit, k) && rows[k].task == other;
                if k < i {
                    assert(rows[k].task.id != rows[i].task.id);
                }
                if i < k {
                    assert(rows[i].task.id != rows[k].task.id);
                }
                assert(other == me);
            }
        }
    }
}

} // verus!
