//! The claim engine: one pass leases a bounded batch of free rows, runs what
//! may run, and commits the batch as a whole. This file says what a pass
//! runs and what it leaves behind.

use vstd::prelude::*;
use crate::store::{batch, claimed, committed, Row};
use crate::task::{Handled, Task};

verus! {

/// The most rows one pass leases.
pub const BATCH_SIZE: usize = 5;

/// The tasks among the first `i` of `tasks` that may run at `now`, in order.
pub open spec fn runnable_upto(tasks: Seq<Task>, now: i64, i: int) -> Seq<Task>
    decreases i,
{
    if i <= 0 {
        Seq::empty()
    } else {
        let before = runnable_upto(tasks, now, i - 1);
        if tasks[i - 1].eligible(now) {
            before.push(tasks[i - 1])
        } else {
            before
        }
    }
}

/// The tasks of a batch that may run at `now`, in batch order.
pub open spec fn runnable(tasks: Seq<Task>, now: i64) -> Seq<Task> {
    runnable_upto(tasks, now, tasks.len() as int)
}

/// The ids of the given tasks, in order.
pub open spec fn ids_of(tasks: Seq<Task>) -> Seq<u128> {
    Seq::new(tasks.len(), |j: int| tasks[j].id)
}

/// The table after one pass of `worker` at `now`.
pub open spec fn after_pass(rows: Seq<Row>, worker: u64, now: i64) -> Seq<Row> {
    committed(
        claimed(rows, worker, BATCH_SIZE as nat),
        worker,
        ids_of(runnable(batch(rows, BATCH_SIZE as nat), now)),
    )
}

/// Whether `handled` is what running `tasks` at `now` produces: one entry
/// for each task that may run, in order, with its id and its line.
pub open spec fn handles(handled: Seq<Handled>, tasks: Seq<Task>, now: i64) -> bool {
    &&& handled.len() == runnable(tasks, now).len()
    &&& forall|j: int|
        0 <= j < handled.len() ==> (#[trigger] handled[j]).id == runnable(tasks, now)[j].id
            && handled[j].line@ == runnable(tasks, now)[j].line(now)
}

/// Runs every task of a leased batch that may run at `now`, in batch order.
/// Tasks whose delay has not passed are left as they are.
pub fn process_batch(tasks: &Vec<Task>, now: i64) -> (r: Vec<Handled>)
    ensures
        handles(r@, tasks@, now),
{
    let mut out: Vec<Handled> = Vec::new();
    let mut i: usize = 0;
    while i < tasks.len()
        invariant
            i <= tasks@.len(),
            out@.len() == runnable_upto(tasks@, now, i as int).len(),
            forall|j: int|
                0 <= j < out@.len() ==> (#[trigger] out@[j]).id == runnable_upto(tasks@, now, i as int)[j].id
                    && out@[j].line@ == runnable_upto(tasks@, now, i as int)[j].line(now),
        decreases tasks@.len() - i,
    {
        match tasks[i].handle(now) {
            Some(h) => {
                out.push(h);
            },
            None => {},
        }
        i += 1;
    }
    out
}

/// The ids of what a pass handled, in order: the rows to mark complete.
pub fn handled_ids(handled: &Vec<Handled>) -> (r: Vec<u128>)
    ensures
        r@ == Seq::new(handled@.len(), |j: int| handled@[j].id),
{
    let mut out: Vec<u128> = Vec::new();
    let mut i: usize = 0;
    while i < handled.len()
        invariant
            i <= handled@.len(),
            out@ == Seq::new(i as nat, |j: int| handled@[j].id),
        decreases handled@.len() - i,
    {
        out.push(handled[i].id);
        i += 1;
        assert(out@ =~= Seq::new(i as nat, |j: int| handled@[j].id));
    }
    out
}

} // verus!
