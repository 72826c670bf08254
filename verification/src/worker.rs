//! The worker's side of a pass, one store round trip at a time: what to ask
//! of the store next, given what it answered last. Whoever talks to the
//! store performs the action and hands back the event.

use vstd::prelude::*;
use crate::claim::{
    after_pass, handled_ids, handles, ids_of, process_batch, runnable, BATCH_SIZE,
};
use crate::store::{batch, Store};
use crate::task::{Handled, Task};

verus! {

/// Where a worker stands within a pass.
#[derive(Clone, Copy, Debug, PartialEq, Eq, Structural)]
pub enum Phase {
    /// Not started.
    Idle,
    /// Waiting for the transaction to open.
    Beginning,
    /// Waiting for the leased batch.
    Selecting,
    /// Waiting for a row to be marked complete.
    Completing,
    /// Waiting for the commit.
    Committing,
    /// Waiting for the rollback.
    RollingBack,
}

/// What the worker asks of the store.
#[derive(Clone, Copy, Debug, PartialEq, Eq, Structural)]
pub enum Action {
    /// Open a transaction.
    Begin,
    /// Lease up to `limit` incomplete rows, newest first, passing over rows
    /// that another transaction holds.
    Select { limit: usize },
    /// Mark the leased row `id` complete, inside the transaction.
    Complete { id: u128 },
    /// Commit the transaction: the batch becomes visible and free as a whole.
    Commit,
    /// Abandon the transaction: every lease goes and nothing has changed.
    Rollback,
}

/// What the store answered.
#[derive(Clone, Debug)]
pub enum Event {
    /// The action succeeded; for `Select` see `Selected`.
    Done,
    /// The selection succeeded and leased these rows.
    Selected(Vec<Task>),
    /// The action failed.
    Failed,
}

/// The next action, and what the step handled: the lines to emit now.
#[derive(Debug)]
pub struct Step {
    pub action: Action,
    pub handled: Vec<Handled>,
}

/// A worker as contracts see it.
pub struct WorkerView {
    pub phase: Phase,
    /// The ids this pass handled, in batch order.
    pub pending: Seq<u128>,
    /// How many of them the store has been asked to mark complete.
    pub marked: nat,
}

/// One claim worker.
pub struct Worker {
    phase: Phase,
    pending: Vec<u128>,
    marked: usize,
}

impl View for Worker {
    type V = WorkerView;

    closed spec fn view(&self) -> WorkerView {
        WorkerView { phase: self.phase, pending: self.pending@, marked: self.marked as nat }
    }
}

/// A worker waiting for its transaction, with nothing handled yet.
pub open spec fn beginning() -> WorkerView {
    WorkerView { phase: Phase::Beginning, pending: Seq::empty(), marked: 0 }
}

/// A worker waiting for its rollback.
pub open spec fn rolling_back() -> WorkerView {
    WorkerView { phase: Phase::RollingBack, pending: Seq::empty(), marked: 0 }
}

/// Whether the event is the answer that the phase waits for.
pub open spec fn expected(phase: Phase, event: Event) -> bool {
    match phase {
        Phase::Selecting => event is Selected,
        Phase::Beginning | Phase::Completing | Phase::Committing => event is Done,
        Phase::Idle | Phase::RollingBack => true,
    }
}

/// The worker after `event` arrived at `now`.
pub open spec fn next(w: WorkerView, event: Event, now: i64) -> WorkerView {
    if !expected(w.phase, event) {
        rolling_back()
    } else {
        match w.phase {
            Phase::Idle | Phase::RollingBack | Phase::Committing => beginning(),
            Phase::Beginning => WorkerView { phase: Phase::Selecting, ..w },
            Phase::Selecting => {
                let ids = ids_of(runnable(event->Selected_0@, now));
                if ids.len() == 0 {
                    WorkerView { phase: Phase::Committing, pending: ids, marked: 0 }
                } else {
                    WorkerView { phase: Phase::Completing, pending: ids, marked: 1 }
                }
            },
            Phase::Completing => if w.marked < w.pending.len() {
                WorkerView { marked: w.marked + 1, ..w }
            } else {
                WorkerView { phase: Phase::Committing, ..w }
            },
        }
    }
}

/// What a worker in state `w` is waiting for the store to do.
pub open spec fn awaited(w: WorkerView) -> Action {
    match w.phase {
        Phase::Idle | Phase::Beginning => Action::Begin,
        Phase::Selecting => Action::Select { limit: BATCH_SIZE },
        Phase::Completing => Action::Complete { id: w.pending[w.marked - 1] },
        Phase::Committing => Action::Commit,
        Phase::RollingBack => Action::Rollback,
    }
}

impl Worker {
    /// The validity of a worker: it never counts more marked rows than it
    /// handled, and while it waits for a row to be marked, that row is one
    /// of those it handled.
    pub open spec fn wf(&self) -> bool {
        &&& self@.marked <= self@.pending.len()
        &&& self@.phase == Phase::Completing ==> self@.marked >= 1
    }

    /// A worker that has not started.
    pub fn new() -> (r: Worker)
        ensures
            r@ == (WorkerView { phase: Phase::Idle, pending: Seq::empty(), marked: 0 }),
            r.wf(),
    {
        Worker { phase: Phase::Idle, pending: Vec::new(), marked: 0 }
    }

    /// The phase the worker is in.
    pub fn phase(&self) -> (r: Phase)
        ensures
            r == self@.phase,
    {
        self.phase
    }

    /// Starts a pass from scratch: the first thing to ask for is a transaction.
    pub fn start(&mut self) -> (r: Action)
        ensures
            final(self)@ == beginning(),
            final(self).wf(),
            r == Action::Begin,
    {
        self.phase = Phase::Beginning;
        self.pending = Vec::new();
        self.marked = 0;
        Action::Begin
    }

    /// Takes the store's answer to the last action and says what to ask
    /// next. An answer that reports a failure, or that the phase does not
    /// wait for, abandons the pass: the next action is a rollback, and after
    /// it a fresh pass begins. The leased rows that may run at `now` are
    /// handled on the spot; a commit is only asked for once every one of
    /// them has been marked complete.
    pub fn step(&mut self, event: Event, now: i64) -> (r: Step)
        requires
            old(self).wf(),
        ensures
            final(self).wf(),
            final(self)@ == next(old(self)@, event, now),
            r.action == awaited(final(self)@),
            if old(self)@.phase == Phase::Selecting && event is Selected {
                handles(r.handled@, event->Selected_0@, now)
            } else {
                r.handled@.len() == 0
            },
            r.action == Action::Commit ==> final(self)@.marked == final(self)@.pending.len(),
            event is Failed && old(self)@.phase != Phase::Idle && old(self)@.phase != Phase::RollingBack
                ==> r.action == Action::Rollback,
    {
        let nothing: Vec<Handled> = Vec::new();
        match (self.phase, event) {
            (Phase::Idle, _) | (Phase::RollingBack, _) | (Phase::Committing, Event::Done) => {
                let action = self.start();
                Step { action, handled: nothing }
            },
            (Phase::Beginning, Event::Done) => {
                self.phase = Phase::Selecting;
                Step { action: Action::Select { limit: BATCH_SIZE }, handled: nothing }
            },
            (Phase::Selecting, Event::Selected(rows)) => {
                let handled = process_batch(&rows, now);
                let ids = handled_ids(&handled);
                assert(ids@ =~= ids_of(runnable(rows@, now)));
                if ids.len() == 0 {
                    self.pending = ids;
                    self.marked = 0;
                    self.phase = Phase::Committing;
                    Step { action: Action::Commit, handled }
                } else {
                    let first = ids[0];
                    self.pending = ids;
                    self.marked = 1;
                    self.phase = Phase::Completing;
                    Step { action: Action::Complete { id: first }, handled }
                }
            },
            (Phase::Completing, Event::Done) => {
                if self.marked < self.pending.len() {
                    let id = self.pending[self.marked];
                    self.marked = self.marked + 1;
                    Step { action: Action::Complete { id }, handled: nothing }
                } else {
                    self.phase = Phase::Committing;
                    Step { action: Action::Commit, handled: nothing }
                }
            },
            _ => {
                self.phase = Phase::RollingBack;
                self.pending = Vec::new();
                self.marked = 0;
                Step { action: Action::Rollback, handled: nothing }
            },
        }
    }
}

/// One whole pass of worker `id` over the table at `now`, step by step as
/// the worker asks for it: lease a batch, run what may run, mark it
/// complete and commit. Returns what was handled, with the lines to emit.
pub fn run_pass(store: &mut Store, id: u64, now: i64) -> (r: Vec<Handled>)
    requires
        old(store).wf(),
    ensures
        final(store).wf(),
        final(store)@ == after_pass(old(store)@, id, now),
        handles(r@, batch(old(store)@, BATCH_SIZE as nat), now),
{
    let mut worker = Worker::new();
    worker.start();
    worker.step(Event::Done, now);
    let tasks = store.claim(id, BATCH_SIZE);
    let ghost ids = ids_of(runnable(tasks@, now));
    let first = worker.step(Event::Selected(tasks), now);
    let handled = first.handled;
    let mut action = first.action;
    let mut marked: Vec<u128> = Vec::new();
    assert(marked@ =~= ids.take(0));
    loop
        invariant
            worker.wf(),
            worker@.pending == ids,
            action == awaited(worker@),
            worker@.phase == Phase::Completing || worker@.phase == Phase::Committing,
            worker@.phase == Phase::Completing ==> marked@ == ids.take(worker@.marked - 1),
            worker@.phase == Phase::Committing ==> marked@ == ids,
        ensures
            marked@ == ids,
        decreases ids.len() - marked@.len(),
    {
        match action {
            Action::Complete { id: task } => {
                marked.push(task);
                assert(marked@ =~= ids.take(worker@.marked as int));
                assert(ids.take(ids.len() as int) =~= ids);
                action = worker.step(Event::Done, now).action;
            },
            _ => {
                break;
            },
        }
    }
    store.commit(id, &marked);
    handled
}

} // verus!
