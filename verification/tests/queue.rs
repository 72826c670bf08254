use task_queue::claim::{handled_ids, process_batch, BATCH_SIZE};
use task_queue::dispatch::{
    create, delete, get, list, lookup_status, Error, STATUS_NOT_FOUND, STATUS_OK,
    STATUS_SERVER_ERROR, STATUS_UNPROCESSABLE,
};
use task_queue::store::{DeleteOutcome, Store, StoreError};
use task_queue::task::Task;
use task_queue::task_state::TaskState;
use task_queue::task_type::TaskType;
use task_queue::worker::{run_pass, Action, Event, Phase, Worker};

const SECOND: i64 = 1_000_000_000;
const T0: i64 = 1_662_921_288_000_000_000;

fn ids(tasks: &[Task]) -> Vec<u128> {
    tasks.iter().map(|t| t.id).collect()
}

fn filled(n: u128) -> Store {
    let mut s = Store::new();
    for i in 0..n {
        assert_eq!(s.insert(i + 1, TaskType::FizzBuzz, T0 + (i as i64) * SECOND), Ok(()));
    }
    s
}

#[test]
fn batch_size_is_five() {
    assert_eq!(BATCH_SIZE, 5);
}

#[test]
fn insert_keeps_rows_newest_first() {
    let mut s = Store::new();
    assert_eq!(s.insert(1, TaskType::Fizz, T0 + 2 * SECOND), Ok(()));
    assert_eq!(s.insert(2, TaskType::Buzz, T0), Ok(()));
    assert_eq!(s.insert(3, TaskType::FizzBuzz, T0 + 5 * SECOND), Ok(()));
    assert_eq!(s.insert(4, TaskType::Fizz, T0 + 3 * SECOND), Ok(()));
    assert_eq!(s.len(), 4);
    let all = list(&s, None, None);
    assert_eq!(ids(&all), vec![3, 4, 1, 2]);
}

#[test]
fn insert_refuses_a_used_id() {
    let mut s = filled(2);
    assert_eq!(s.insert(2, TaskType::Buzz, T0), Err(StoreError::DuplicateId));
    assert_eq!(s.len(), 2);
    assert_eq!(s.get(2).unwrap().task_type, TaskType::FizzBuzz);
}

#[test]
fn get_finds_what_was_stored() {
    let s = filled(3);
    assert_eq!(
        s.get(2),
        Some(Task { id: 2, task_type: TaskType::FizzBuzz, submitted: T0 + SECOND, state: TaskState::Incomplete })
    );
    assert_eq!(s.get(9), None);
    assert_eq!(get(&s, 2).0, STATUS_OK);
    assert_eq!(get(&s, 9), (STATUS_NOT_FOUND, None));
    assert_eq!(lookup_status(&None), 404);
}

#[test]
fn claim_takes_the_five_newest_free_rows() {
    let mut s = filled(7);
    let first = s.claim(1, BATCH_SIZE);
    assert_eq!(ids(&first), vec![7, 6, 5, 4, 3]);
    assert!(first.iter().all(|t| t.state == TaskState::Incomplete));
}

#[test]
fn concurrent_claims_never_share_a_row() {
    let mut s = filled(7);
    let first = s.claim(1, BATCH_SIZE);
    let second = s.claim(2, BATCH_SIZE);
    assert_eq!(ids(&first), vec![7, 6, 5, 4, 3]);
    assert_eq!(ids(&second), vec![2, 1]);
    let third = s.claim(3, BATCH_SIZE);
    assert!(third.is_empty());
}

#[test]
fn claim_with_limit_zero_takes_nothing() {
    let mut s = filled(3);
    assert!(s.claim(1, 0).is_empty());
    assert_eq!(ids(&s.claim(2, 2)), vec![3, 2]);
}

#[test]
fn abandoned_claim_is_reclaimable() {
    let mut s = filled(3);
    let first = s.claim(1, BATCH_SIZE);
    assert_eq!(ids(&first), vec![3, 2, 1]);
    s.rollback(1);
    for id in 1..=3 {
        assert_eq!(s.get(id).unwrap().state, TaskState::Incomplete);
    }
    let again = s.claim(2, BATCH_SIZE);
    assert_eq!(again, first);
}

#[test]
fn rollback_frees_only_the_workers_own_rows() {
    let mut s = filled(7);
    s.claim(1, BATCH_SIZE);
    s.claim(2, BATCH_SIZE);
    s.rollback(2);
    assert_eq!(ids(&s.claim(3, BATCH_SIZE)), vec![2, 1]);
}

#[test]
fn commit_completes_handled_rows_and_frees_the_batch() {
    let mut s = filled(3);
    s.claim(1, BATCH_SIZE);
    s.commit(1, &vec![3, 1]);
    assert_eq!(s.get(3).unwrap().state, TaskState::Complete);
    assert_eq!(s.get(2).unwrap().state, TaskState::Incomplete);
    assert_eq!(s.get(1).unwrap().state, TaskState::Complete);
    assert_eq!(ids(&s.claim(2, BATCH_SIZE)), vec![2]);
}

#[test]
fn commit_touches_only_the_workers_own_rows() {
    let mut s = filled(7);
    s.claim(1, BATCH_SIZE);
    s.claim(2, BATCH_SIZE);
    s.commit(2, &vec![7, 2]);
    assert_eq!(s.get(7).unwrap().state, TaskState::Incomplete);
    assert_eq!(s.get(2).unwrap().state, TaskState::Complete);
}

#[test]
fn complete_tasks_are_never_claimed_again() {
    let mut s = filled(2);
    let done = run_pass(&mut s, 1, T0 + 10 * SECOND);
    assert_eq!(done.len(), 2);
    assert!(s.claim(1, BATCH_SIZE).is_empty());
    assert!(run_pass(&mut s, 2, T0 + 20 * SECOND).is_empty());
}

#[test]
fn delete_of_a_complete_task_finds_nothing() {
    let mut s = filled(1);
    run_pass(&mut s, 1, T0);
    assert_eq!(s.get(1).unwrap().state, TaskState::Complete);
    assert_eq!(delete(&mut s, 1), DeleteOutcome::NotFound);
    assert_eq!(s.get(1).unwrap().state, TaskState::Complete);
}

#[test]
fn delete_happens_once() {
    let mut s = filled(2);
    assert_eq!(delete(&mut s, 2), DeleteOutcome::Deleted);
    assert_eq!(s.get(2).unwrap().state, TaskState::Deleted);
    assert_eq!(delete(&mut s, 2), DeleteOutcome::NotFound);
    assert_eq!(s.get(2).unwrap().state, TaskState::Deleted);
    assert_eq!(s.get(1).unwrap().state, TaskState::Incomplete);
    assert_eq!(s.len(), 2);
}

#[test]
fn delete_of_a_missing_task_finds_nothing() {
    let mut s = filled(1);
    assert_eq!(delete(&mut s, 5), DeleteOutcome::NotFound);
    assert_eq!(s.len(), 1);
}

#[test]
fn delete_waits_for_a_claim_in_flight() {
    let mut s = filled(1);
    s.claim(1, BATCH_SIZE);
    assert_eq!(delete(&mut s, 1), DeleteOutcome::Leased);
    assert_eq!(s.get(1).unwrap().state, TaskState::Incomplete);
    s.rollback(1);
    assert_eq!(delete(&mut s, 1), DeleteOutcome::Deleted);
}

#[test]
fn deleted_tasks_are_never_claimed() {
    let mut s = filled(2);
    delete(&mut s, 2);
    assert_eq!(ids(&s.claim(1, BATCH_SIZE)), vec![1]);
}

#[test]
fn delete_statuses() {
    assert_eq!(DeleteOutcome::Deleted.status(), Some(200));
    assert_eq!(DeleteOutcome::NotFound.status(), Some(404));
    assert_eq!(DeleteOutcome::Leased.status(), None);
}

#[test]
fn error_statuses_and_messages() {
    assert_eq!(Error::Validation.status(), STATUS_UNPROCESSABLE);
    assert_eq!(Error::Db("pool timed out".to_string()).status(), STATUS_SERVER_ERROR);
    assert_eq!(Error::Db("pool timed out".to_string()).message(), "pool timed out");
    assert_eq!(Error::Validation.message(), "unknown task type");
    assert_eq!((STATUS_OK, STATUS_NOT_FOUND, STATUS_UNPROCESSABLE, STATUS_SERVER_ERROR), (200, 404, 422, 500));
}

#[test]
fn default_listing_hides_deleted_tasks() {
    let mut s = Store::new();
    s.insert(1, TaskType::Fizz, T0).unwrap();
    s.insert(2, TaskType::Buzz, T0 + SECOND).unwrap();
    s.insert(3, TaskType::FizzBuzz, T0 + 2 * SECOND).unwrap();
    s.insert(4, TaskType::Fizz, T0 + 3 * SECOND).unwrap();
    delete(&mut s, 2);
    run_pass(&mut s, 1, T0 + 3 * SECOND);
    let shown = list(&s, None, None);
    assert_eq!(ids(&shown), vec![4, 3, 1]);
    assert!(shown.iter().all(|t| t.state != TaskState::Deleted));
    assert_eq!(s.get(3).unwrap().state, TaskState::Complete);
    assert_eq!(s.get(1).unwrap().state, TaskState::Complete);
    assert_eq!(s.get(4).unwrap().state, TaskState::Incomplete);
    assert_eq!(ids(&list(&s, Some("bogus"), Some("bogus"))), vec![4, 3, 1]);
}

#[test]
fn listing_filters_by_type_and_state() {
    let mut s = Store::new();
    s.insert(1, TaskType::Fizz, T0).unwrap();
    s.insert(2, TaskType::Buzz, T0 + SECOND).unwrap();
    s.insert(3, TaskType::FizzBuzz, T0 + 2 * SECOND).unwrap();
    delete(&mut s, 2);
    assert_eq!(ids(&list(&s, Some("fizz,fizzbuzz"), None)), vec![3, 1]);
    assert_eq!(ids(&list(&s, None, Some("deleted"))), vec![2]);
    assert_eq!(ids(&list(&s, Some("buzz"), None)), Vec::<u128>::new());
    assert_eq!(ids(&list(&s, Some("buzz"), Some("deleted,complete"))), vec![2]);
    assert_eq!(
        ids(&s.list(&vec![TaskType::Fizz], &vec![TaskState::Incomplete])),
        vec![1]
    );
    assert_eq!(s.list(&vec![], &vec![TaskState::Incomplete]), vec![]);
}

#[test]
fn create_refuses_an_unknown_type() {
    let mut s = Store::new();
    let r = create(&mut s, "fizzy", 1, T0);
    assert!(matches!(r, Err(Error::Validation)));
    assert_eq!(s.len(), 0);
}

#[test]
fn create_answers_with_the_id_text() {
    let mut s = Store::new();
    let r = create(&mut s, "buzz", 0xa1a2a3a4b1b2c1c2d1d2d3d4d5d6d7d8, T0);
    assert_eq!(r.unwrap(), "a1a2a3a4-b1b2-c1c2-d1d2-d3d4d5d6d7d8");
    assert_eq!(
        s.get(0xa1a2a3a4b1b2c1c2d1d2d3d4d5d6d7d8),
        Some(Task {
            id: 0xa1a2a3a4b1b2c1c2d1d2d3d4d5d6d7d8,
            task_type: TaskType::Buzz,
            submitted: T0,
            state: TaskState::Incomplete
        })
    );
    let again = create(&mut s, "fizz", 0xa1a2a3a4b1b2c1c2d1d2d3d4d5d6d7d8, T0);
    assert!(matches!(again, Err(Error::Db(_))));
    assert_eq!(s.len(), 1);
}

#[test]
fn process_batch_skips_what_may_not_run_yet() {
    let tasks = vec![
        Task::new(1, TaskType::Fizz, T0),
        Task::new(2, TaskType::FizzBuzz, T0),
        Task::new(3, TaskType::Buzz, T0 - 5 * SECOND),
    ];
    let handled = process_batch(&tasks, T0);
    assert_eq!(handled_ids(&handled), vec![2, 3]);
    assert_eq!(handled[0].line, "Fizz Buzz 2022-09-11 18:34:48 UTC");
    assert_eq!(handled[1].line, "Buzz 00000000-0000-0000-0000-000000000003");
    assert!(process_batch(&vec![], T0).is_empty());
}

#[test]
fn pass_leaves_waiting_tasks_incomplete_and_free() {
    let mut s = Store::new();
    s.insert(1, TaskType::Buzz, T0).unwrap();
    s.insert(2, TaskType::Fizz, T0).unwrap();
    let handled = run_pass(&mut s, 1, T0 + 3 * SECOND);
    assert_eq!(handled_ids(&handled), vec![2]);
    assert_eq!(s.get(2).unwrap().state, TaskState::Complete);
    assert_eq!(s.get(1).unwrap().state, TaskState::Incomplete);
    assert_eq!(ids(&s.claim(2, BATCH_SIZE)), vec![1]);
}

#[test]
fn pass_handles_at_most_one_batch() {
    let mut s = filled(7);
    let handled = run_pass(&mut s, 1, T0 + 10 * SECOND);
    assert_eq!(handled_ids(&handled), vec![7, 6, 5, 4, 3]);
    let rest = run_pass(&mut s, 1, T0 + 10 * SECOND);
    assert_eq!(handled_ids(&rest), vec![2, 1]);
}

#[test]
fn fizz_task_end_to_end() {
    let mut s = Store::new();
    let id: u128 = 0x0123456789abcdef0123456789abcdef;
    let text = create(&mut s, "fizz", id, T0).unwrap();
    assert_eq!(text, "01234567-89ab-cdef-0123-456789abcdef");
    let (status, found) = get(&s, id);
    assert_eq!(status, 200);
    assert_eq!(found.unwrap().state, TaskState::Incomplete);
    assert!(run_pass(&mut s, 1, T0 + SECOND).is_empty());
    assert_eq!(get(&s, id).1.unwrap().state, TaskState::Incomplete);
    let handled = run_pass(&mut s, 1, T0 + 3 * SECOND);
    assert_eq!(handled.len(), 1);
    assert_eq!(handled[0].line, "Fizz 01234567-89ab-cdef-0123-456789abcdef");
    assert_eq!(get(&s, id).1.unwrap().state, TaskState::Complete);
    assert!(run_pass(&mut s, 1, T0 + 4 * SECOND).is_empty());
    assert!(run_pass(&mut s, 2, T0 + 4 * SECOND).is_empty());
}

#[test]
fn tasks_submitted_at_the_same_instant_are_listed_latest_first() {
    let mut s = Store::new();
    s.insert(1, TaskType::Fizz, T0).unwrap();
    s.insert(2, TaskType::Fizz, T0).unwrap();
    s.insert(3, TaskType::Fizz, T0 - SECOND).unwrap();
    assert_eq!(ids(&list(&s, None, None)), vec![2, 1, 3]);
}

#[test]
fn empty_table_answers_every_request() {
    let mut s = Store::new();
    assert_eq!(s.len(), 0);
    assert!(list(&s, None, None).is_empty());
    assert_eq!(get(&s, 1), (STATUS_NOT_FOUND, None));
    assert_eq!(delete(&mut s, 1), DeleteOutcome::NotFound);
    assert!(s.claim(1, BATCH_SIZE).is_empty());
    s.commit(1, &vec![1]);
    s.rollback(1);
    assert!(run_pass(&mut s, 1, T0).is_empty());
    assert_eq!(s.len(), 0);
}

fn drive(s: &mut Store, w: &mut Worker, id: u64, now: i64) -> (Vec<Action>, Vec<String>) {
    let mut actions = vec![w.start()];
    let mut lines = Vec::new();
    let mut marked = Vec::new();
    loop {
        let event = match *actions.last().unwrap() {
            Action::Select { limit } => Event::Selected(s.claim(id, limit)),
            Action::Complete { id: task } => {
                marked.push(task);
                Event::Done
            }
            Action::Commit => {
                s.commit(id, &marked);
                return (actions, lines);
            }
            Action::Rollback => {
                s.rollback(id);
                return (actions, lines);
            }
            Action::Begin => Event::Done,
        };
        let step = w.step(event, now);
        lines.extend(step.handled.into_iter().map(|h| h.line));
        actions.push(step.action);
    }
}

#[test]
fn worker_walks_through_a_pass() {
    let mut s = Store::new();
    s.insert(1, TaskType::Buzz, T0).unwrap();
    s.insert(2, TaskType::Fizz, T0 + SECOND).unwrap();
    s.insert(3, TaskType::FizzBuzz, T0 + 2 * SECOND).unwrap();
    let mut w = Worker::new();
    assert_eq!(w.phase(), Phase::Idle);
    let (actions, lines) = drive(&mut s, &mut w, 1, T0 + 4 * SECOND);
    assert_eq!(
        actions,
        vec![
            Action::Begin,
            Action::Select { limit: 5 },
            Action::Complete { id: 3 },
            Action::Complete { id: 2 },
            Action::Commit
        ]
    );
    assert_eq!(
        lines,
        vec![
            "Fizz Buzz 2022-09-11 18:34:52 UTC".to_string(),
            "Fizz 00000000-0000-0000-0000-000000000002".to_string()
        ]
    );
    assert_eq!(w.phase(), Phase::Committing);
    assert_eq!(s.get(3).unwrap().state, TaskState::Complete);
    assert_eq!(s.get(2).unwrap().state, TaskState::Complete);
    assert_eq!(s.get(1).unwrap().state, TaskState::Incomplete);
    let after = w.step(Event::Done, T0 + 4 * SECOND);
    assert_eq!(after.action, Action::Begin);
    assert!(after.handled.is_empty());
    assert_eq!(w.phase(), Phase::Beginning);
}

#[test]
fn worker_commits_an_empty_batch_at_once() {
    let mut s = Store::new();
    s.insert(1, TaskType::Buzz, T0).unwrap();
    let mut w = Worker::new();
    let (actions, lines) = drive(&mut s, &mut w, 1, T0);
    assert_eq!(actions, vec![Action::Begin, Action::Select { limit: 5 }, Action::Commit]);
    assert!(lines.is_empty());
    assert_eq!(ids(&s.claim(2, BATCH_SIZE)), vec![1]);
}

#[test]
fn worker_rolls_back_on_failure_and_starts_over() {
    let mut w = Worker::new();
    assert_eq!(w.start(), Action::Begin);
    assert_eq!(w.step(Event::Failed, T0).action, Action::Rollback);
    assert_eq!(w.phase(), Phase::RollingBack);
    assert_eq!(w.step(Event::Failed, T0).action, Action::Begin);
    assert_eq!(w.step(Event::Done, T0).action, Action::Select { limit: 5 });
    assert_eq!(w.step(Event::Failed, T0).action, Action::Rollback);
    assert_eq!(w.step(Event::Done, T0).action, Action::Begin);
    assert_eq!(w.step(Event::Done, T0).action, Action::Select { limit: 5 });
    let rows = vec![Task::new(7, TaskType::FizzBuzz, T0), Task::new(8, TaskType::FizzBuzz, T0)];
    let step = w.step(Event::Selected(rows), T0);
    assert_eq!(step.action, Action::Complete { id: 7 });
    assert_eq!(step.handled.len(), 2);
    assert_eq!(w.step(Event::Done, T0).action, Action::Complete { id: 8 });
    assert_eq!(w.step(Event::Failed, T0).action, Action::Rollback);
    assert_eq!(w.step(Event::Done, T0).action, Action::Begin);
}

#[test]
fn worker_abandons_a_pass_on_an_answer_out_of_turn() {
    let mut w = Worker::new();
    w.start();
    assert_eq!(w.step(Event::Selected(vec![]), T0).action, Action::Rollback);
    w.start();
    w.step(Event::Done, T0);
    assert_eq!(w.step(Event::Done, T0).action, Action::Rollback);
    let mut fresh = Worker::new();
    assert_eq!(fresh.step(Event::Done, T0).action, Action::Begin);
}
