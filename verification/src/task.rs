//! The task record, when it may run, and the line it emits when it does.

use vstd::prelude::*;
use vstd::string::*;
use crate::task_state::TaskState;
use crate::task_type::{TaskType, NANOS_PER_SECOND};

verus! {

/// The sixteen lower-case hexadecimal digits, by value.
pub open spec fn hex_digits() -> Seq<char> {
    seq!['0', '1', '2', '3', '4', '5', '6', '7', '8', '9', 'a', 'b', 'c', 'd', 'e', 'f']
}

/// The hexadecimal digit of `v` at place `k`, place 0 being the least significant.
pub open spec fn nibble(v: nat, k: nat) -> int
    decreases k,
{
    if k == 0 {
        (v % 16) as int
    } else {
        nibble(v / 16, (k - 1) as nat)
    }
}

/// The hyphenated text of the identifier with the given 128-bit value: its
/// 32 hexadecimal digits in lower case, most significant first, in groups
/// of 8, 4, 4, 4 and 12 with a hyphen between groups.
pub open spec fn uuid_text(id: u128) -> Seq<char> {
    Seq::new(
        36,
        |i: int|
            if i == 8 || i == 13 || i == 18 || i == 23 {
                '-'
            } else {
                let hyphens_before: int = if i > 23 {
                    4
                } else if i > 18 {
                    3
                } else if i > 13 {
                    2
                } else if i > 8 {
                    1
                } else {
                    0
                };
                hex_digits()[nibble(id as nat, (31 - i + hyphens_before) as nat)]
            },
    )
}

/// The text that the `chrono` crate prints for the UTC instant that lies the
/// given number of nanoseconds after the Unix epoch.
pub uninterp spec fn utc_text(nanos: i64) -> Seq<char>;

/// Calls `uuid::Uuid::from_u128` and prints the identifier through its
/// `Display` impl, which writes the hyphenated lower-case form. The contract
/// states that form digit by digit; it is taken from the crate, not proved.
#[verifier::external_body]
fn format_uuid(id: u128) -> (r: String)
    ensures
        r@ == uuid_text(id),
{
    uuid::Uuid::from_u128(id).to_string()
}

/// Calls `chrono::DateTime::from_timestamp_nanos`, which accepts every `i64`,
/// and prints the instant through its `Display` impl. The contract only names
/// that text: it depends on the nanosecond count alone.
#[verifier::external_body]
fn format_utc(nanos: i64) -> (r: String)
    ensures
        r@ == utc_text(nanos),
{
    chrono::DateTime::from_timestamp_nanos(nanos).to_string()
}

/// One row of the queue. `id` is the 128-bit value of the task's identifier,
/// `submitted` the creation instant in nanoseconds since the Unix epoch.
#[derive(Clone, Copy, Debug, PartialEq, Eq, Structural)]
pub struct Task {
    pub id: u128,
    pub task_type: TaskType,
    pub submitted: i64,
    pub state: TaskState,
}

/// What running a task produced: the task's id and the line to emit.
#[derive(Clone, Debug)]
pub struct Handled {
    pub id: u128,
    pub line: String,
}

/// A label and what follows it, separated by one space.
pub open spec fn line_of(label: Seq<char>, postfix: Seq<char>) -> Seq<char> {
    label + seq![' '] + postfix
}

/// Joins a label and what follows it with one space.
pub fn compose_line(label: &str, postfix: &str) -> (r: String)
    ensures
        r@ == line_of(label@, postfix@),
{
    proof {
        reveal_strlit(" ");
    }
    assert(" "@ =~= seq![' ']);
    let mut line = String::from_str(label);
    line.append(" ");
    line.append(postfix);
    line
}

/// The hyphenated text of an identifier, as handed back to whoever created the task.
pub fn id_text(id: u128) -> (r: String)
    ensures
        r@ == uuid_text(id),
{
    format_uuid(id)
}

impl Task {
    /// A freshly submitted task: incomplete, stamped with the creation instant.
    pub fn new(id: u128, task_type: TaskType, now: i64) -> (r: Task)
        ensures
            r == (Task { id, task_type, submitted: now, state: TaskState::Incomplete }),
    {
        Task { id, task_type, submitted: now, state: TaskState::Incomplete }
    }

    /// A task may run once it is incomplete and its type's delay has passed
    /// since submission.
    pub open spec fn eligible(self, now: i64) -> bool {
        &&& self.state == TaskState::Incomplete
        &&& now - self.submitted >= self.task_type.delay_seconds_spec() * NANOS_PER_SECOND
    }

    /// The line a run at `now` emits: the label, then the task's id, or for
    /// `FizzBuzz` the instant of the run.
    pub open spec fn line(self, now: i64) -> Seq<char> {
        line_of(
            self.task_type.label_spec(),
            match self.task_type {
                TaskType::FizzBuzz => utc_text(now),
                _ => uuid_text(self.id),
            },
        )
    }

    /// Whether the task may run at `now`.
    pub fn is_eligible(&self, now: i64) -> (r: bool)
        ensures
            r == self.eligible(now),
    {
        let waited: i128 = now as i128 - self.submitted as i128;
        match self.state {
            TaskState::Incomplete => waited >= self.task_type.delay_nanos() as i128,
            _ => false,
        }
    }

    /// The line a run at `now` emits.
    pub fn output_line(&self, now: i64) -> (r: String)
        ensures
            r@ == self.line(now),
    {
        let postfix = match self.task_type {
            TaskType::FizzBuzz => format_utc(now),
            _ => format_uuid(self.id),
        };
        compose_line(self.task_type.label(), postfix.as_str())
    }

    /// Runs the task at `now` if it may run: the result carries its id and
    /// the line to emit. A task that may not run yet produces nothing.
    pub fn handle(&self, now: i64) -> (r: Option<Handled>)
        ensures
            r is Some <==> self.eligible(now),
            r matches Some(h) ==> h.id == self.id && h.line@ == self.line(now),
    {
        if self.is_eligible(now) {
            Some(Handled { id: self.id, line: self.output_line(now) })
        } else {
            None
        }
    }

    /// A delay-free task may run at the very instant of its submission, and
    /// any task may run from the end of its delay on, never before.
    pub proof fn lemma_delay_gate(self, now: i64)
        requires
            self.state == TaskState::Incomplete,
        ensures
            self.eligible(now) <==> now >= self.submitted + self.task_type.delay_seconds_spec()
                * NANOS_PER_SECOND,
            self.task_type == TaskType::FizzBuzz ==> self.eligible(self.submitted),
            self.task_type == TaskType::Fizz && now < self.submitted + 3 * NANOS_PER_SECOND
                ==> !self.eligible(now),
    {
    }
}

} // verus!
