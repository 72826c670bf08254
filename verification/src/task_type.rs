//! The closed set of task types and what each one means: its stored token,
//! its printed label, and how long it must wait before it may run.

use vstd::prelude::*;
use crate::filter::Keyword;
use crate::text::chars_of;

verus! {

/// The kind of work a task stands for.
#[derive(Clone, Copy, Debug, PartialEq, Eq, Structural)]
pub enum TaskType {
    Fizz,
    Buzz,
    FizzBuzz,
}

/// Nanoseconds in one second.
pub const NANOS_PER_SECOND: i64 = 1_000_000_000;

impl TaskType {
    /// The token under which this type is stored and sent.
    pub open spec fn db_value(self) -> Seq<char> {
        match self {
            TaskType::Fizz => seq!['f', 'i', 'z', 'z'],
            TaskType::Buzz => seq!['b', 'u', 'z', 'z'],
            TaskType::FizzBuzz => seq!['f', 'i', 'z', 'z', 'b', 'u', 'z', 'z'],
        }
    }

    /// The label that starts an output line for this type.
    pub open spec fn label_spec(self) -> Seq<char> {
        match self {
            TaskType::Fizz => seq!['F', 'i', 'z', 'z'],
            TaskType::Buzz => seq!['B', 'u', 'z', 'z'],
            TaskType::FizzBuzz => seq!['F', 'i', 'z', 'z', ' ', 'B', 'u', 'z', 'z'],
        }
    }

    /// Whole seconds a task of this type waits after submission.
    pub open spec fn delay_seconds_spec(self) -> int {
        match self {
            TaskType::Fizz => 3,
            TaskType::Buzz => 5,
            TaskType::FizzBuzz => 0,
        }
    }

    /// The type that a stored token names, if it names one.
    pub open spec fn parse(s: Seq<char>) -> Option<TaskType> {
        if s == TaskType::Fizz.db_value() {
            Some(TaskType::Fizz)
        } else if s == TaskType::Buzz.db_value() {
            Some(TaskType::Buzz)
        } else if s == TaskType::FizzBuzz.db_value() {
            Some(TaskType::FizzBuzz)
        } else {
            None
        }
    }

    /// Tokens and types correspond one to one: a token names a type exactly if
    /// it is the token that that type is stored under.
    pub proof fn lemma_parse_db_value(t: TaskType, s: Seq<char>)
        ensures
            TaskType::parse(t.db_value()) == Some(t),
            TaskType::parse(s) == Some(t) <==> s == t.db_value(),
    {
        assert(TaskType::Fizz.db_value()[0] != TaskType::Buzz.db_value()[0]);
        assert(TaskType::Fizz.db_value().len() != TaskType::FizzBuzz.db_value().len());
        assert(TaskType::Buzz.db_value().len() != TaskType::FizzBuzz.db_value().len());
    }

    /// Every type, in declaration order.
    pub open spec fn all() -> Seq<TaskType> {
        seq![TaskType::Fizz, TaskType::Buzz, TaskType::FizzBuzz]
    }

    pub fn to_db_value(&self) -> (r: &'static str)
        ensures
            r@ == self.db_value(),
    {
        proof {
            reveal_strlit("fizz");
            reveal_strlit("buzz");
            reveal_strlit("fizzbuzz");
        }
        match self {
            TaskType::Fizz => {
                assert("fizz"@ =~= self.db_value());
                "fizz"
            },
            TaskType::Buzz => {
                assert("buzz"@ =~= self.db_value());
                "buzz"
            },
            TaskType::FizzBuzz => {
                assert("fizzbuzz"@ =~= self.db_value());
                "fizzbuzz"
            },
        }
    }

    /// The stored tokens of all types: the filter used when a listing names none.
    pub fn filter_str_vec() -> (r: Vec<String>)
        ensures
            r@.len() == TaskType::all().len(),
            forall|i: int| 0 <= i < r@.len() ==> (#[trigger] r@[i])@ == TaskType::all()[i].db_value(),
    {
        let mut out: Vec<String> = Vec::new();
        out.push(TaskType::Fizz.to_db_value().to_owned());
        out.push(TaskType::Buzz.to_db_value().to_owned());
        out.push(TaskType::FizzBuzz.to_db_value().to_owned());
        out
    }

    /// The label that starts an output line: `Fizz`, `Buzz` or `Fizz Buzz`.
    pub fn label(&self) -> (r: &'static str)
        ensures
            r@ == self.label_spec(),
    {
        proof {
            reveal_strlit("Fizz");
            reveal_strlit("Buzz");
            reveal_strlit("Fizz Buzz");
        }
        match self {
            TaskType::Fizz => {
                assert("Fizz"@ =~= self.label_spec());
                "Fizz"
            },
            TaskType::Buzz => {
                assert("Buzz"@ =~= self.label_spec());
                "Buzz"
            },
            TaskType::FizzBuzz => {
                assert("Fizz Buzz"@ =~= self.label_spec());
                "Fizz Buzz"
            },
        }
    }

    /// Whole seconds a task of this type waits after submission before it may run.
    pub fn delay_seconds(&self) -> (r: i64)
        ensures
            r == self.delay_seconds_spec(),
    {
        match self {
            TaskType::Fizz => 3,
            TaskType::Buzz => 5,
            TaskType::FizzBuzz => 0,
        }
    }

    /// The same delay in nanoseconds, the unit of the queue's timestamps.
    pub fn delay_nanos(&self) -> (r: i64)
        ensures
            r == self.delay_seconds_spec() * NANOS_PER_SECOND,
    {
        self.delay_seconds() * NANOS_PER_SECOND
    }

    /// Reads a stored token; anything but the three tokens is refused.
    pub fn from_str(s: &str) -> (r: Result<TaskType, ()>)
        ensures
            r == match TaskType::parse(s@) {
                Some(t) => Ok::<TaskType, ()>(t),
                None => Err::<TaskType, ()>(()),
            },
    {
        let chars = chars_of(s);
        let n: usize = chars.len();
        assert(chars@.subrange(0, n as int) =~= s@);
        match TaskType::read(&chars, 0, n) {
            Some(t) => Ok(t),
            None => Err(()),
        }
    }
}

} // verus!
