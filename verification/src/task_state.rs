//! The lifecycle states of a task and the only moves allowed between them.

use vstd::prelude::*;
use crate::filter::Keyword;
use crate::text::chars_of;

verus! {

/// Where a task stands in its lifecycle.
#[derive(Clone, Copy, Debug, PartialEq, Eq, Structural)]
pub enum TaskState {
    Incomplete,
    Deleted,
    Complete,
}

impl TaskState {
    /// The token under which this state is stored and sent.
    pub open spec fn db_value(self) -> Seq<char> {
        match self {
            TaskState::Incomplete => seq!['i', 'n', 'c', 'o', 'm', 'p', 'l', 'e', 't', 'e'],
            TaskState::Deleted => seq!['d', 'e', 'l', 'e', 't', 'e', 'd'],
            TaskState::Complete => seq!['c', 'o', 'm', 'p', 'l', 'e', 't', 'e'],
        }
    }

    /// The state that a stored token names, if it names one.
    pub open spec fn parse(s: Seq<char>) -> Option<TaskState> {
        if s == TaskState::Incomplete.db_value() {
            Some(TaskState::Incomplete)
        } else if s == TaskState::Deleted.db_value() {
            Some(TaskState::Deleted)
        } else if s == TaskState::Complete.db_value() {
            Some(TaskState::Complete)
        } else {
            None
        }
    }

    /// The states a listing shows when it names none: deleted tasks stay hidden.
    pub open spec fn default_filter() -> Seq<TaskState> {
        seq![TaskState::Incomplete, TaskState::Complete]
    }

    /// A task may stay as it is, or leave `Incomplete` for one of the two
    /// final states; nothing ever leaves `Complete` or `Deleted`.
    pub open spec fn may_become(self, next: TaskState) -> bool {
        self == next || self == TaskState::Incomplete
    }

    /// Whether no move leads out of this state.
    pub open spec fn is_final(self) -> bool {
        self != TaskState::Incomplete
    }

    /// Tokens and states correspond one to one: a token names a state exactly if
    /// it is the token that that state is stored under.
    pub proof fn lemma_parse_db_value(t: TaskState, s: Seq<char>)
        ensures
            TaskState::parse(t.db_value()) == Some(t),
            TaskState::parse(s) == Some(t) <==> s == t.db_value(),
    {
        assert(TaskState::Incomplete.db_value().len() != TaskState::Deleted.db_value().len());
        assert(TaskState::Incomplete.db_value().len() != TaskState::Complete.db_value().len());
        assert(TaskState::Deleted.db_value().len() != TaskState::Complete.db_value().len());
    }

    /// Moves between states are one-directional: a chain of allowed moves is
    /// an allowed move, and a final state only ever becomes itself.
    pub proof fn lemma_moves_are_monotone(a: TaskState, b: TaskState, c: TaskState)
        requires
            a.may_become(b),
            b.may_become(c),
        ensures
            a.may_become(c),
            a.is_final() ==> c == a,
    {
    }

    /// The token under which this state is stored and sent.
    pub fn to_db_value(&self) -> (r: &'static str)
        ensures
            r@ == self.db_value(),
    {
        proof {
            reveal_strlit("incomplete");
            reveal_strlit("deleted");
            reveal_strlit("complete");
        }
        match self {
            TaskState::Incomplete => {
                assert("incomplete"@ =~= self.db_value());
                "incomplete"
            },
            TaskState::Deleted => {
                assert("deleted"@ =~= self.db_value());
                "deleted"
            },
            TaskState::Complete => {
                assert("complete"@ =~= self.db_value());
                "complete"
            },
        }
    }

    /// The stored tokens of the default state filter.
    pub fn filter_str_vec() -> (r: Vec<String>)
        ensures
            r@.len() == TaskState::default_filter().len(),
            forall|i: int| 0 <= i < r@.len() ==> (#[trigger] r@[i])@ == TaskState::default_filter()[i].db_value(),
    {
        let mut out: Vec<String> = Vec::new();
        out.push(TaskState::Incomplete.to_db_value().to_owned());
        out.push(TaskState::Complete.to_db_value().to_owned());
        out
    }

    /// Reads a stored token; anything but the three tokens is refused.
    pub fn from_str(s: &str) -> (r: Result<TaskState, ()>)
        ensures
            r == match TaskState::parse(s@) {
                Some(t) => Ok::<TaskState, ()>(t),
                None => Err::<TaskState, ()>(()),
            },
    {
        let chars = chars_of(s);
        let n: usize = chars.len();
        assert(chars@.subrange(0, n as int) =~= s@);
        match TaskState::read(&chars, 0, n) {
            Some(t) => Ok(t),
            None => Err(()),
        }
    }
}

} // verus!
