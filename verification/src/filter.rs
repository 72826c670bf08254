//! Listing filters: comma-separated keywords, read leniently. Words that
//! name nothing are dropped, and a filter that names nothing at all falls
//! back to the default selection.

use vstd::prelude::*;
use crate::task_state::TaskState;
use crate::task_type::TaskType;
use crate::text::{chars_of, range_is};

verus! {

/// A closed set of values, each written as one fixed word.
pub trait Keyword: Sized {
    /// The value that a word names, if it names one.
    spec fn named(word: Seq<char>) -> Option<Self>;

    /// Reads the word `chars[from..to]`.
    fn read(chars: &Vec<char>, from: usize, to: usize) -> (r: Option<Self>)
        requires
            from <= to <= chars@.len(),
        ensures
            r == Self::named(chars@.subrange(from as int, to as int)),
    ;
}

impl Keyword for TaskType {
    open spec fn named(word: Seq<char>) -> Option<TaskType> {
        TaskType::parse(word)
    }

    fn read(chars: &Vec<char>, from: usize, to: usize) -> (r: Option<TaskType>) {
        if range_is(chars, from, to, TaskType::Fizz.to_db_value()) {
            Some(TaskType::Fizz)
        } else if range_is(chars, from, to, TaskType::Buzz.to_db_value()) {
            Some(TaskType::Buzz)
        } else if range_is(chars, from, to, TaskType::FizzBuzz.to_db_value()) {
            Some(TaskType::FizzBuzz)
        } else {
            None
        }
    }
}

impl Keyword for TaskState {
    open spec fn named(word: Seq<char>) -> Option<TaskState> {
        TaskState::parse(word)
    }

    fn read(chars: &Vec<char>, from: usize, to: usize) -> (r: Option<TaskState>) {
        if range_is(chars, from, to, TaskState::Incomplete.to_db_value()) {
            Some(TaskState::Incomplete)
        } else if range_is(chars, from, to, TaskState::Deleted.to_db_value()) {
            Some(TaskState::Deleted)
        } else if range_is(chars, from, to, TaskState::Complete.to_db_value()) {
            Some(TaskState::Complete)
        } else {
            None
        }
    }
}

/// The position of the first comma in `s`, or `s.len()` if it holds none.
pub open spec fn first_comma(s: Seq<char>) -> int
    decreases s.len(),
{
    if s.len() == 0 || s[0] == ',' {
        0
    } else {
        1 + first_comma(s.drop_first())
    }
}

/// The words of `s` between its commas, in order. A text without a comma is
/// one word, so the result is never empty.
pub open spec fn split_commas(s: Seq<char>) -> Seq<Seq<char>>
    decreases s.len(),
{
    let i = first_comma(s);
    if 0 <= i < s.len() {
        seq![s.take(i)] + split_commas(s.skip(i + 1))
    } else {
        seq![s]
    }
}

/// The values that the words name, in order; words that name nothing are skipped.
pub open spec fn named_values<K: Keyword>(words: Seq<Seq<char>>) -> Seq<K>
    decreases words.len(),
{
    if words.len() == 0 {
        Seq::empty()
    } else {
        let before = named_values::<K>(words.drop_last());
        match K::named(words.last()) {
            Some(k) => before.push(k),
            None => before,
        }
    }
}

/// What a filter selects: the values it names, or `fallback` where it is
/// absent or names none.
pub open spec fn selection<K: Keyword>(filter: Option<Seq<char>>, fallback: Seq<K>) -> Seq<K> {
    match filter {
        Some(s) => {
            let named = named_values::<K>(split_commas(s));
            if named.len() == 0 {
                fallback
            } else {
                named
            }
        },
        None => fallback,
    }
}

/// The first comma stands where a comma follows a comma-free prefix.
pub proof fn lemma_first_comma(s: Seq<char>, j: int)
    requires
        0 <= j <= s.len(),
        forall|k: int| 0 <= k < j ==> s[k] != ',',
        j == s.len() || s[j] == ',',
    ensures
        first_comma(s) == j,
    decreases j,
{
    if j > 0 {
        let t = s.drop_first();
        assert(s[0] != ',');
        assert forall|k: int| 0 <= k < j - 1 implies t[k] != ',' by {
            assert(t[k] == s[k + 1]);
        }
        lemma_first_comma(t, j - 1);
    }
}

/// The words joined again, with one comma between neighbours.
pub open spec fn joined(words: Seq<Seq<char>>) -> Seq<char>
    decreases words.len(),
{
    if words.len() == 0 {
        Seq::empty()
    } else if words.len() == 1 {
        words[0]
    } else {
        words[0] + seq![','] + joined(words.drop_first())
    }
}

/// Up to the first comma there is no comma, and where the position lies
/// inside the text, a comma stands there.
pub proof fn lemma_first_comma_bounds(s: Seq<char>)
    ensures
        0 <= first_comma(s) <= s.len(),
        forall|k: int| 0 <= k < first_comma(s) ==> s[k] != ',',
        first_comma(s) < s.len() ==> s[first_comma(s)] == ',',
    decreases s.len(),
{
    if s.len() > 0 && s[0] != ',' {
        let t = s.drop_first();
        lemma_first_comma_bounds(t);
        assert forall|k: int| 0 <= k < first_comma(s) implies s[k] != ',' by {
            if k > 0 {
                assert(s[k] == t[k - 1]);
            }
        }
        assert(first_comma(s) < s.len() ==> s[first_comma(s)] == t[first_comma(t)]);
    }
}

/// Splitting loses nothing and invents nothing: there is at least one word,
/// no word holds a comma, and the words joined with commas are the text.
pub proof fn law_split_rejoins(s: Seq<char>)
    ensures
        split_commas(s).len() >= 1,
        forall|j: int| 0 <= j < split_commas(s).len() ==> !(#[trigger] split_commas(s)[j]).contains(','),
        joined(split_commas(s)) == s,
    decreases s.len(),
{
    lemma_first_comma_bounds(s);
    let i = first_comma(s);
    let words = split_commas(s);
    if i < s.len() {
        let rest = s.skip(i + 1);
        law_split_rejoins(rest);
        let tail = split_commas(rest);
        assert(words == seq![s.take(i)] + tail);
        assert(words.drop_first() =~= tail);
        assert(words[0] == s.take(i));
        assert(joined(words) =~= s.take(i) + seq![','] + rest);
        assert(s.take(i) + seq![','] + rest =~= s);
        assert forall|j: int| 0 <= j < words.len() implies !(#[trigger] words[j]).contains(',') by {
            if j > 0 {
                assert(words[j] == tail[j - 1]);
            }
        }
    } else {
        assert(words == seq![s]);
        assert(words[0] == s);
    }
}

proof fn lemma_named_values_push<K: Keyword>(words: Seq<Seq<char>>, word: Seq<char>)
    ensures
        named_values::<K>(words.push(word)) == match K::named(word) {
            Some(k) => named_values::<K>(words).push(k),
            None => named_values::<K>(words),
        },
{
    assert(words.push(word).drop_last() =~= words);
}

/// Reads every word of a comma-separated text and keeps the values named.
pub fn read_keywords<K: Keyword>(s: &str) -> (r: Vec<K>)
    ensures
        r@ == named_values::<K>(split_commas(s@)),
{
    let chars = chars_of(s);
    let n: usize = chars.len();
    let mut out: Vec<K> = Vec::new();
    let ghost mut done: Seq<Seq<char>> = Seq::empty();
    let mut start: usize = 0;
    let mut i: usize = 0;
    assert(chars@.skip(0) =~= chars@);
    while i < n
        invariant
            chars@ == s@,
            n == chars@.len(),
            start <= i <= n,
            forall|k: int| start <= k < i ==> chars@[k] != ',',
            split_commas(chars@) == done + split_commas(chars@.skip(start as int)),
            out@ == named_values::<K>(done),
        decreases n - i,
    {
        if chars[i] == ',' {
            let word = K::read(&chars, start, i);
            proof {
                let rest = chars@.skip(start as int);
                lemma_first_comma(rest, i - start);
                assert(rest.take(i - start) =~= chars@.subrange(start as int, i as int));
                assert(rest.skip(i - start + 1) =~= chars@.skip(i + 1));
                lemma_named_values_push::<K>(done, rest.take(i - start));
                assert(done + (seq![rest.take(i - start)] + split_commas(chars@.skip(i + 1)))
                    =~= done.push(rest.take(i - start)) + split_commas(chars@.skip(i + 1)));
                done = done.push(rest.take(i - start));
            }
            match word {
                Some(k) => {
                    out.push(k);
                },
                None => {},
            }
            start = i + 1;
        }
        i += 1;
    }
    let word = K::read(&chars, start, n);
    proof {
        let rest = chars@.skip(start as int);
        lemma_first_comma(rest, n - start);
        assert(rest =~= chars@.subrange(start as int, n as int));
        lemma_named_values_push::<K>(done, rest);
        assert(done + seq![rest] =~= done.push(rest));
    }
    match word {
        Some(k) => {
            out.push(k);
        },
        None => {},
    }
    out
}

/// Every task type, the default of a listing's type filter.
pub fn all_types() -> (r: Vec<TaskType>)
    ensures
        r@ == TaskType::all(),
{
    let mut out: Vec<TaskType> = Vec::new();
    out.push(TaskType::Fizz);
    out.push(TaskType::Buzz);
    out.push(TaskType::FizzBuzz);
    assert(out@ =~= TaskType::all());
    out
}

/// The states a listing shows by default: everything but deleted tasks.
pub fn default_states() -> (r: Vec<TaskState>)
    ensures
        r@ == TaskState::default_filter(),
{
    let mut out: Vec<TaskState> = Vec::new();
    out.push(TaskState::Incomplete);
    out.push(TaskState::Complete);
    assert(out@ =~= TaskState::default_filter());
    out
}

/// The task types a listing's `types` filter selects.
pub fn selected_types(filter: Option<&str>) -> (r: Vec<TaskType>)
    ensures
        r@ == selection::<TaskType>(
            match filter {
                Some(s) => Some(s@),
                None => None,
            },
            TaskType::all(),
        ),
        r@.len() > 0,
{
    match filter {
        Some(s) => {
            let named = read_keywords::<TaskType>(s);
            if named.len() == 0 {
                all_types()
            } else {
                named
            }
        },
        None => all_types(),
    }
}

/// The task states a listing's `states` filter selects.
pub fn selected_states(filter: Option<&str>) -> (r: Vec<TaskState>)
    ensures
        r@ == selection::<TaskState>(
            match filter {
                Some(s) => Some(s@),
                None => None,
            },
            TaskState::default_filter(),
        ),
        r@.len() > 0,
{
    match filter {
        Some(s) => {
            let named = read_keywords::<TaskState>(s);
            if named.len() == 0 {
                default_states()
            } else {
                named
            }
        },
        None => default_states(),
    }
}

} // verus!
