//! Character-level helpers for the fixed keywords of the wire and store formats.

use vstd::prelude::*;
use vstd::std_specs::iter::IteratorSpec;

verus! {

/// The characters of `s`, in order.
pub fn chars_of(s: &str) -> (r: Vec<char>)
    ensures
        r@ == s@,
{
    broadcast use vstd::string::group_string_axioms;

    let mut out: Vec<char> = Vec::new();
    let mut rest = s.chars();
    loop
        invariant
            rest.obeys_prophetic_iter_laws(),
            rest.decrease() is Some,
            out@ + rest.remaining() == s@,
        ensures
            out@ == s@,
        decreases rest.decrease()->0,
    {
        match rest.next() {
            Some(c) => {
                out.push(c);
                assert(out@ + rest.remaining() =~= s@);
            },
            None => {
                assert(rest.remaining() =~= Seq::<char>::empty());
                assert(out@ + rest.remaining() =~= out@);
                break;
            },
        }
    }
    out
}

/// Whether the characters `chars[from..to]` spell exactly `word`.
pub fn range_is(chars: &Vec<char>, from: usize, to: usize, word: &str) -> (r: bool)
    requires
        from <= to <= chars@.len(),
    ensures
        r == (chars@.subrange(from as int, to as int) == word@),
{
    let letters = chars_of(word);
    let n: usize = letters.len();
    if to - from != n {
        return false;
    }
    let ghost part = chars@.subrange(from as int, to as int);
    let mut i: usize = 0;
    while i < n
        invariant
            letters@ == word@,
            n == letters@.len(),
            n == to - from,
            from <= to <= chars@.len(),
            part == chars@.subrange(from as int, to as int),
            i <= n,
            forall|k: int| 0 <= k < i ==> part[k] == letters@[k],
        decreases n - i,
    {
        if chars[from + i] != letters[i] {
            assert(part[i as int] != letters@[i as int]);
            return false;
        }
        i += 1;
    }
    assert(part =~= letters@);
    true
}

} // verus!
