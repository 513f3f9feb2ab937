//! Backspace handling for raw terminal input.

use vstd::prelude::*;

use crate::text::{chars_of, string_of};

verus! {

/// The backspace control character, as a raw-mode terminal sends it.
pub const BACKSPACE: char = '\u{8}';

/// The line that `s` denotes once every backspace has erased the character
/// before it; a backspace with nothing before it does nothing.
pub open spec fn apply_backspaces(s: Seq<char>) -> Seq<char>
    decreases s.len(),
{
    if s.len() == 0 {
        Seq::empty()
    } else {
        let prev = apply_backspaces(s.drop_last());
        if s.last() == BACKSPACE {
            if prev.len() > 0 {
                prev.drop_last()
            } else {
                prev
            }
        } else {
            prev.push(s.last())
        }
    }
}

/// `s` holds no backspace character.
pub open spec fn has_no_backspace(s: Seq<char>) -> bool {
    forall|i: int| 0 <= i < s.len() ==> s[i] != BACKSPACE
}

/// Applies backspace semantics to `buffer` in one left-to-right pass.
pub fn process_backspaces(buffer: &str) -> (r: String)
    ensures
        r@ == apply_backspaces(buffer@),
{
    let input = chars_of(buffer);
    let mut out: Vec<char> = Vec::new();
    let mut i: usize = 0;
    while i < input.len()
        invariant
            i <= input@.len(),
            input@ == buffer@,
            out@ == apply_backspaces(input@.subrange(0, i as int)),
        decreases input@.len() - i,
    {
        let c = input[i];
        proof {
            assert(input@.subrange(0, i + 1).drop_last() == input@.subrange(0, i as int));
        }
        if c == BACKSPACE {
            if out.len() > 0 {
                out.pop();
            }
        } else {
            out.push(c);
        }
        i = i + 1;
    }
    proof {
        assert(input@.subrange(0, input@.len() as int) == input@);
    }
    string_of(&out)
}

/// The result of applying backspaces never holds a backspace.
pub proof fn lemma_result_has_no_backspace(s: Seq<char>)
    ensures
        has_no_backspace(apply_backspaces(s)),
    decreases s.len(),
{
    if s.len() > 0 {
        lemma_result_has_no_backspace(s.drop_last());
    }
}

/// A line without backspaces is left as it is.
pub proof fn lemma_no_backspace_unchanged(s: Seq<char>)
    requires
        has_no_backspace(s),
    ensures
        apply_backspaces(s) == s,
    decreases s.len(),
{
    if s.len() > 0 {
        assert(has_no_backspace(s.drop_last()));
        lemma_no_backspace_unchanged(s.drop_last());
        assert(s.drop_last().push(s.last()) == s);
    }
}

/// Applying backspaces a second time changes nothing, whatever the input.
pub proof fn lemma_process_backspaces_idempotent(s: Seq<char>)
    ensures
        apply_backspaces(apply_backspaces(s)) == apply_backspaces(s),
{
    lemma_result_has_no_backspace(s);
    lemma_no_backspace_unchanged(apply_backspaces(s));
}

} // verus!
