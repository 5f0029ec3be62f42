//! Character-level helpers on string slices.

use vstd::prelude::*;
use vstd::std_specs::iter::IteratorSpec;

verus! {

broadcast use vstd::string::group_string_axioms;

/// The characters of a string slice, in order.
pub(crate) fn chars_of(text: &str) -> (chars: Vec<char>)
    ensures
        chars@ == text@,
{
    let mut chars: Vec<char> = Vec::new();
    let mut rest = text.chars();
    loop
        invariant
            rest.obeys_prophetic_iter_laws(),
            rest.decrease() is Some,
            chars@ + rest.remaining() == text@,
        decreases rest.decrease().unwrap(),
    {
        match rest.next() {
            Some(c) => {
                chars.push(c);
            },
            None => {
                return chars;
            },
        }
    }
}

/// Whether the character `wanted` occurs in `text`.
pub(crate) fn contains_char(text: &str, wanted: char) -> (found: bool)
    ensures
        found == text@.contains(wanted),
{
    let mut rest = text.chars();
    let ghost mut seen: int = 0;
    loop
        invariant
            rest.obeys_prophetic_iter_laws(),
            rest.decrease() is Some,
            0 <= seen <= text@.len(),
            rest.remaining() == text@.skip(seen),
            !text@.take(seen).contains(wanted),
        decreases rest.decrease().unwrap(),
    {
        match rest.next() {
            None => {
                assert(text@.take(seen) =~= text@);
                return false;
            },
            Some(c) => {
                if c == wanted {
                    assert(text@[seen] == wanted);
                    return true;
                }
                proof {
                    assert(text@.skip(seen).drop_first() =~= text@.skip(seen + 1));
                    assert(text@.take(seen + 1) =~= text@.take(seen).push(c));
                    seen = seen + 1;
                }
            },
        }
    }
}

/// Whether `text` begins with the characters of `prefix`.
pub(crate) fn has_prefix(text: &str, prefix: &str) -> (found: bool)
    ensures
        found == prefix@.is_prefix_of(text@),
{
    let mut wanted = prefix.chars();
    let mut given = text.chars();
    let ghost mut seen: int = 0;
    loop
        invariant
            wanted.obeys_prophetic_iter_laws(),
            given.obeys_prophetic_iter_laws(),
            wanted.decrease() is Some,
            0 <= seen <= prefix@.len(),
            seen <= text@.len(),
            wanted.remaining() == prefix@.skip(seen),
            given.remaining() == text@.skip(seen),
            prefix@.take(seen) == text@.take(seen),
        decreases wanted.decrease().unwrap(),
    {
        match wanted.next() {
            None => {
                assert(prefix@.take(seen) =~= prefix@);
                return true;
            },
            Some(expected) => match given.next() {
                None => {
                    return false;
                },
                Some(actual) => {
                    if actual != expected {
                        assert(prefix@.is_prefix_of(text@) ==> text@.subrange(0, prefix@.len() as int)[seen]
                            == prefix@[seen]);
                        return false;
                    }
                    proof {
                        assert(prefix@.skip(seen).drop_first() =~= prefix@.skip(seen + 1));
                        assert(text@.skip(seen).drop_first() =~= text@.skip(seen + 1));
                        assert(prefix@.take(seen + 1) =~= prefix@.take(seen).push(expected));
                        assert(text@.take(seen + 1) =~= text@.take(seen).push(actual));
                        seen = seen + 1;
                    }
                },
            },
        }
    }
}

/// Compares the characters from position `at` on with `expected` and, where
/// they agree, returns the position behind them.
pub(crate) fn match_at(chars: &Vec<char>, at: usize, expected: &str) -> (next: Option<usize>)
    requires
        at <= chars.len(),
    ensures
        next is Some <==> expected@.is_prefix_of(chars@.skip(at as int)),
        next matches Some(position) ==> position == at + expected@.len() && position <= chars.len(),
{
    let mut wanted = expected.chars();
    let mut position: usize = at;
    let ghost input = chars@.skip(at as int);
    loop
        invariant
            wanted.obeys_prophetic_iter_laws(),
            wanted.decrease() is Some,
            at <= position <= chars.len(),
            position - at <= expected@.len(),
            input == chars@.skip(at as int),
            wanted.remaining() == expected@.skip(position - at),
            input.take(position - at) == expected@.take(position - at),
        decreases wanted.decrease().unwrap(),
    {
        match wanted.next() {
            None => {
                assert(expected@.take(position - at) =~= expected@);
                return Some(position);
            },
            Some(c) => {
                if position >= chars.len() {
                    return None;
                }
                if chars[position] != c {
                    assert(expected@.is_prefix_of(input) ==> input.subrange(0, expected@.len() as int)[position
                        - at] == expected@[position - at]);
                    return None;
                }
                proof {
                    assert(expected@.skip(position - at).drop_first() =~= expected@.skip(position + 1 - at));
                    assert(input.take(position + 1 - at) =~= input.take(position - at).push(c));
                    assert(expected@.take(position + 1 - at) =~= expected@.take(position - at).push(c));
                }
                position = position + 1;
            },
        }
    }
}

} // verus!
