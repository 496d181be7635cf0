//! Comparisons on text, stated over sequences of characters.

use vstd::prelude::*;

verus! {

/// The character that ends a line.
pub open spec fn newline() -> char {
    '\n'
}

/// Whether a text ends with a line break.
pub open spec fn ends_with_newline(text: Seq<char>) -> bool {
    text.len() > 0 && text.last() == newline()
}

/// A text closed by a line break: one is added only where none stands at the end.
pub open spec fn closed_line(text: Seq<char>) -> Seq<char> {
    if ends_with_newline(text) {
        text
    } else {
        text.push(newline())
    }
}

/// Tells whether `text` starts with `prefix`.
pub fn has_prefix(text: &str, prefix: &str) -> (found: bool)
    ensures
        found == prefix@.is_prefix_of(text@),
{
    let prefix_len = prefix.unicode_len();
    let text_len = text.unicode_len();
    if prefix_len > text_len {
        return false;
    }
    let mut i: usize = 0;
    while i < prefix_len
        invariant
            i <= prefix_len <= text_len,
            prefix_len == prefix@.len(),
            text_len == text@.len(),
            forall|j: int| 0 <= j < i ==> prefix@[j] == text@[j],
        decreases prefix_len - i,
    {
        if prefix.get_char(i) != text.get_char(i) {
            assert(text@.subrange(0, prefix@.len() as int)[i as int] != prefix@[i as int]);
            return false;
        }
        i = i + 1;
    }
    assert(prefix@ =~= text@.subrange(0, prefix@.len() as int));
    true
}

/// Tells whether two texts hold the same characters.
pub fn same_text(left: &str, right: &str) -> (same: bool)
    ensures
        same == (left@ == right@),
{
    let left_len = left.unicode_len();
    let right_len = right.unicode_len();
    if left_len != right_len {
        return false;
    }
    let found = has_prefix(left, right);
    proof {
        if found {
            assert(right@ =~= left@.subrange(0, right@.len() as int));
            assert(left@.subrange(0, left@.len() as int) =~= left@);
        }
    }
    found
}

/// Tells whether the last character of `text` is a line break.
pub fn has_trailing_newline(text: &str) -> (found: bool)
    ensures
        found == ends_with_newline(text@),
{
    let len = text.unicode_len();
    if len == 0 {
        return false;
    }
    text.get_char(len - 1) == '\n'
}

/// Tells whether two byte strings are equal.
pub fn same_bytes(left: &Vec<u8>, right: &Vec<u8>) -> (same: bool)
    ensures
        same == (left@ == right@),
{
    if left.len() != right.len() {
        return false;
    }
    let mut i: usize = 0;
    while i < left.len()
        invariant
            i <= left.len(),
            left.len() == right.len(),
            forall|j: int| 0 <= j < i ==> left@[j] == right@[j],
        decreases left.len() - i,
    {
        if left[i] != right[i] {
            return false;
        }
        i = i + 1;
    }
    assert(left@ =~= right@);
    true
}

} // verus!
