//! Text comparison and joining with contracts over character sequences.

use vstd::prelude::*;
use vstd::string::StringExecFns;

verus! {

/// Exact equality of two texts, character by character.
pub fn same_text(a: &str, b: &str) -> (same: bool)
    ensures
        same == (a@ == b@),
{
    let left = String::from_str(a);
    let right = String::from_str(b);
    left == right
}

/// `head` followed by `tail`.
pub fn joined(head: &str, tail: &str) -> (whole: String)
    ensures
        whole@ == head@ + tail@,
{
    String::from_str(head).concat(tail)
}

} // verus!
