//! What is taken on trust of the standard library's strings.

use vstd::prelude::*;

verus! {

/// Assumed of `String::push`, and not proved: after the call the string holds the characters
/// it held before, in the same order, followed by `ch`.
pub assume_specification[ String::push ](s: &mut String, ch: char)
    ensures
        final(s)@ == old(s)@.push(ch),
;

} // verus!
