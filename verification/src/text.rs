//! Building strings one character at a time.

use vstd::prelude::*;

verus! {

/// `String::push`: appends one character to the end of the string.
#[verifier::external_body]
pub(crate) fn push_char(text: &mut String, c: char)
    ensures
        final(text)@ == old(text)@.push(c),
{
    text.push(c);
}

} // verus!
