//! Building strings one character at a time.

use vstd::prelude::*;

verus! {

/// `String::push`: the string afterwards is the string before with `ch`
/// appended.
#[verifier::external_body]
pub(crate) fn push_char(s: &mut String, ch: char)
    ensures
        final(s)@ == old(s)@.push(ch),
{
    s.push(ch);
}

/// The characters that bytes below 128 stand for.
pub open spec fn text_of(bytes: Seq<u8>) -> Seq<char> {
    bytes.map_values(|b: u8| b as char)
}

} // verus!
