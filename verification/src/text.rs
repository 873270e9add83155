//! Character-level access to `String` that vstd does not specify.

use vstd::prelude::*;

verus! {

/// Calls `String::push`, which the standard library documents as appending the
/// given `char` to the end of the string; the contract states exactly that.
#[verifier::external_body]
pub(crate) fn push_char(s: &mut String, c: char)
    ensures
        final(s)@ == old(s)@.push(c),
{
    s.push(c)
}

} // verus!
