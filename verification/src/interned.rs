//! Interned names.

use vstd::prelude::*;

verus! {

/// Calls `ustr::Ustr::from` and hands out the interned text with `Ustr::as_str`.
///
/// Trusted: the interned text is the text that was given.
#[verifier::external_body]
pub(crate) fn intern(name: &str) -> (r: &'static str)
    ensures
        r@ == name@,
{
    ustr::Ustr::from(name).as_str()
}

} // verus!
