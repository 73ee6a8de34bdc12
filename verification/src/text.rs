//! Comparing texts.

use vstd::prelude::*;

verus! {

/// `str`'s `==`: two texts are equal exactly when they hold the same
/// characters in the same order.
#[verifier::external_body]
pub(crate) fn same_text(a: &str, b: &str) -> (r: bool)
    ensures
        r == (a@ == b@),
{
    a == b
}

} // verus!
