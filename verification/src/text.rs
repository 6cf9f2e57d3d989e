//! Small string utilities shared by the store and the request guard.

use vstd::prelude::*;

verus! {

/// Equality of two string slices, usable wherever contracts speak of views.
pub fn str_eq(a: &str, b: &str) -> (r: bool)
    ensures
        r == (a@ == b@),
{
    let s: String = a.to_owned();
    let t: String = b.to_owned();
    s == t
}

} // verus!
