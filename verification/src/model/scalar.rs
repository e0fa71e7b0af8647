//! How the crate speaks of real-number constants without fixing the
//! real-number type: a constant `n` of type `R` is what `R::from(n)` gives.

use vstd::prelude::*;
use vstd::std_specs::convert::FromSpec;

verus! {

/// `v` is the value that `R::from(n)` produces, for every `R` whose
/// conversion from `i32` is specified.
pub open spec fn is_real_of<R: From<i32>>(v: R, n: i32) -> bool {
    <R as FromSpec<i32>>::obeys_from_spec() ==> v == <R as FromSpec<i32>>::from_spec(n)
}

/// The integer `n` as a real number of type `R`.
pub fn real_of<R: From<i32>>(n: i32) -> (v: R)
    ensures
        is_real_of(v, n),
{
    R::from(n)
}

} // verus!
