//! The one place where chance enters: a whole number below a bound.

use rand::Rng;
use vstd::prelude::*;

verus! {

/// `Rng::gen_range` on `rand::thread_rng()` with the range `0..bound`: some
/// number of that range. An empty range makes `gen_range` panic, so the bound
/// is positive. Two calls may give two numbers.
#[verifier::external_body]
pub(crate) fn random_below(bound: i32) -> (r: i32)
    requires
        bound > 0,
    ensures
        0 <= r < bound,
{
    rand::thread_rng().gen_range(0..bound)
}

} // verus!
