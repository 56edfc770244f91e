//! Random choices, drawn from the thread's generator.
use vstd::prelude::*;

verus! {

/// Calls `rand::Rng::gen_range` on the thread's generator with the range `0..n`: a
/// random value below `n` (it panics on an empty range).
#[verifier::external_body]
pub(crate) fn random_below(n: usize) -> (r: usize)
    requires
        n > 0,
    ensures
        r < n,
{
    rand::Rng::gen_range(&mut rand::thread_rng(), 0..n)
}

} // verus!
