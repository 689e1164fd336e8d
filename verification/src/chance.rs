//! The one source of chance.

use rand::Rng;
use vstd::prelude::*;

verus! {

/// Draws a number from `low` up to, but not including, `high`.
///
/// Trusted, not proved: the body calls `rand::Rng::gen_range` on the
/// generator that `rand::thread_rng` hands out. The contract repeats what
/// `gen_range` documents, a value in the half-open range, and says nothing
/// of which value comes out, so two calls with the same bounds may differ.
/// `gen_range` panics when `low >= high`; the precondition rules that out.
/// `thread_rng` panics if the operating system cannot seed the generator,
/// which no precondition can rule out.
#[verifier::external_body]
pub(crate) fn draw(low: usize, high: usize) -> (n: usize)
    requires
        low < high,
    ensures
        low <= n < high,
{
    rand::thread_rng().gen_range(low, high)
}

} // verus!
