//! The one place where randomness enters the library.

use vstd::prelude::*;

verus! {

/// Relies on `rand::Rng::gen_range` over the thread-local generator: it
/// returns a value of the given half-open range, and panics only when the
/// range is empty. Nothing is assumed about which value comes back.
#[verifier::external_body]
pub(crate) fn random_below(n: usize) -> (r: usize)
    requires
        n > 0,
    ensures
        r < n,
{
    rand::Rng::gen_range(&mut rand::thread_rng(), 0..n)
}

} // verus!
