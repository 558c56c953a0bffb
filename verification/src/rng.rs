//! The randomness source, and the few draws the engine makes from it.
//!
//! Every operation that needs randomness takes an explicit handle; the engine
//! never reaches for implicit global state.

use vstd::prelude::*;

verus! {

/// Declares rand::rngs::ThreadRng, the thread-local generator handle, so
/// that it can stand in signatures and fields; it stays opaque here.
#[verifier::external_type_specification]
#[verifier::external_body]
pub struct ExThreadRng(rand::rngs::ThreadRng);

/// An ASCII letter or digit (codes of `A..Z`, `a..z`, `0..9`): the symbol
/// domain that random initialization and mutation draw from.
pub open spec fn is_alnum(b: u8) -> bool {
    (65 <= b && b <= 90) || (97 <= b && b <= 122) || (48 <= b && b <= 57)
}

/// Relies on rand::thread_rng: a handle to the thread-local generator.
#[verifier::external_body]
pub fn new_rng() -> rand::rngs::ThreadRng {
    rand::thread_rng()
}

/// Relies on rand::Rng::gen_range over `0..n`: the draw lies below the bound.
/// It panics only on an empty range, which the precondition rules out; nothing
/// more is claimed of a random outcome.
#[verifier::external_body]
pub fn rand_below(rng: &mut rand::rngs::ThreadRng, n: u128) -> (r: u128)
    requires
        1 <= n,
    ensures
        r < n,
{
    rand::Rng::gen_range(rng, 0..n)
}

/// Relies on rand::distributions::Alphanumeric: the draw is one of the ASCII
/// letters and digits; nothing more is claimed of a random outcome.
#[verifier::external_body]
pub fn rand_alnum(rng: &mut rand::rngs::ThreadRng) -> (r: u8)
    ensures
        is_alnum(r),
{
    rand::Rng::sample(rng, rand::distributions::Alphanumeric)
}

} // verus!
