//! The random draws the generator makes, taken from the thread's generator of
//! the `rand` crate. Nothing here is proved: each contract states what the
//! crate documents of every outcome, and no more.

use rand::rngs::ThreadRng;
use rand::seq::IndexedRandom;
use rand::Rng;
use vstd::prelude::*;

verus! {

/// `rand::rngs::ThreadRng`, a handle to the calling thread's generator.
/// Opaque: verified code only passes it on.
#[verifier::external_type_specification]
#[verifier::external_body]
pub struct ExThreadRng(ThreadRng);

/// Calls `rand::rng()`. Nothing is claimed of the handle.
#[verifier::external_body]
pub(crate) fn thread_rng() -> ThreadRng {
    rand::rng()
}

/// Calls `Rng::random_ratio`, which is true with probability
/// `numerator / denominator`. It panics where the denominator is zero or
/// smaller than the numerator, so those are left out. Claimed: the two
/// certain cases the crate documents, nothing of the others.
#[verifier::external_body]
pub(crate) fn random_ratio(rng: &mut ThreadRng, numerator: u32, denominator: u32) -> (hit: bool)
    requires
        denominator > 0,
        numerator <= denominator,
    ensures
        numerator == denominator ==> hit,
        numerator == 0 ==> !hit,
{
    rng.random_ratio(numerator, denominator)
}

/// Calls `IndexedRandom::choose` on a slice. Claimed: `None` exactly for the
/// empty slice, otherwise a reference to one of its items; which one is left
/// open.
#[verifier::external_body]
pub(crate) fn pick<'a, T>(items: &'a [T], rng: &mut ThreadRng) -> (picked: Option<&'a T>)
    ensures
        picked is None <==> items@.len() == 0,
        picked matches Some(item) ==> exists|i: int| 0 <= i < items@.len() && items@[i] == *item,
{
    items.choose(rng)
}

} // verus!
