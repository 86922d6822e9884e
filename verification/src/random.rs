//! The source of randomness. The generator and the two draws made from it
//! come from `rand`; their contracts are stated here and believed, not
//! proved. Each says only what holds of every outcome.

use rand::rngs::ThreadRng;
use rand::seq::SliceRandom;
use rand::Rng;
use vstd::prelude::*;

verus! {

/// `rand::rngs::ThreadRng`, the handle of a thread's generator. Nothing
/// inside it is visible here.
#[verifier::external_type_specification]
#[verifier::external_body]
pub struct ExThreadRng(ThreadRng);

/// `rand::thread_rng`: the generator of the calling thread, seeded by the
/// system. Nothing is claimed of it.
#[verifier::external_body]
pub(crate) fn thread_source() -> ThreadRng {
    rand::thread_rng()
}

/// `Rng::gen_range` over the half-open range `low..high`, which must not be
/// empty. The value drawn lies in the range.
#[verifier::external_body]
pub(crate) fn draw_weight(source: &mut ThreadRng, low: u16, high: u16) -> (weight: u16)
    requires
        low < high,
    ensures
        low <= weight < high,
{
    source.gen_range(low..high)
}

/// `SliceRandom::shuffle`: the cities of the path are rearranged in place by
/// a series of swaps. The path holds the same cities as before, each as
/// often as before.
#[verifier::external_body]
pub(crate) fn shuffle_path(source: &mut ThreadRng, path: &mut Vec<u16>)
    ensures
        final(path)@.to_multiset() == old(path)@.to_multiset(),
{
    path.shuffle(source);
}

} // verus!
