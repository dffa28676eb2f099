//! The random source that templates are drawn from.

use rand::rngs::StdRng;
use rand::Rng;
use vstd::prelude::*;

verus! {

/// `rand::rngs::StdRng`, the generator that every random draw of this crate
/// comes from. Its state is opaque here.
#[verifier::external_type_specification]
#[verifier::external_body]
pub struct ExStdRng(StdRng);

/// `Rng::fill` on a byte slice: overwrites every byte of `dest` with random
/// data. Nothing is claimed of the bytes written. `StdRng` never fails to
/// produce bytes, so the call returns.
#[verifier::external_body]
pub(crate) fn fill_bytes(rng: &mut StdRng, dest: &mut [u8])
    ensures
        final(dest)@.len() == old(dest)@.len(),
{
    rng.fill(dest)
}

/// `Rng::gen_range` on the half-open range `0..high`: a random index below
/// `high`. The call panics on an empty range, which `requires` leaves out.
#[verifier::external_body]
pub(crate) fn index_below(rng: &mut StdRng, high: usize) -> (i: usize)
    requires
        0 < high,
    ensures
        i < high,
{
    rng.gen_range(0..high)
}

/// `Rng::gen_ratio`: a random `bool` that is `true` with probability
/// `numerator / denominator`. The call panics on a zero denominator and on a
/// ratio above one, which `requires` leaves out. Of the result only what the
/// two certain ratios force is claimed.
#[verifier::external_body]
pub(crate) fn chance(rng: &mut StdRng, numerator: u32, denominator: u32) -> (hit: bool)
    requires
        0 < denominator,
        numerator <= denominator,
    ensures
        numerator == denominator ==> hit,
        numerator == 0 ==> !hit,
{
    rng.gen_ratio(numerator, denominator)
}

/// `rand::seq::index::sample`: exactly `amount` distinct indices from
/// `0..length`, in random order, as a `Vec`. The call panics where more
/// indices are asked for than there are. Above `u32::MAX` indices it samples
/// by rejection, which asserts in a debug build that fewer indices are asked
/// for than there are. `requires` leaves both out.
#[verifier::external_body]
pub(crate) fn sample_indices(rng: &mut StdRng, length: usize, amount: usize) -> (ids: Vec<usize>)
    requires
        amount <= length,
        length <= u32::MAX || amount < length,
    ensures
        ids@.len() == amount,
        forall|j: int| 0 <= j < ids@.len() ==> ids@[j] < length,
        forall|j: int, k: int| 0 <= j < k < ids@.len() ==> ids@[j] != ids@[k],
{
    rand::seq::index::sample(rng, length, amount).into_vec()
}

} // verus!
