//! Randomness for weight initialization, mutation, selection and shuffling,
//! drawn through the `rand` crate.
//!
//! Nothing can be promised about which value comes back, so each wrapper
//! states only what holds of every outcome.

use vstd::prelude::*;

verus! {

use crate::fx::FX_ONE;

/// Relies on `rand::Rng::gen_range` over an inclusive `i64` range: the
/// sample lies within the given bounds (the call panics only on an empty
/// range, which the precondition rules out).
#[verifier::external_body]
pub(crate) fn rand_range(lo: i64, hi: i64) -> (r: i64)
    requires
        lo <= hi,
    ensures
        lo <= r <= hi,
{
    rand::Rng::gen_range(&mut rand::thread_rng(), lo..=hi)
}

/// Relies on `rand::random::<bool>`: a fair coin flip.
#[verifier::external_body]
pub(crate) fn rand_coin() -> bool {
    rand::random::<bool>()
}

/// Relies on `rand::seq::index::sample`: exactly `amount` distinct indices
/// drawn from `0..n` (the call panics only when `amount > n`, which the
/// precondition rules out).
#[verifier::external_body]
pub(crate) fn sample_indices(n: usize, amount: usize) -> (r: Vec<usize>)
    requires
        amount <= n,
    ensures
        r@.len() == amount,
        forall|k: int| 0 <= k < r@.len() ==> #[trigger] r@[k] < n,
        forall|k1: int, k2: int| 0 <= k1 < k2 < r@.len() ==> r@[k1] != r@[k2],
{
    rand::seq::index::sample(&mut rand::thread_rng(), n, amount).into_vec()
}

/// A uniform sample from `[0, 1]` in fixed point.
pub fn rand_unit() -> (r: i64)
    ensures
        0 <= r <= FX_ONE,
{
    rand_range(0, FX_ONE)
}

/// A uniform sample from `[-1, 1]` in fixed point, as used for fresh weights.
pub fn rand_symmetric_unit() -> (r: i64)
    ensures
        -FX_ONE <= r <= FX_ONE,
{
    rand_range(-FX_ONE, FX_ONE)
}

} // verus!
