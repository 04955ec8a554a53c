use vstd::prelude::*;

use rand::distributions::{Distribution, WeightedIndex};
use rand::Rng;

verus! {

/// The sum of a list of weights.
pub open spec fn weight_total(ws: Seq<u32>) -> int
    decreases ws.len(),
{
    if ws.len() == 0 {
        0
    } else {
        weight_total(ws.drop_last()) + ws.last()
    }
}

/// Relies on rand's `Rng::gen_range` on `thread_rng()`: a value in `[low, high)`.
/// It panics when `low >= high`, which `requires` rules out.
#[verifier::external_body]
pub(crate) fn random_in(low: i32, high: i32) -> (r: i32)
    requires
        low < high,
    ensures
        low <= r < high,
{
    rand::thread_rng().gen_range(low, high)
}

/// Relies on `rand::random::<bool>()`: a fair coin; nothing is promised of the outcome.
#[verifier::external_body]
pub(crate) fn coin_flip() -> bool {
    rand::random()
}

/// Relies on rand's `WeightedIndex` (`new`, then `sample` on `thread_rng()`). `new`
/// accepts a non-empty list of weights with a positive total (summed with `+=`, so the
/// total must fit in `u32`) and keeps their running totals; `sample` draws a value
/// below the total and returns the first index whose running total exceeds it. That
/// index is in range and its weight is positive: an index of weight zero is never drawn.
#[verifier::external_body]
pub(crate) fn choose_weighted(weights: &Vec<u32>) -> (r: usize)
    requires
        weights@.len() > 0,
        0 < weight_total(weights@) <= u32::MAX,
    ensures
        r < weights@.len(),
        weights@[r as int] > 0,
{
    WeightedIndex::new(weights).unwrap().sample(&mut rand::thread_rng())
}

} // verus!
