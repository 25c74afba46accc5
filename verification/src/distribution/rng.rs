//! The seeded random generator and the trusted draws the samplers are built
//! on. Every other part of the workload generator is verified against the
//! contracts stated here.

use vstd::prelude::*;

use rand::distributions::{Alphanumeric, DistString, Distribution, WeightedIndex};
use rand::rngs::StdRng;
use rand::{Rng, SeedableRng};

verus! {

#[verifier::external_type_specification]
#[verifier::external_body]
pub struct ExStdRng(StdRng);

/// A weighted distribution over the indices of a table of `u64` weights,
/// kept opaque because Verus cannot see into the outside type.
#[verifier::external_body]
pub struct WeightedU64Index {
    inner: WeightedIndex<u64>,
}

/// How many weights a weighted index distribution was built over.
pub uninterp spec fn weighted_index_len(d: WeightedU64Index) -> nat;

/// The sum of a sequence of weights.
pub open spec fn sum_u64(s: Seq<u64>) -> int
    decreases s.len(),
{
    if s.len() == 0 {
        0
    } else {
        sum_u64(s.drop_last()) + s.last()
    }
}

/// Deterministically seeds the random generator that drives payload
/// generation.
///
/// Relies on `SeedableRng::seed_from_u64`: the same seed always yields the
/// same generator state.
#[verifier::external_body]
pub fn rng_from_seed(seed: u64) -> StdRng {
    StdRng::seed_from_u64(seed)
}

/// Builds the seeded generator for a stored seed.
#[derive(Clone, Copy, PartialEq, Eq, Structural, Debug)]
pub struct RngBuilder {
    pub seed: u64,
}

impl RngBuilder {
    pub fn build(&self) -> StdRng {
        rng_from_seed(self.seed)
    }
}

/// Relies on `WeightedIndex::new`: succeeds exactly when the table is
/// non-empty with a positive total, and remembers one entry per weight.
#[verifier::external_body]
pub(crate) fn weighted_index_new(weights: &Vec<u64>) -> (r: Option<WeightedU64Index>)
    requires
        sum_u64(weights@) <= u64::MAX,
    ensures
        r is Some <==> (weights@.len() > 0 && sum_u64(weights@) > 0),
        r matches Some(d) ==> weighted_index_len(d) == weights@.len(),
{
    WeightedIndex::new(weights.iter()).ok().map(|inner| WeightedU64Index { inner })
}

/// Relies on `WeightedIndex`'s `Distribution::sample`: returns the index of
/// one of the weights the table was built over.
#[verifier::external_body]
pub(crate) fn weighted_index_sample(d: &WeightedU64Index, rng: &mut StdRng) -> (r: usize)
    ensures
        (r as nat) < weighted_index_len(*d),
{
    d.inner.sample(rng)
}

/// Relies on `Rng::gen_range` over an inclusive range: a draw within the
/// bounds.
#[verifier::external_body]
pub(crate) fn gen_range_inclusive_u64(rng: &mut StdRng, lo: u64, hi: u64) -> (r: u64)
    requires
        lo <= hi,
    ensures
        lo <= r <= hi,
{
    rng.gen_range(lo..=hi)
}

/// Relies on `Rng::gen_range` over a half-open range: a draw below the
/// bound.
#[verifier::external_body]
pub(crate) fn gen_range_usize(rng: &mut StdRng, n: usize) -> (r: usize)
    requires
        n > 0,
    ensures
        r < n,
{
    rng.gen_range(0..n)
}

/// Relies on `Rng::gen_ratio`: true with probability `num / den`, always
/// false for a zero numerator and always true when the fraction is one.
#[verifier::external_body]
pub(crate) fn gen_ratio(rng: &mut StdRng, num: u32, den: u32) -> (r: bool)
    requires
        den > 0,
        num <= den,
    ensures
        num == 0 ==> !r,
        num == den ==> r,
{
    rng.gen_ratio(num, den)
}

/// An ASCII letter or digit.
pub open spec fn is_ascii_alphanumeric(c: char) -> bool {
    ('0' <= c <= '9') || ('a' <= c <= 'z') || ('A' <= c <= 'Z')
}

/// Relies on `Alphanumeric`'s `DistString::sample_string`: appends exactly
/// `len` characters, each drawn from its 62-character set `[0-9A-Za-z]`.
#[verifier::external_body]
pub(crate) fn sample_alphanumeric(rng: &mut StdRng, len: usize) -> (r: String)
    ensures
        r@.len() == len,
        forall|i: int| 0 <= i < r@.len() ==> is_ascii_alphanumeric(#[trigger] r@[i]),
{
    Alphanumeric.sample_string(rng, len)
}

} // verus!
