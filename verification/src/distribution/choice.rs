//! Small finite choice distributions: a weighted pick among the first `n`
//! indices, and a weighted coin.

use vstd::prelude::*;

use rand::rngs::StdRng;

use crate::distribution::rng::{
    gen_ratio, sum_u64, weighted_index_len, weighted_index_new, weighted_index_sample,
    WeightedU64Index,
};
use crate::error::ConfigError;

verus! {

/// A weighted choice of one index out of `0 .. nr_choices`, used to draw how
/// many labels a document or a filter carries.
pub struct IdxChoiceDistribution {
    distribution: WeightedU64Index,
    nr_choices: usize,
}

impl IdxChoiceDistribution {
    pub closed spec fn wf(&self) -> bool {
        weighted_index_len(self.distribution) == self.nr_choices && self.nr_choices > 0
    }

    pub closed spec fn spec_nr_choices(&self) -> usize {
        self.nr_choices
    }

    /// Builds the choice distribution over one weight per index; index `i`
    /// is drawn with probability proportional to `weights[i]`.
    pub fn new(weights: &Vec<u64>) -> (r: Result<IdxChoiceDistribution, ConfigError>)
        ensures
            r is Ok <==> (weights@.len() > 0 && 0 < sum_u64(weights@) <= u64::MAX),
            r matches Ok(d) ==> d.wf() && d.spec_nr_choices() == weights@.len(),
    {
        let total = match checked_total(weights) {
            Some(t) => t,
            None => {
                return Err(ConfigError::InvalidWeights);
            },
        };
        if weights.len() == 0 || total == 0 {
            return Err(ConfigError::InvalidWeights);
        }
        match weighted_index_new(weights) {
            Some(distribution) => Ok(
                IdxChoiceDistribution { distribution, nr_choices: weights.len() },
            ),
            None => Err(ConfigError::InvalidWeights),
        }
    }

    /// One more than the largest count this distribution can draw.
    pub fn nr_choices(&self) -> (r: usize)
        ensures
            r == self.spec_nr_choices(),
            self.wf() ==> r > 0,
    {
        self.nr_choices
    }

    /// Draws one index below `nr_choices`.
    pub fn sample(&self, rng: &mut StdRng) -> (r: usize)
        requires
            self.wf(),
        ensures
            r < self.spec_nr_choices(),
    {
        weighted_index_sample(&self.distribution, rng)
    }
}

/// The total of a weight table, or `None` if it cannot be represented.
pub(crate) fn checked_total(weights: &Vec<u64>) -> (r: Option<u64>)
    ensures
        r is Some <==> sum_u64(weights@) <= u64::MAX,
        r matches Some(t) ==> t == sum_u64(weights@),
{
    let mut total: u64 = 0;
    let mut i: usize = 0;
    while i < weights.len()
        invariant
            i <= weights@.len(),
            total == sum_u64(weights@.subrange(0, i as int)),
        decreases weights@.len() - i,
    {
        proof {
            assert(weights@.subrange(0, i + 1).drop_last() =~= weights@.subrange(0, i as int));
        }
        total = match total.checked_add(weights[i]) {
            Some(t) => t,
            None => {
                proof {
                    lemma_sum_u64_prefix_le(weights@, i + 1);
                }
                return None;
            },
        };
        i = i + 1;
    }
    proof {
        assert(weights@.subrange(0, weights@.len() as int) =~= weights@);
    }
    Some(total)
}

/// A later prefix of a weight table never sums to less than an earlier one.
proof fn lemma_sum_u64_prefix_le(s: Seq<u64>, k: int)
    requires
        0 <= k <= s.len(),
    ensures
        sum_u64(s.subrange(0, k)) <= sum_u64(s),
    decreases s.len() - k,
{
    if k == s.len() {
        assert(s.subrange(0, k) =~= s);
    } else {
        lemma_sum_u64_prefix_le(s, k + 1);
        assert(s.subrange(0, k + 1).drop_last() =~= s.subrange(0, k));
        assert(sum_u64(s.subrange(0, k)) <= sum_u64(s.subrange(0, k + 1)));
    }
}

/// A weighted coin: true with probability `num / den`.
pub struct BoolDistribution {
    num: u32,
    den: u32,
}

impl BoolDistribution {
    pub closed spec fn wf(&self) -> bool {
        self.den > 0 && self.num <= self.den
    }

    pub closed spec fn spec_num(&self) -> u32 {
        self.num
    }

    pub closed spec fn spec_den(&self) -> u32 {
        self.den
    }

    /// Builds the coin from a fraction; anything outside `[0, 1]` is a
    /// configuration error.
    pub fn new(num: u32, den: u32) -> (r: Result<BoolDistribution, ConfigError>)
        ensures
            r is Ok <==> (den > 0 && num <= den),
            r matches Ok(d) ==> d.wf() && d.spec_num() == num && d.spec_den() == den,
    {
        if den > 0 && num <= den {
            Ok(BoolDistribution { num, den })
        } else {
            Err(ConfigError::InvalidProbability)
        }
    }

    /// Flips the coin: certain outcomes for the fractions zero and one.
    pub fn sample(&self, rng: &mut StdRng) -> (r: bool)
        requires
            self.wf(),
        ensures
            self.spec_num() == 0 ==> !r,
            self.spec_num() == self.spec_den() ==> r,
    {
        gen_ratio(rng, self.num, self.den)
    }
}

} // verus!
