//! Publication dates and date filters, sampled from range distributions
//! over epoch seconds.

use vstd::prelude::*;

use rand::rngs::StdRng;

use crate::distribution::choice::BoolDistribution;
use crate::distribution::range::{RangeDistribution, RangeDistributionBuilder};
use crate::error::ConfigError;

verus! {

/// A date constraint for queries, in epoch seconds. Whenever both bounds
/// are present the lower one never exceeds the upper one.
#[derive(Clone, Copy, PartialEq, Eq, Structural, Debug, Default)]
pub struct Filter {
    pub lower_bound: Option<u64>,
    pub upper_bound: Option<u64>,
}

impl Filter {
    /// Present bounds are ordered.
    pub open spec fn wf(&self) -> bool {
        match (self.lower_bound, self.upper_bound) {
            (Some(l), Some(u)) => l <= u,
            _ => true,
        }
    }

    /// Present bounds lie within `[min, max]`.
    pub open spec fn within(&self, min: u64, max: u64) -> bool {
        &&& (self.lower_bound matches Some(l) ==> min <= l <= max)
        &&& (self.upper_bound matches Some(u) ==> min <= u <= max)
    }

    /// Builds a filter holding exactly the sampled bounds: whenever both
    /// are present out of order they are swapped, so the returned filter
    /// always satisfies the ordering invariant while carrying the same two
    /// values.
    pub fn from_bounds(lower_bound: Option<u64>, upper_bound: Option<u64>) -> (r: Filter)
        ensures
            r.wf(),
            match (lower_bound, upper_bound) {
                (Some(l), Some(u)) => if l > u {
                    r.lower_bound == Some(u) && r.upper_bound == Some(l)
                } else {
                    r.lower_bound == Some(l) && r.upper_bound == Some(u)
                },
                _ => r.lower_bound == lower_bound && r.upper_bound == upper_bound,
            },
    {
        match (lower_bound, upper_bound) {
            (Some(l), Some(u)) => if l > u {
                Filter { lower_bound: Some(u), upper_bound: Some(l) }
            } else {
                Filter { lower_bound: Some(l), upper_bound: Some(u) }
            },
            _ => Filter { lower_bound, upper_bound },
        }
    }
}

/// Whether a filter draws a lower and/or an upper bound, and from where.
pub struct FilterDistributions {
    pub has_upper_bound: BoolDistribution,
    pub has_lower_bound: BoolDistribution,
    pub upper_bound_sample_distribution: RangeDistribution,
    pub lower_bound_sample_distribution: RangeDistribution,
}

/// A population of publication dates over `[min, max]` epoch seconds: one
/// base sampler for document dates and two independent samplers for
/// optional filter bounds.
pub struct Population {
    sample_distribution: RangeDistribution,
    filters: FilterDistributions,
}

impl Population {
    pub closed spec fn wf(&self) -> bool {
        &&& self.sample_distribution.wf()
        &&& self.filters.has_upper_bound.wf()
        &&& self.filters.has_lower_bound.wf()
        &&& self.filters.upper_bound_sample_distribution.wf()
        &&& self.filters.lower_bound_sample_distribution.wf()
        &&& self.filters.upper_bound_sample_distribution.spec_min()
            == self.sample_distribution.spec_min()
        &&& self.filters.upper_bound_sample_distribution.spec_max()
            == self.sample_distribution.spec_max()
        &&& self.filters.lower_bound_sample_distribution.spec_min()
            == self.sample_distribution.spec_min()
        &&& self.filters.lower_bound_sample_distribution.spec_max()
            == self.sample_distribution.spec_max()
    }

    pub closed spec fn spec_min(&self) -> u64 {
        self.sample_distribution.spec_min()
    }

    pub closed spec fn spec_max(&self) -> u64 {
        self.sample_distribution.spec_max()
    }

    /// Builds the date population from timestamp bounds and the three
    /// declarative sampler shapes.
    ///
    /// Negative epoch bounds and empty ranges are configuration errors.
    pub fn new(
        min: i64,
        max: i64,
        sample_distribution: RangeDistributionBuilder,
        has_lower_bound: BoolDistribution,
        has_upper_bound: BoolDistribution,
        lower_bound_sample_distribution: RangeDistributionBuilder,
        upper_bound_sample_distribution: RangeDistributionBuilder,
    ) -> (r: Result<Population, ConfigError>)
        requires
            sample_distribution.wf(),
            lower_bound_sample_distribution.wf(),
            upper_bound_sample_distribution.wf(),
            has_lower_bound.wf(),
            has_upper_bound.wf(),
        ensures
            r is Ok <==> (0 <= min && 0 <= max && min < max),
            r matches Ok(p) ==> p.wf() && p.spec_min() == min && p.spec_max() == max,
    {
        if min < 0 || max < 0 {
            return Err(ConfigError::InvalidDateBounds);
        }
        let min_u = min as u64;
        let max_u = max as u64;
        let sample_dist = match sample_distribution.build(min_u, max_u) {
            Ok(d) => d,
            Err(e) => {
                return Err(e);
            },
        };
        let lower_dist = match lower_bound_sample_distribution.build(min_u, max_u) {
            Ok(d) => d,
            Err(e) => {
                return Err(e);
            },
        };
        let upper_dist = match upper_bound_sample_distribution.build(min_u, max_u) {
            Ok(d) => d,
            Err(e) => {
                return Err(e);
            },
        };
        Ok(
            Population {
                sample_distribution: sample_dist,
                filters: FilterDistributions {
                    has_upper_bound,
                    has_lower_bound,
                    upper_bound_sample_distribution: upper_dist,
                    lower_bound_sample_distribution: lower_dist,
                },
            },
        )
    }

    /// Draws one publication date, always within the configured range.
    pub fn sample_date(&self, rng: &mut StdRng) -> (r: u64)
        requires
            self.wf(),
        ensures
            self.spec_min() <= r <= self.spec_max(),
    {
        self.sample_distribution.sample(rng)
    }

    /// Draws a date filter: each bound exists with its own probability and
    /// is drawn from its own sampler; when both exist out of order they are
    /// swapped, so the filter invariant always holds.
    pub fn sample_filter(&self, rng: &mut StdRng) -> (r: Filter)
        requires
            self.wf(),
        ensures
            r.wf(),
            r.within(self.spec_min(), self.spec_max()),
    {
        let lower_bound: Option<u64> = if self.filters.has_lower_bound.sample(rng) {
            Some(self.filters.lower_bound_sample_distribution.sample(rng))
        } else {
            None
        };
        let upper_bound: Option<u64> = if self.filters.has_upper_bound.sample(rng) {
            Some(self.filters.upper_bound_sample_distribution.sample(rng))
        } else {
            None
        };
        Filter::from_bounds(lower_bound, upper_bound)
    }
}

} // verus!
