//! Labels, label filters and the Zipf-weighted label population they are
//! sampled from.

use vstd::prelude::*;

use rand::rngs::StdRng;

use crate::distribution::choice::IdxChoiceDistribution;
use crate::distribution::ids::{encoded_bytes, index_to_fake_uuid, uuid_str};
use crate::distribution::rng::{
    sum_u64, weighted_index_len, weighted_index_new, weighted_index_sample, WeightedU64Index,
};
use crate::error::{ConfigError, SampleError};

verus! {

/// The largest supported label population.
pub const MAX_POPULATION: usize = 1_000_000;

/// The most distinct labels one rejection-sampling pass may ever be asked
/// for.
pub const MAX_LABELS_PER_SAMPLE: usize = 512;

/// How many weighted draws one rejection-sampling pass may spend before it
/// gives up.
pub const DRAW_BUDGET: usize = 1_000_000;

/// A domain identifier below the population size.
#[derive(Clone, Copy, PartialEq, Eq, Structural, Debug)]
pub struct Label(pub u64);

/// An ordered list of distinct labels.
#[derive(Debug, Default)]
pub struct Labels(pub Vec<Label>);

impl Labels {
    /// No label occurs twice.
    pub open spec fn distinct(&self) -> bool {
        forall|i: int, j: int|
            0 <= i < j < self.0@.len() ==> self.0@[i] != self.0@[j]
    }

    /// Every label lies below `population`.
    pub open spec fn below(&self, population: usize) -> bool {
        forall|i: int| 0 <= i < self.0@.len() ==> (self.0@[i].0 as usize) < population
    }

    /// The labels rendered as the hyphenated identifiers backends see.
    pub fn to_uuid_string_vec(&self) -> (r: Vec<String>)
        ensures
            r@.len() == self.0@.len(),
            forall|i: int|
                0 <= i < r@.len() ==> r@[i]@ == uuid_str(encoded_bytes(self.0@[i].0)),
    {
        let mut r: Vec<String> = Vec::new();
        let mut i: usize = 0;
        while i < self.0.len()
            invariant
                i <= self.0@.len(),
                r@.len() == i,
                forall|j: int|
                    0 <= j < i ==> r@[j]@ == uuid_str(encoded_bytes(self.0@[j].0)),
            decreases self.0@.len() - i,
        {
            let id = index_to_fake_uuid(self.0[i].0);
            r.push(id.hyphenated_string());
            i = i + 1;
        }
        r
    }
}

/// Whether the list already carries this label.
fn labels_contain(labels: &Vec<Label>, label: Label) -> (r: bool)
    ensures
        r == labels@.contains(label),
{
    let mut i: usize = 0;
    while i < labels.len()
        invariant
            i <= labels@.len(),
            forall|j: int| 0 <= j < i ==> labels@[j] != label,
        decreases labels@.len() - i,
    {
        if labels[i] == label {
            return true;
        }
        i = i + 1;
    }
    false
}

/// A label constraint for queries: a match must carry at least one of the
/// `included` labels (when any are given) and none of the `excluded` labels.
#[derive(Debug, Default)]
pub struct Filter {
    pub included: Labels,
    pub excluded: Labels,
}

impl Filter {
    /// Both sides are distinct and no label stands on both.
    pub open spec fn wf(&self) -> bool {
        self.included.distinct() && self.excluded.distinct() && forall|i: int, j: int|
            0 <= i < self.included.0@.len() && 0 <= j < self.excluded.0@.len()
                ==> self.included.0@[i] != self.excluded.0@[j]
    }
}

/// How many labels a filter's included and excluded sides draw.
pub struct FilterGenerator {
    pub include_count_distribution: IdxChoiceDistribution,
    pub exclude_count_distribution: IdxChoiceDistribution,
}

/// A Zipf-weighted population of labels together with the count
/// distributions that shape document properties and query filters.
pub struct Population {
    property_count_distribution: IdxChoiceDistribution,
    filters: FilterGenerator,
    population: usize,
    distribution: WeightedU64Index,
}

impl Population {
    pub closed spec fn wf(&self) -> bool {
        &&& 0 < self.population <= MAX_POPULATION
        &&& weighted_index_len(self.distribution) == self.population
        &&& self.property_count_distribution.wf()
        &&& self.property_count_distribution.spec_nr_choices() <= self.population / 2
        &&& self.property_count_distribution.spec_nr_choices() - 1 <= MAX_LABELS_PER_SAMPLE
        &&& self.filters.include_count_distribution.wf()
        &&& self.filters.exclude_count_distribution.wf()
        &&& self.filters.include_count_distribution.spec_nr_choices()
            + self.filters.exclude_count_distribution.spec_nr_choices() <= self.population / 2
        &&& (self.filters.include_count_distribution.spec_nr_choices() - 1)
            + (self.filters.exclude_count_distribution.spec_nr_choices() - 1)
            <= MAX_LABELS_PER_SAMPLE
    }

    pub closed spec fn spec_population(&self) -> usize {
        self.population
    }

    /// The population size.
    pub fn population(&self) -> (r: usize)
        ensures
            r == self.spec_population(),
    {
        self.population
    }

    /// Builds a label population over one weight per label.
    ///
    /// Label `k` is drawn with probability proportional to `weights[k]`; for
    /// Zipf-shaped popularity the table holds `w_k ∝ (k+1)^-s` in fixed
    /// point. Construction is refused for oversized populations, malformed
    /// weight tables, and count distributions whose simultaneous sample
    /// budget could exceed half the population or the rejection-sampling
    /// cap.
    pub fn new(
        population: usize,
        weights: &Vec<u64>,
        property_count_distribution: IdxChoiceDistribution,
        filters: FilterGenerator,
    ) -> (r: Result<Population, ConfigError>)
        requires
            property_count_distribution.wf(),
            filters.include_count_distribution.wf(),
            filters.exclude_count_distribution.wf(),
        ensures
            r is Ok <==> {
                &&& population <= MAX_POPULATION
                &&& weights@.len() == population
                &&& 0 < sum_u64(weights@) <= u64::MAX
                &&& property_count_distribution.spec_nr_choices() <= population / 2
                &&& property_count_distribution.spec_nr_choices() - 1 <= MAX_LABELS_PER_SAMPLE
                &&& filters.include_count_distribution.spec_nr_choices()
                    + filters.exclude_count_distribution.spec_nr_choices() <= population / 2
                &&& (filters.include_count_distribution.spec_nr_choices() - 1)
                    + (filters.exclude_count_distribution.spec_nr_choices() - 1)
                    <= MAX_LABELS_PER_SAMPLE
            },
            r matches Ok(p) ==> p.wf() && p.spec_population() == population,
    {
        if population > MAX_POPULATION {
            return Err(ConfigError::PopulationTooLarge);
        }
        if weights.len() != population {
            return Err(ConfigError::InvalidWeights);
        }
        let distribution = match crate::distribution::choice::checked_total(weights) {
            Some(total) if total > 0 => match weighted_index_new(weights) {
                Some(d) => d,
                None => {
                    return Err(ConfigError::InvalidWeights);
                },
            },
            _ => {
                return Err(ConfigError::InvalidWeights);
            },
        };
        let max_allowed_samples = population / 2;
        if property_count_distribution.nr_choices() > max_allowed_samples {
            return Err(ConfigError::SampleBudgetTooLarge);
        }
        if property_count_distribution.nr_choices() - 1 > MAX_LABELS_PER_SAMPLE {
            return Err(ConfigError::SampleBudgetTooLarge);
        }
        let total_max_filters = match filters.include_count_distribution.nr_choices().checked_add(
            filters.exclude_count_distribution.nr_choices(),
        ) {
            Some(t) => t,
            None => {
                return Err(ConfigError::SampleBudgetTooLarge);
            },
        };
        if total_max_filters > max_allowed_samples {
            return Err(ConfigError::SampleBudgetTooLarge);
        }
        if (filters.include_count_distribution.nr_choices() - 1)
            + (filters.exclude_count_distribution.nr_choices() - 1) > MAX_LABELS_PER_SAMPLE {
            return Err(ConfigError::SampleBudgetTooLarge);
        }
        Ok(
            Population {
                property_count_distribution,
                filters,
                population,
                distribution,
            },
        )
    }

    /// Draws one label from the weighted population.
    pub fn sample_label(&self, rng: &mut StdRng) -> (r: Label)
        requires
            self.wf(),
        ensures
            (r.0 as usize) < self.spec_population(),
    {
        let idx = weighted_index_sample(&self.distribution, rng);
        Label(idx as u64)
    }

    /// Collects `n` distinct labels by rejection sampling: draws one
    /// weighted label at a time and discards duplicates.
    ///
    /// Asking for more than half the population, or for more than 512
    /// labels, is refused outright so the rejection loop cannot run away; an
    /// admissible request can still exhaust the draw budget if the weighted
    /// draws keep repeating, but an `Ok` answer always holds exactly `n`
    /// distinct labels, and a request for no labels at all makes no draw
    /// and always succeeds.
    pub fn sample_n_unique(&self, n: usize, rng: &mut StdRng) -> (r: Result<Labels, SampleError>)
        requires
            self.wf(),
        ensures
            r == Err::<Labels, SampleError>(SampleError::TooManyLabels) <==> (n
                > self.spec_population() / 2 || n > MAX_LABELS_PER_SAMPLE),
            r matches Ok(ls) ==> ls.0@.len() == n && ls.distinct() && ls.below(
                self.spec_population(),
            ),
            n == 0 ==> (r matches Ok(ls) && ls.0@.len() == 0),
    {
        if n > self.population / 2 || n > MAX_LABELS_PER_SAMPLE {
            return Err(SampleError::TooManyLabels);
        }
        let mut labels: Vec<Label> = Vec::new();
        let mut draws: usize = 0;
        while labels.len() < n && draws < DRAW_BUDGET
            invariant
                self.wf(),
                labels@.len() <= n,
                draws <= DRAW_BUDGET,
                forall|i: int, j: int| 0 <= i < j < labels@.len() ==> labels@[i] != labels@[j],
                forall|i: int|
                    0 <= i < labels@.len() ==> (labels@[i].0 as usize) < self.spec_population(),
            decreases DRAW_BUDGET - draws,
        {
            let label = self.sample_label(rng);
            if !labels_contain(&labels, label) {
                labels.push(label);
            }
            draws = draws + 1;
        }
        if labels.len() == n {
            Ok(Labels(labels))
        } else {
            Err(SampleError::DrawBudgetExhausted)
        }
    }

    /// Draws a document's label set: a count from the property count
    /// distribution, then that many distinct labels.
    pub fn sample_labels(&self, rng: &mut StdRng) -> (r: Result<Labels, SampleError>)
        requires
            self.wf(),
        ensures
            r matches Ok(ls) ==> ls.distinct() && ls.below(self.spec_population())
                && ls.0@.len() <= MAX_LABELS_PER_SAMPLE,
            r matches Err(e) ==> e == SampleError::DrawBudgetExhausted,
    {
        let n = self.property_count_distribution.sample(rng);
        match self.sample_n_unique(n, rng) {
            Ok(ls) => Ok(ls),
            Err(e) => Err(e),
        }
    }

    /// Draws a query's label filter: included and excluded counts, then one
    /// rejection-sampling pass over both, split so that no label can stand
    /// on both sides.
    pub fn sample_filter(&self, rng: &mut StdRng) -> (r: Result<Filter, SampleError>)
        requires
            self.wf(),
        ensures
            r matches Ok(f) ==> f.wf() && f.included.below(self.spec_population())
                && f.excluded.below(self.spec_population()),
            r matches Err(e) ==> e == SampleError::DrawBudgetExhausted,
    {
        let nr_include = self.filters.include_count_distribution.sample(rng);
        let nr_exclude = self.filters.exclude_count_distribution.sample(rng);
        let labels = match self.sample_n_unique(nr_include + nr_exclude, rng) {
            Ok(ls) => ls,
            Err(e) => {
                return Err(e);
            },
        };
        let mut included = labels.0;
        let excluded = included.split_off(nr_include);
        Ok(Filter { included: Labels(included), excluded: Labels(excluded) })
    }
}

} // verus!
