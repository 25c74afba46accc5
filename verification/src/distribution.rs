//! Reproducible synthetic workload generation: label sets, date ranges and
//! the document and query payloads built from them.
//!
//! One [`Distributions`] value, together with one generator seeded through
//! [`Distributions::create_rng`], yields the same sequence of payloads on
//! every run with the same call order.

pub mod choice;
pub mod date;
pub mod ids;
pub mod ingestion;
pub mod label;
pub mod range;
pub mod rng;

pub use self::date::Filter as DateFilter;
pub use self::label::Filter as LabelFilter;
pub use self::label::{Label, Labels};

use vstd::prelude::*;

use rand::rngs::StdRng;

use crate::error::SampleError;

verus! {

/// The length of the synthetic link string carried by every document.
pub const LINK_LENGTH: usize = 32;

/// The samplers behind one declarative workload description: a seed, a date
/// population and the author and tag label populations.
pub struct Distributions {
    rng: rng::RngBuilder,
    publication_date: date::Population,
    authors: label::Population,
    tags: label::Population,
}

/// One document's synthetic payload, generated at ingestion time.
#[derive(Debug)]
pub struct DocumentPayload {
    /// Publication date in epoch seconds.
    pub publication_date: u64,
    pub authors: Labels,
    pub tags: Labels,
    pub link: String,
}

impl DocumentPayload {
    pub open spec fn wf(&self) -> bool {
        &&& self.authors.distinct()
        &&& self.tags.distinct()
        &&& self.link@.len() == LINK_LENGTH
        &&& forall|i: int|
            0 <= i < self.link@.len() ==> rng::is_ascii_alphanumeric(#[trigger] self.link@[i])
    }
}

/// One query's synthetic filter payload.
#[derive(Debug)]
pub struct QueryPayload {
    pub publication_date: DateFilter,
    pub authors: LabelFilter,
    pub tags: LabelFilter,
}

impl QueryPayload {
    pub open spec fn wf(&self) -> bool {
        &&& self.publication_date.wf()
        &&& self.authors.wf()
        &&& self.tags.wf()
    }
}

impl Distributions {
    pub closed spec fn wf(&self) -> bool {
        &&& self.publication_date.wf()
        &&& self.authors.wf()
        &&& self.tags.wf()
    }

    pub closed spec fn spec_date_min(&self) -> u64 {
        self.publication_date.spec_min()
    }

    pub closed spec fn spec_date_max(&self) -> u64 {
        self.publication_date.spec_max()
    }

    /// The author label population's size.
    pub closed spec fn spec_authors_population(&self) -> usize {
        self.authors.spec_population()
    }

    /// The tag label population's size.
    pub closed spec fn spec_tags_population(&self) -> usize {
        self.tags.spec_population()
    }

    /// Gathers the validated samplers of one workload description.
    pub fn new(
        rng: rng::RngBuilder,
        publication_date: date::Population,
        authors: label::Population,
        tags: label::Population,
    ) -> (r: Distributions)
        requires
            publication_date.wf(),
            authors.wf(),
            tags.wf(),
        ensures
            r.wf(),
            r.spec_date_min() == publication_date.spec_min(),
            r.spec_date_max() == publication_date.spec_max(),
            r.spec_authors_population() == authors.spec_population(),
            r.spec_tags_population() == tags.spec_population(),
    {
        Distributions { rng, publication_date, authors, tags }
    }

    /// The deterministically seeded generator all payloads are drawn with.
    pub fn create_rng(&self) -> StdRng {
        self.rng.build()
    }

    /// Draws one document payload: a date within the configured range,
    /// distinct author and tag label sets, and a random link string.
    pub fn sample_document_payload(&self, rng: &mut StdRng) -> (r: Result<
        DocumentPayload,
        SampleError,
    >)
        requires
            self.wf(),
        ensures
            r matches Ok(p) ==> p.wf() && self.spec_date_min() <= p.publication_date
                <= self.spec_date_max(),
            r matches Ok(p) ==> p.authors.below(self.spec_authors_population())
                && p.tags.below(self.spec_tags_population()),
            r matches Err(e) ==> e == SampleError::DrawBudgetExhausted,
    {
        let publication_date = self.publication_date.sample_date(rng);
        let authors = match self.authors.sample_labels(rng) {
            Ok(ls) => ls,
            Err(e) => {
                return Err(e);
            },
        };
        let tags = match self.tags.sample_labels(rng) {
            Ok(ls) => ls,
            Err(e) => {
                return Err(e);
            },
        };
        let link = rng::sample_alphanumeric(rng, LINK_LENGTH);
        Ok(DocumentPayload { publication_date, authors, tags, link })
    }

    /// Draws one query payload: an ordered date filter and disjoint
    /// author and tag label filters.
    pub fn sample_query_payload(&self, rng: &mut StdRng) -> (r: Result<QueryPayload, SampleError>)
        requires
            self.wf(),
        ensures
            r matches Ok(p) ==> p.wf() && p.publication_date.within(
                self.spec_date_min(),
                self.spec_date_max(),
            ),
            r matches Ok(p) ==> p.authors.included.below(self.spec_authors_population())
                && p.authors.excluded.below(self.spec_authors_population())
                && p.tags.included.below(self.spec_tags_population())
                && p.tags.excluded.below(self.spec_tags_population()),
            r matches Err(e) ==> e == SampleError::DrawBudgetExhausted,
    {
        let publication_date = self.publication_date.sample_filter(rng);
        let authors = match self.authors.sample_filter(rng) {
            Ok(f) => f,
            Err(e) => {
                return Err(e);
            },
        };
        let tags = match self.tags.sample_filter(rng) {
            Ok(f) => f,
            Err(e) => {
                return Err(e);
            },
        };
        Ok(QueryPayload { publication_date, authors, tags })
    }
}

} // verus!
