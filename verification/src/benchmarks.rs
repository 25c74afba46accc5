//! Query-throughput trial parameters and their bookkeeping.

pub mod query_throughput;

use vstd::prelude::*;

use vstd::string::StringExecFns;

use crate::error::ConfigError;
use crate::text::{append_u64, dec_str, push_char};

verus! {

/// The parameters of one query-throughput trial.
#[derive(Clone, Copy, PartialEq, Eq, Structural, Debug)]
pub struct QueryParameters {
    pub k: usize,
    pub ef: usize,
    pub fetch_payload: bool,
    pub number_of_tasks: usize,
    pub queries_per_task: usize,
    pub use_filters: bool,
}

/// The text form of one trial's parameters:
/// `<k>-<ef><P|p><F|f>-<tasks>-<queries per task>`.
pub open spec fn query_parameters_str(p: QueryParameters) -> Seq<char> {
    dec_str(p.k as nat) + seq!['-'] + dec_str(p.ef as nat) + seq![
        if p.fetch_payload {
            'P'
        } else {
            'p'
        },
        if p.use_filters {
            'F'
        } else {
            'f'
        },
        '-',
    ] + dec_str(p.number_of_tasks as nat) + seq!['-'] + dec_str(p.queries_per_task as nat)
}

impl QueryParameters {
    /// The constraints every trial must satisfy: a search breadth at least
    /// as large as the neighbor count, and at least one worker issuing at
    /// least one query.
    pub open spec fn valid(&self) -> bool {
        self.k <= self.ef && self.number_of_tasks > 0 && self.queries_per_task > 0
    }

    /// Checks the trial constraints.
    pub fn validate(&self) -> (r: Result<(), ConfigError>)
        ensures
            r is Ok <==> self.valid(),
            r matches Err(e) ==> e == ConfigError::InvalidTrialParameters,
    {
        if self.k <= self.ef && self.number_of_tasks > 0 && self.queries_per_task > 0 {
            Ok(())
        } else {
            Err(ConfigError::InvalidTrialParameters)
        }
    }

    /// Whether recall bookkeeping runs for this trial: ground truth is only
    /// precomputed for the unfiltered case.
    pub fn recall_enabled(&self) -> (r: bool)
        ensures
            r == !self.use_filters,
    {
        !self.use_filters
    }

    /// How many queries the whole trial issues.
    pub fn total_queries(&self) -> (r: Option<usize>)
        ensures
            r is Some <==> self.number_of_tasks * self.queries_per_task <= usize::MAX,
            r matches Some(n) ==> n == self.number_of_tasks * self.queries_per_task,
    {
        self.number_of_tasks.checked_mul(self.queries_per_task)
    }

    /// Renders the trial's identifier text.
    pub fn format_id(&self) -> (r: String)
        ensures
            r@ == query_parameters_str(*self),
    {
        let mut s = String::new();
        append_u64(&mut s, self.k as u64);
        push_char(&mut s, '-');
        append_u64(&mut s, self.ef as u64);
        push_char(&mut s, if self.fetch_payload { 'P' } else { 'p' });
        push_char(&mut s, if self.use_filters { 'F' } else { 'f' });
        push_char(&mut s, '-');
        append_u64(&mut s, self.number_of_tasks as u64);
        push_char(&mut s, '-');
        append_u64(&mut s, self.queries_per_task as u64);
        assert(s@ =~= query_parameters_str(*self));
        s
    }
}

/// The index-construction parameters a backend was ingested with.
#[derive(Clone, Copy, PartialEq, Eq, Structural, Debug)]
pub struct IngestionParameters {
    pub m: usize,
    pub ef_construct: usize,
}

/// The text form of the ingestion parameters: `<m>-<ef_construct>`.
pub open spec fn ingestion_parameters_str(p: IngestionParameters) -> Seq<char> {
    dec_str(p.m as nat) + seq!['-'] + dec_str(p.ef_construct as nat)
}

impl IngestionParameters {
    /// Renders the ingestion identifier text.
    pub fn format_id(&self) -> (r: String)
        ensures
            r@ == ingestion_parameters_str(*self),
    {
        let mut s = String::new();
        append_u64(&mut s, self.m as u64);
        push_char(&mut s, '-');
        append_u64(&mut s, self.ef_construct as u64);
        assert(s@ =~= ingestion_parameters_str(*self));
        s
    }
}

/// The directory name of one trial:
/// `<ingestion parameters>_<query parameters>`.
pub fn bench_id(iparams: &IngestionParameters, qparams: &QueryParameters) -> (r: String)
    ensures
        r@ == ingestion_parameters_str(*iparams) + seq!['_'] + query_parameters_str(*qparams),
{
    let mut s = iparams.format_id();
    push_char(&mut s, '_');
    let q = qparams.format_id();
    let r = s.concat(q.as_str());
    assert(r@ =~= ingestion_parameters_str(*iparams) + seq!['_'] + query_parameters_str(*qparams));
    r
}

} // verus!
