//! Error taxonomy: configuration errors are detected while a workload
//! description is turned into samplers, before any trial starts; sampling
//! errors can only surface while payloads are generated.

use vstd::prelude::*;

verus! {

/// A fault in the declarative workload description, found at construction
/// time.
#[derive(Clone, Copy, PartialEq, Eq, Structural, Debug)]
pub enum ConfigError {
    /// A weight table is empty, sums to zero, or its total cannot be
    /// represented.
    InvalidWeights,
    /// The label population exceeds the supported maximum.
    PopulationTooLarge,
    /// A configured simultaneous sample count exceeds what rejection
    /// sampling can serve.
    SampleBudgetTooLarge,
    /// A date range has a negative epoch bound or an empty interval.
    InvalidDateBounds,
    /// A percentage string is not of the form `"<number>%"` with a value
    /// between zero and one hundred.
    InvalidPercentage,
    /// A probability is not a fraction between zero and one.
    InvalidProbability,
    /// A trial asks for a search breadth below the neighbor count, or for
    /// no workers or no queries.
    InvalidTrialParameters,
}

/// A fault around the files a benchmark run reads and writes.
#[derive(Clone, Copy, PartialEq, Eq, Structural, Debug)]
pub enum PathError {
    /// The path carries no usable file name.
    InvalidFileName,
    /// The vectors file is not there.
    MissingVectorsFile,
    /// The document payload file is not there.
    MissingDocumentPayloadFile,
    /// The query payload file is not there.
    MissingQueryPayloadFile,
    /// The document payload file is already there and must not be
    /// overwritten.
    DocumentPayloadFileExists,
    /// The query payload file is already there and must not be
    /// overwritten.
    QueryPayloadFileExists,
    /// An entry under the report parent directory is not a decimal
    /// counter.
    InvalidReportDirName,
}

/// A fault in a container-stats report line. Any such fault aborts the
/// whole telemetry scan; only a name-prefix mismatch is a normal
/// filtered-out case, not an error.
#[derive(Clone, Copy, PartialEq, Eq, Structural, Debug)]
pub enum ParseError {
    /// The line is not one JSON object carrying the five expected string
    /// fields.
    MalformedStatLine,
    /// A byte-size field is not a `"<number><unit>B"` reading.
    MalformedByteSize,
    /// A percentage field is not a `"<number>%"` reading.
    MalformedPercentage,
}

/// A fault while drawing a sample.
#[derive(Clone, Copy, PartialEq, Eq, Structural, Debug)]
pub enum SampleError {
    /// More distinct labels were requested than rejection sampling may ever
    /// be asked for: over half the population, or over 512.
    TooManyLabels,
    /// The rejection-sampling draw budget ran out before enough distinct
    /// labels appeared.
    DrawBudgetExhausted,
}

} // verus!
