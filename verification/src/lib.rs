//! Building blocks for benchmarking approximate-nearest-neighbor vector
//! databases: reproducible synthetic workload generation, query-throughput
//! trial bookkeeping, recall/precision scoring and resource telemetry
//! parsing, with machine-checked contracts on the core logic.

pub mod benchmarks;
pub mod distribution;
pub mod docker;
pub mod error;
pub mod math;
pub mod resources;
pub mod stats;
pub mod text;
pub mod yql;
