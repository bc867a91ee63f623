//! Count-based benchmarking: measurements of executed instructions, cache hits and RAM
//! accesses, taken by running each benchmark in a child process under an instruction-level
//! cache simulator. The library holds the measurement protocol, the parser of the simulator's
//! output, the stats arithmetic, the child's capture decisions, id filtering and baselines.

use vstd::prelude::*;

pub mod baseline;
pub mod breakdown;
pub mod harness;
pub mod id;
pub mod options;
pub mod output;
pub mod protocol;
pub mod stats;
pub mod text;

pub use crate::baseline::BaselineStore;
pub use crate::harness::{Capture, CaptureBehavior, CaptureGuard};
pub use crate::id::BenchmarkId;
pub use crate::options::{
    BaselineLocation, BenchOptions, CachegrindOptions, ConfigError, IdMatcher, OptionsError,
    RegexFilter, Verbosity,
};
pub use crate::output::{BenchmarkOutput, CachegrindFunction, CachegrindOutput, ParseError};
pub use crate::protocol::{Measurement, NextStep, Phase, SpawnRequest};
pub use crate::stats::{
    AccessDetails, AccessSummary, CachegrindDataPoint, CachegrindStats, FullCachegrindStats,
};

verus! {

/// Mode in which the bencher is currently executing.
#[derive(Debug, Clone, Copy, PartialEq, Eq, Hash, Structural)]
pub enum BenchMode {
    /// Testing the benchmark code, without instrumentation.
    Test,
    /// Collecting benchmark data.
    Bench,
    /// Listing benchmark names.
    List,
    /// Printing benchmark results collected during previous runs.
    PrintResults,
}

} // verus!
