//! Log analysis: line parsing in several formats, level and timing statistics, recurring
//! message patterns and rule-based anomaly detection, each with a verified contract.
use vstd::prelude::*;

pub mod text;
pub mod utils;
pub mod parsers;
pub mod analyzer;
pub mod ml;
pub mod report;
pub mod cli;

verus! {

/// Version of this library.
pub const VERSION: &'static str = "2.0.0";

/// Name of this library.
pub const NAME: &'static str = "LlamaLogAnalyzer MLX Edition";

} // verus!
