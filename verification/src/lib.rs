//! Task dispatching, a seeded random workload, run statistics, text utilities
//! and a file-operations menu, each with its contract.
use vstd::prelude::*;

pub mod file_ops;
pub mod generator;
pub mod scheduler;
pub mod stats;
pub mod text;
pub mod workload;

verus! {

} // verus!
