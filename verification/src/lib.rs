//! Verified core of the LoadLoom load-testing console.
use vstd::prelude::*;

pub mod codes;
pub mod contract;
pub mod engine;
pub mod logging;
pub mod metrics;
pub mod monitor;
pub mod nic;
pub mod nicmon;
pub mod pt;
pub mod report;
pub mod text;
pub mod worker;

verus! {
} // verus!
