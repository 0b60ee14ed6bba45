//! Supervision model of a cross-chain relayer agent.
//!
//! One home chain is shared by a set of replica workers. The supervisor waits
//! for workers to finish in whatever order they do, logs each failure under the
//! chain identifier of the replica that failed, and gives up only once no
//! worker is left.

pub mod aggregation_ism;
pub mod decimal;
pub mod error;
pub mod outcome;
pub mod run;
pub mod startup;
pub mod supervisor;
