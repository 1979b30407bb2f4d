//! Rows read by the job and pipeline queries.
use vstd::prelude::*;

verus! {

/// Number of jobs waiting to be claimed.
#[derive(Debug, Clone, Copy, PartialEq, Eq, Structural)]
pub struct PendingCount {
    pub count: i64,
}

/// The number the next run of a pipeline gets.
#[derive(Debug, Clone, Copy, PartialEq, Eq, Structural)]
pub struct NextRunNumber {
    pub next_number: i64,
}

} // verus!
