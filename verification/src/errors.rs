//! Fatal configuration errors of a run. Per-target resolution failures and
//! per-address scan failures are not errors: they degrade single records and
//! never abort the run.

use vstd::prelude::*;

verus! {

/// A condition that terminates the whole run with a non-zero exit code.
#[derive(Debug, PartialEq, Eq)]
pub enum PipelineError {
    /// An entry of the resolver list does not parse as an IPv4 address.
    UnparsableResolverAddress(String),
    /// The logs directory does not exist and cannot be created.
    LogsDirUnavailable,
    /// No resolved address is eligible for scanning.
    NoEligibleAddresses,
}

impl PipelineError {
    /// Every variant is fatal: the run ends with this non-zero exit code.
    pub fn exit_code(&self) -> (c: i32)
        ensures
            c == 1,
    {
        1
    }
}

} // verus!
