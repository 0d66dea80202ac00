//! Error types for container lookups and solver precondition checks.

use vstd::prelude::*;

verus! {

/// A state or action was looked up in a map that has no entry for it.
///
/// Each variant names the lookup family in which the key was missing.
/// Such a lookup is a usage error: every container is total over the
/// sampler that built it, so a missing key means the caller queried a
/// container with a key from outside that sampler.
#[derive(Debug, Clone, Copy, PartialEq, Eq, Structural)]
pub enum NotFound {
    StateInPolicy,
    StateInStateValue,
    StateInActionValue,
    ActionInStateActionValue,
}

impl NotFound {
    /// A human-readable description of the failed lookup.
    pub fn message(&self) -> &'static str {
        match self {
            NotFound::StateInPolicy => "state not found in policy",
            NotFound::StateInStateValue => "state not found in state value",
            NotFound::StateInActionValue => "state not found in action value",
            NotFound::ActionInStateActionValue => "action not found in state action value",
        }
    }
}

/// A solver run that could not produce a result: a configuration that
/// selects the other algorithm family, reported before any computation
/// proceeds, or a run that exhausted its round safety bound.
#[derive(Debug, Clone, Copy, PartialEq, Eq, Structural)]
pub enum SolverError {
    /// Policy iteration was requested with an evaluation-sweep cap set.
    IterationCapSet,
    /// Value iteration was requested without a positive evaluation-sweep cap.
    IterationCapMissing,
    /// The improvement rounds hit the `max_num_steps` safety bound before
    /// the policy reached a fixed point.
    RoundLimitReached,
}

} // verus!
