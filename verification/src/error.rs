use vstd::prelude::*;

verus! {

/// Every failure the engine reports to its callers.
///
/// `InvalidColor` and `InvalidRuleset` are construction-time errors; the
/// others are query-time misuse of an analysis job.
#[derive(Clone, Copy, Debug, PartialEq, Eq, Structural)]
pub enum Error {
    /// A piece-identity character outside the recognized alphabet.
    InvalidColor,
    /// Rotation data that is internally inconsistent (for example a piece
    /// with no orientations).
    InvalidRuleset,
    /// A result query issued before the job's `wait` has completed.
    JobNotReady,
    /// A move identifier that does not belong to the job queried.
    UnknownMove,
    /// Any operation on a job that has been discarded.
    JobDiscarded,
}

} // verus!
