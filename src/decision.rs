use vstd::prelude::*;

verus! {

/// The answer to one approval request.
#[derive(Clone, Copy, Debug, PartialEq, Eq, Structural)]
pub enum ReviewDecision {
    /// The action may proceed.
    Approved,
    /// The action may proceed, and similar actions need no further approval
    /// for the rest of the session.
    ApprovedForSession,
    /// The action must not proceed; the turn continues.
    Denied,
    /// The action must not proceed and the turn should stop.
    Abort,
}

impl Default for ReviewDecision {
    fn default() -> (r: ReviewDecision)
        ensures
            r == ReviewDecision::Denied,
    {
        ReviewDecision::Denied
    }
}

} // verus!
