//! The discrete parts of the feedback that flows from Claw back to the
//! reasoning layer: the fulfillment status of a pulse and the contact state
//! of the agent.

use vstd::prelude::*;

verus! {

/// Overall fulfillment status of a dispatched pulse.
#[derive(Debug, Clone, Copy, PartialEq, Eq, Hash, Structural)]
pub enum Status {
    /// The intent was fully achieved.
    Success,
    /// The intent was partially achieved: some commands succeeded.
    PartialSuccess,
    /// The intent could not be achieved.
    Failure,
    /// The agent needs to re-route: the environment has changed.
    ReRoute,
    /// The agent is reflecting before retrying.
    ReThink,
}

impl Status {
    /// Did everything work?
    pub fn is_success(&self) -> (b: bool)
        ensures
            b == (*self is Success),
    {
        matches!(self, Status::Success)
    }

    /// Did the intent fail?
    pub fn is_failure(&self) -> (b: bool)
        ensures
            b == (*self is Failure),
    {
        matches!(self, Status::Failure)
    }

    /// Does the agent need re-routing?
    pub fn needs_reroute(&self) -> (b: bool)
        ensures
            b == (*self is ReRoute),
    {
        matches!(self, Status::ReRoute)
    }
}

/// No status is at once a success, a failure and a call for re-routing:
/// at most one of the three checks holds.
pub proof fn lemma_status_checks_exclusive(s: Status)
    ensures
        !((s is Success) && (s is Failure)),
        !((s is Success) && (s is ReRoute)),
        !((s is Failure) && (s is ReRoute)),
{
}

/// What the agent is in contact with.
#[derive(Debug, Clone, Copy, PartialEq, Eq, Hash, Structural)]
pub enum ContactState {
    /// No contact.
    NoContact,
    /// Light, compliant contact.
    Soft,
    /// Firm, resistant contact.
    Hard,
    /// Contact that is actively pushing back.
    Pushing,
}

} // verus!
