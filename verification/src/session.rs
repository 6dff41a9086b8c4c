//! Session roles.

use vstd::prelude::*;

verus! {

/// Role of a participant in a collaboration session.
#[derive(Debug, Clone, Copy, PartialEq, Eq, Structural)]
pub enum SessionRole {
    /// Can observe and annotate; cannot issue commands.
    Observer,
    /// Can annotate and issue non-destructive commands.
    Analyst,
    /// Full control, including analyst-gated validation approvals.
    Lead,
}

impl SessionRole {
    /// Whether this role may approve or reject validation candidates.
    pub open spec fn spec_may_decide(self) -> bool {
        self != SessionRole::Observer
    }

    /// Whether this role may approve or reject validation candidates.
    pub fn may_decide(&self) -> (r: bool)
        ensures
            r == self.spec_may_decide(),
    {
        match self {
            SessionRole::Observer => false,
            SessionRole::Analyst => true,
            SessionRole::Lead => true,
        }
    }
}

} // verus!
