use vstd::prelude::*;

verus! {

/// Why an operation was refused. A refused operation changes nothing.
#[derive(Debug, Clone, Copy, PartialEq, Eq, Structural)]
pub enum ServiceError {
    /// The caller may not perform an owner-gated action.
    Authorization,
    /// The phase, match or proposal does not exist.
    NotFound,
    /// A phase name, a bet or a vote already exists.
    Duplicate,
    /// The operation is invalid in the current lifecycle state.
    State,
    /// The age check failed, or its reply was negative or undecodable.
    ExternalCall,
    /// There is nothing to withdraw or send.
    ZeroAmount,
}

} // verus!
