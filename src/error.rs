use vstd::prelude::*;

verus! {

/// Failure kinds that the broker surfaces to callers of publish and
/// subscription-management operations.
#[derive(Debug, PartialEq, Eq, Structural)]
pub enum BrokerError {
    /// A routing address could not be read as a tag.
    InvalidAddress,
    /// A bearer or sender token was missing, badly signed or expired.
    Unauthorized,
    /// A required request field was missing or out of bounds.
    BadRequest,
    /// A collaborator or an encoder failed unexpectedly.
    InternalError,
}

impl Clone for BrokerError {
    fn clone(&self) -> (r: Self)
        ensures
            r == *self,
    {
        match self {
            BrokerError::InvalidAddress => BrokerError::InvalidAddress,
            BrokerError::Unauthorized => BrokerError::Unauthorized,
            BrokerError::BadRequest => BrokerError::BadRequest,
            BrokerError::InternalError => BrokerError::InternalError,
        }
    }
}

} // verus!
