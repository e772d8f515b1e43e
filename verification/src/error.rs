use vstd::prelude::*;

verus! {

/// What can go wrong while one instance is worked on. A failure concerns that
/// instance in the current cycle; it never ends the process.
#[derive(Debug, Clone, Copy, PartialEq, Eq)]
pub enum SyncError {
    /// The instance did not accept the credential: its answer held no session
    /// id.
    Authentication,
    /// The request failed on the way, or the instance answered with an error
    /// status.
    Transport,
    /// The instance did not answer again within the time allowed.
    ReadinessTimeout,
    /// A value could not be serialized, so that it could not be hashed.
    Serialization,
}

impl SyncError {
    /// Whether trying again later can help: not with a refused credential.
    pub fn is_retryable(&self) -> (r: bool)
        ensures
            r == !(*self is Authentication),
    {
        match self {
            SyncError::Authentication => false,
            _ => true,
        }
    }

    /// A short description of the failure.
    pub fn describe(&self) -> (text: &'static str)
        ensures
            text@ == match *self {
                SyncError::Authentication => "authentication failed: no session id received"@,
                SyncError::Transport => "request failed"@,
                SyncError::ReadinessTimeout => "instance not ready in time"@,
                SyncError::Serialization => "value could not be serialized"@,
            },
    {
        match self {
            SyncError::Authentication => "authentication failed: no session id received",
            SyncError::Transport => "request failed",
            SyncError::ReadinessTimeout => "instance not ready in time",
            SyncError::Serialization => "value could not be serialized",
        }
    }
}

} // verus!
