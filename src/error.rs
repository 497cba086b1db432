//! The errors that the engine reports to its callers.
use vstd::prelude::*;

verus! {

/// Why an operation of the engine or of the key store did not go through.
#[derive(Clone, Copy, Debug, PartialEq, Eq, Structural)]
pub enum ModelError {
    /// No live one-time key has this text.
    InvalidKey,
    /// The one-time key was issued too long ago.
    KeyExpired,
    /// The key was valid but its session has been removed since.
    SessionExpired,
    /// No session has this secret.
    InvalidSession,
    /// A submitted value is refused by its item's rule.
    BadValue,
    /// The session to poll or to remove does not exist.
    NotFound,
    /// A newer poll on the same session took the place of this one.
    Superseded,
    /// The poll asked about a revision that the session has not reached.
    FutureRevision,
    /// Every freshly drawn key or secret collided with a live one.
    Exhausted,
}

impl ModelError {
    /// A short code for the error, as shown to users.
    pub fn as_str(&self) -> (r: &'static str)
        ensures
            r@ == match self {
                ModelError::InvalidKey => "invalid-key"@,
                ModelError::KeyExpired => "key-expired"@,
                ModelError::SessionExpired => "session-expired"@,
                ModelError::InvalidSession => "invalid-session"@,
                ModelError::BadValue => "bad value"@,
                ModelError::NotFound => "session does not exists"@,
                ModelError::Superseded => "superseded"@,
                ModelError::FutureRevision => "revision is ahead of the session"@,
                ModelError::Exhausted => "failed to generate a unique key"@,
            },
    {
        match self {
            ModelError::InvalidKey => "invalid-key",
            ModelError::KeyExpired => "key-expired",
            ModelError::SessionExpired => "session-expired",
            ModelError::InvalidSession => "invalid-session",
            ModelError::BadValue => "bad value",
            ModelError::NotFound => "session does not exists",
            ModelError::Superseded => "superseded",
            ModelError::FutureRevision => "revision is ahead of the session",
            ModelError::Exhausted => "failed to generate a unique key",
        }
    }
}

} // verus!
