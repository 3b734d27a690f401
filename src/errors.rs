use vstd::prelude::*;

verus! {

/// The failures the chat server distinguishes.
pub enum ServerError {
    /// A transport failure, carrying the operating system's description.
    Io(String),
    /// The registry lock could not be taken.
    LockError(String),
    /// A passcode was empty, or a client answered with the wrong one.
    InvalidPasscode,
    /// The configuration breaks one of its invariants.
    InvalidConfig(String),
    /// Admission refused: the registry is full.
    MaxClientsReached,
    /// Any other failure while serving a single client.
    ClientError(String),
}

impl ServerError {
    /// True exactly for `InvalidPasscode`.
    pub fn is_invalid_passcode(&self) -> (r: bool)
        ensures
            r == (*self is InvalidPasscode),
    {
        matches!(self, ServerError::InvalidPasscode)
    }

    /// True exactly for `InvalidConfig`.
    pub fn is_invalid_config(&self) -> (r: bool)
        ensures
            r == (*self is InvalidConfig),
    {
        matches!(self, ServerError::InvalidConfig(_))
    }

    /// True exactly for `MaxClientsReached`.
    pub fn is_max_clients_reached(&self) -> (r: bool)
        ensures
            r == (*self is MaxClientsReached),
    {
        matches!(self, ServerError::MaxClientsReached)
    }
}

} // verus!
