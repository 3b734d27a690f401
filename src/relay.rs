use vstd::prelude::*;
use crate::wire::{received, received_text};

verus! {

/// What one bounded read from a connected peer gave.
pub enum ReadOutcome {
    /// The bytes read; none at all means the peer closed its stream.
    Bytes(Vec<u8>),
    /// The read failed.
    Failed,
}

/// What the worker of one connection learns next.
pub enum RelayEvent {
    /// A read finished.
    Read(ReadOutcome),
    /// The broadcast of the last message was carried out.
    Delivered,
}

/// Where the worker of one connection stands.
pub enum RelayState {
    /// Waiting on the next read.
    Reading,
    /// A message has arrived and must go to the other peers.
    Broadcasting(String),
    /// The peer is gone: its entry leaves the registry and the worker ends.
    Terminated,
}

impl RelayState {
    /// The state that follows `event`. From `Reading`, a read of no bytes or a
    /// failed read ends the worker, and a read of some bytes yields the text
    /// they carry to broadcast. From `Broadcasting`, the delivery leads back to
    /// `Reading`, whatever came of the single writes. `Terminated` is final; an
    /// event that does not fit the state leaves it as it is.
    pub fn next(&self, event: &RelayEvent) -> (r: RelayState)
        ensures
            *self is Reading ==> (event matches RelayEvent::Read(ReadOutcome::Bytes(b)) ==> if b@.len()
                == 0 {
                r is Terminated
            } else {
                r matches RelayState::Broadcasting(t) && t@ == received(b@)
            }),
            *self is Reading ==> (event matches RelayEvent::Read(ReadOutcome::Failed) ==> r is Terminated),
            (*self is Reading && *event is Delivered) ==> r is Reading,
            (*self is Broadcasting && *event is Delivered) ==> r is Reading,
            (*self is Broadcasting && *event is Read) ==> r == *self,
            *self is Terminated ==> r is Terminated,
    {
        match self {
            RelayState::Reading => match event {
                RelayEvent::Read(ReadOutcome::Bytes(b)) => {
                    if b.len() == 0 {
                        RelayState::Terminated
                    } else {
                        RelayState::Broadcasting(received_text(b.as_slice()))
                    }
                },
                RelayEvent::Read(ReadOutcome::Failed) => RelayState::Terminated,
                RelayEvent::Delivered => RelayState::Reading,
            },
            RelayState::Broadcasting(t) => match event {
                RelayEvent::Delivered => RelayState::Reading,
                RelayEvent::Read(_) => RelayState::Broadcasting(t.clone()),
            },
            RelayState::Terminated => RelayState::Terminated,
        }
    }

    /// Whether the worker has ended.
    pub fn is_terminated(&self) -> (r: bool)
        ensures
            r == (*self is Terminated),
    {
        matches!(self, RelayState::Terminated)
    }
}

} // verus!
