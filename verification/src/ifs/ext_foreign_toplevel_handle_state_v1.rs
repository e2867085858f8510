//! The per-handle state object: it reports a toplevel's activated and
//! fullscreen flags as a bitfield event.

use vstd::prelude::*;

use crate::client::Client;
use crate::client::ClientError;
use crate::client::Version;
use crate::wire::WireEvent;

verus! {

/// The state bit reporting an activated toplevel.
pub const STATE_ACTIVATED: u32 = 4;

/// The state bit reporting a fullscreen toplevel.
pub const STATE_FULLSCREEN: u32 = 8;

/// A state object attached to one foreign-toplevel handle.
#[derive(Copy, Clone, Debug, PartialEq, Eq, Structural)]
pub struct ExtForeignToplevelHandleStateV1 {
    pub id: u64,
    pub client_id: u64,
    pub version: Version,
}

/// The bitfield a state event carries.
pub open spec fn spec_state_bits(active: bool, fullscreen: bool) -> u32 {
    (if active {
        STATE_ACTIVATED
    } else {
        0
    }) | (if fullscreen {
        STATE_FULLSCREEN
    } else {
        0
    })
}

impl ExtForeignToplevelHandleStateV1 {
    /// Queues the state event: the activated and fullscreen flags as one
    /// bitfield.
    pub fn send_state(&self, client: &mut Client, active: bool, fullscreen: bool)
        ensures
            final (client).id == old(client).id,
            final (client).objects == old(client).objects,
            final (client).events@ == old(client).events@.push(
                WireEvent::ForeignToplevelState {
                    self_id: self.id,
                    states: spec_state_bits(active, fullscreen),
                },
            ),
    {
        let states = (if active {
            STATE_ACTIVATED
        } else {
            0
        }) | (if fullscreen {
            STATE_FULLSCREEN
        } else {
            0
        });
        client.event(WireEvent::ForeignToplevelState { self_id: self.id, states });
    }

    /// Destroys the object: it is removed from the client's registry.
    pub fn destroy(&self, client: &mut Client) -> (r: Result<(), ExtForeignToplevelHandleStateV1Error>)
        ensures
            final (client).id == old(client).id,
            final (client).events == old(client).events,
            match r {
                Ok(()) => exists|i: int|
                    {
                        &&& 0 <= i < old(client).objects@.len()
                        &&& old(client).objects@[i] == self.id
                        &&& final (client).objects@ == old(client).objects@.remove(i)
                    },
                Err(e) => {
                    &&& e == ExtForeignToplevelHandleStateV1Error::ClientError(
                        ClientError::ObjectDoesNotExist,
                    )
                    &&& !crate::client::has_obj(old(client).objects@, self.id)
                    &&& final (client).objects == old(client).objects
                },
            },
    {
        match client.remove_obj(self.id) {
            Ok(()) => Ok(()),
            Err(e) => Err(ExtForeignToplevelHandleStateV1Error::ClientError(e)),
        }
    }
}

/// Failures of the state object's request handling.
#[derive(Copy, Clone, Debug, PartialEq, Eq, Structural)]
pub enum ExtForeignToplevelHandleStateV1Error {
    ClientError(ClientError),
}

impl ExtForeignToplevelHandleStateV1Error {
    /// A human-readable description of the error.
    pub fn message(&self) -> (r: &'static str)
        ensures
            r@.len() > 0,
    {
        match self {
            ExtForeignToplevelHandleStateV1Error::ClientError(e) => e.message(),
        }
    }
}

} // verus!
