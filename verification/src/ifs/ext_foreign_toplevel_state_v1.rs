//! The global advertising extra toplevel state: binding it announces the
//! reportable state bits, and it creates the per-handle state objects.

use vstd::prelude::*;

use crate::client::Client;
use crate::client::ClientError;
use crate::client::Version;
use crate::ifs::ext_foreign_toplevel_handle_state_v1::spec_state_bits;
use crate::ifs::ext_foreign_toplevel_handle_state_v1::ExtForeignToplevelHandleStateV1;
use crate::ifs::ext_foreign_toplevel_handle_state_v1::STATE_ACTIVATED;
use crate::ifs::ext_foreign_toplevel_handle_state_v1::STATE_FULLSCREEN;
use crate::ifs::ext_foreign_toplevel_handle_v1::ExtForeignToplevelHandleV1;
use crate::ifs::ext_foreign_toplevel_handle_v1::ToplevelData;
use crate::wire::WireEvent;

verus! {

/// The client capability gating this global.
pub const CAP_FOREIGN_TOPLEVEL_STATE: u64 = 64;

/// The global under which clients bind the extra-toplevel-state interface.
pub struct ExtForeignToplevelStateV1Global {
    pub name: u64,
}

impl ExtForeignToplevelStateV1Global {
    /// A global under the given name.
    pub fn new(name: u64) -> (r: ExtForeignToplevelStateV1Global)
        ensures
            r.name == name,
    {
        ExtForeignToplevelStateV1Global { name }
    }

    /// Binds the global for a client: registers the new object and announces
    /// the reportable state bits.
    pub fn bind_(&self, id: u64, client: &mut Client, version: Version) -> (r: Result<
        ExtForeignToplevelStateV1,
        ExtForeignToplevelStateV1Error,
    >)
        ensures
            final (client).id == old(client).id,
            match r {
                Ok(obj) => {
                    &&& obj.id == id
                    &&& obj.client_id == old(client).id
                    &&& obj.version == version
                    &&& final (client).objects@ == old(client).objects@.push(id)
                    &&& final (client).events@ == old(client).events@.push(
                        WireEvent::ForeignToplevelCapabilities {
                            self_id: id,
                            capabilities: STATE_ACTIVATED | STATE_FULLSCREEN,
                        },
                    )
                },
                Err(e) => {
                    &&& e == ExtForeignToplevelStateV1Error::ClientError(
                        ClientError::ObjectAlreadyExists,
                    )
                    &&& final (client).objects == old(client).objects
                    &&& final (client).events == old(client).events
                },
            },
    {
        let obj = ExtForeignToplevelStateV1 { id, client_id: client.id, version };
        match client.add_client_obj(id) {
            Ok(()) => {},
            Err(e) => {
                return Err(ExtForeignToplevelStateV1Error::ClientError(e));
            },
        }
        client.event(
            WireEvent::ForeignToplevelCapabilities {
                self_id: id,
                capabilities: STATE_ACTIVATED | STATE_FULLSCREEN,
            },
        );
        Ok(obj)
    }

    /// Only one binding of the global exists per client.
    pub fn singleton(&self) -> (r: bool)
        ensures
            r,
    {
        true
    }

    /// The interface version the global offers.
    pub fn version(&self) -> (r: u32)
        ensures
            r == 1,
    {
        1
    }

    /// The capability a client needs to see the global.
    pub fn required_caps(&self) -> (r: u64)
        ensures
            r == CAP_FOREIGN_TOPLEVEL_STATE,
    {
        CAP_FOREIGN_TOPLEVEL_STATE
    }
}

/// A client's binding of the extra-toplevel-state interface.
pub struct ExtForeignToplevelStateV1 {
    pub id: u64,
    pub client_id: u64,
    pub version: Version,
}

impl ExtForeignToplevelStateV1 {
    /// Destroys the binding.
    pub fn destroy(&self, client: &mut Client) -> (r: Result<(), ExtForeignToplevelStateV1Error>)
        ensures
            final (client).id == old(client).id,
            final (client).events == old(client).events,
            match r {
                Ok(()) => exists|i: int|
                    {
                        &&& 0 <= i < old(client).objects@.len()
                        &&& old(client).objects@[i] == self.id
                        &&& final (client).objects@ == old(client).objects@.remove(i)
                    },
                Err(e) => {
                    &&& e == ExtForeignToplevelStateV1Error::ClientError(
                        ClientError::ObjectDoesNotExist,
                    )
                    &&& final (client).objects == old(client).objects
                },
            },
    {
        match client.remove_obj(self.id) {
            Ok(()) => Ok(()),
            Err(e) => Err(ExtForeignToplevelStateV1Error::ClientError(e)),
        }
    }

    /// Creates the state object for a handle: registers it, attaches it to
    /// the handle, and reports the toplevel's current state when the handle's
    /// toplevel still exists.
    pub fn get_handle_state(
        &self,
        client: &mut Client,
        handle: &mut ExtForeignToplevelHandleV1,
        tl_data: &ToplevelData,
        id: u64,
    ) -> (r: Result<ExtForeignToplevelHandleStateV1, ExtForeignToplevelStateV1Error>)
        ensures
            final (client).id == old(client).id,
            final (handle).id == old(handle).id,
            final (handle).client_id == old(handle).client_id,
            final (handle).version == old(handle).version,
            final (handle).has_toplevel == old(handle).has_toplevel,
            match r {
                Ok(st) => {
                    &&& st.id == id
                    &&& st.client_id == self.client_id
                    &&& st.version == self.version
                    &&& final (client).objects@ == old(client).objects@.push(id)
                    &&& final (handle).toplevel_state == Some(st)
                    &&& if old(handle).has_toplevel {
                        final (client).events@ == old(client).events@.push(
                            WireEvent::ForeignToplevelState {
                                self_id: id,
                                states: spec_state_bits(tl_data.active, tl_data.fullscreen),
                            },
                        )
                    } else {
                        final (client).events == old(client).events
                    }
                },
                Err(e) => {
                    &&& e == ExtForeignToplevelStateV1Error::ClientError(
                        ClientError::ObjectAlreadyExists,
                    )
                    &&& final (client).objects == old(client).objects
                    &&& final (client).events == old(client).events
                    &&& final (handle).toplevel_state == old(handle).toplevel_state
                },
            },
    {
        let st = ExtForeignToplevelHandleStateV1 {
            id,
            client_id: self.client_id,
            version: self.version,
        };
        match client.add_client_obj(id) {
            Ok(()) => {},
            Err(e) => {
                return Err(ExtForeignToplevelStateV1Error::ClientError(e));
            },
        }
        handle.toplevel_state = Some(st);
        if handle.has_toplevel {
            st.send_state(client, tl_data.active, tl_data.fullscreen);
        }
        Ok(st)
    }
}

/// Failures of the global's request handling.
#[derive(Copy, Clone, Debug, PartialEq, Eq, Structural)]
pub enum ExtForeignToplevelStateV1Error {
    ClientError(ClientError),
}

impl ExtForeignToplevelStateV1Error {
    /// A human-readable description of the error.
    pub fn message(&self) -> (r: &'static str)
        ensures
            r@.len() > 0,
    {
        match self {
            ExtForeignToplevelStateV1Error::ClientError(e) => e.message(),
        }
    }
}

} // verus!
