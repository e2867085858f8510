//! A client's handle to a foreign toplevel: it relays the toplevel's title,
//! application id, identifier, state and lifecycle as events.

use vstd::prelude::*;

use crate::client::Client;
use crate::client::ClientError;
use crate::client::Version;
use crate::ifs::ext_foreign_toplevel_handle_state_v1::spec_state_bits;
use crate::ifs::ext_foreign_toplevel_handle_state_v1::ExtForeignToplevelHandleStateV1;
use crate::ifs::ext_foreign_toplevel_handle_state_v1::STATE_ACTIVATED;
use crate::ifs::ext_foreign_toplevel_handle_state_v1::STATE_FULLSCREEN;
use crate::wire::WireEvent;

verus! {

/// The toplevel-side bookkeeping a handle points at: the handles attached to
/// the toplevel, keyed by (client id, handle id), and the state its handles
/// report.
pub struct ToplevelData {
    pub handles: Vec<(u64, u64)>,
    pub active: bool,
    pub fullscreen: bool,
}

/// A handle object: its ids, whether its toplevel still exists, and the state
/// object attached to it, if any.
pub struct ExtForeignToplevelHandleV1 {
    pub id: u64,
    pub client_id: u64,
    pub version: Version,
    pub has_toplevel: bool,
    pub toplevel_state: Option<ExtForeignToplevelHandleStateV1>,
}

impl ExtForeignToplevelHandleV1 {
    /// Unregisters the handle from its toplevel's handle table, when the
    /// toplevel still exists.
    pub fn detach(&self, tl_data: &mut ToplevelData)
        ensures
            final (tl_data).active == old(tl_data).active,
            final (tl_data).fullscreen == old(tl_data).fullscreen,
            self.has_toplevel ==> final (tl_data).handles@ == old(tl_data).handles@.filter(
                |p: (u64, u64)| !(p.0 == self.client_id && p.1 == self.id),
            ),
            !self.has_toplevel ==> final (tl_data).handles == old(tl_data).handles,
    {
        if !self.has_toplevel {
            return ;
        }
        let mut kept: Vec<(u64, u64)> = Vec::new();
        let mut i: usize = 0;
        let ghost pred = |p: (u64, u64)| !(p.0 == self.client_id && p.1 == self.id);
        while i < tl_data.handles.len()
            invariant
                i <= tl_data.handles@.len(),
                pred == (|p: (u64, u64)| !(p.0 == self.client_id && p.1 == self.id)),
                kept@ == tl_data.handles@.take(i as int).filter(pred),
            decreases tl_data.handles@.len() - i,
        {
            proof {
                reveal(Seq::filter);
                assert(tl_data.handles@.take(i + 1).drop_last() =~= tl_data.handles@.take(
                    i as int,
                ));
                assert(tl_data.handles@.take(i + 1).last() == tl_data.handles@[i as int]);
            }
            let p = tl_data.handles[i];
            if !(p.0 == self.client_id && p.1 == self.id) {
                kept.push(p);
            }
            i = i + 1;
        }
        proof {
            assert(tl_data.handles@.take(tl_data.handles@.len() as int) =~= tl_data.handles@);
        }
        tl_data.handles = kept;
    }

    /// Destroys the handle: it detaches from its toplevel and leaves the
    /// client's registry.
    pub fn destroy(&self, client: &mut Client, tl_data: &mut ToplevelData) -> (r: Result<
        (),
        ExtForeignToplevelHandleV1Error,
    >)
        ensures
            final (client).id == old(client).id,
            final (client).events == old(client).events,
            self.has_toplevel ==> final (tl_data).handles@ == old(tl_data).handles@.filter(
                |p: (u64, u64)| !(p.0 == self.client_id && p.1 == self.id),
            ),
            !self.has_toplevel ==> final (tl_data).handles == old(tl_data).handles,
            match r {
                Ok(()) => exists|i: int|
                    {
                        &&& 0 <= i < old(client).objects@.len()
                        &&& old(client).objects@[i] == self.id
                        &&& final (client).objects@ == old(client).objects@.remove(i)
                    },
                Err(e) => {
                    &&& e == ExtForeignToplevelHandleV1Error::ClientError(
                        ClientError::ObjectDoesNotExist,
                    )
                    &&& final (client).objects == old(client).objects
                },
            },
    {
        self.detach(tl_data);
        match client.remove_obj(self.id) {
            Ok(()) => Ok(()),
            Err(e) => Err(ExtForeignToplevelHandleV1Error::ClientError(e)),
        }
    }

    /// Queues the closed event.
    pub fn send_closed(&self, client: &mut Client)
        ensures
            final (client).id == old(client).id,
            final (client).objects == old(client).objects,
            final (client).events@ == old(client).events@.push(
                WireEvent::ForeignToplevelClosed { self_id: self.id },
            ),
    {
        client.event(WireEvent::ForeignToplevelClosed { self_id: self.id });
    }

    /// Queues the done event.
    pub fn send_done(&self, client: &mut Client)
        ensures
            final (client).id == old(client).id,
            final (client).objects == old(client).objects,
            final (client).events@ == old(client).events@.push(
                WireEvent::ForeignToplevelDone { self_id: self.id },
            ),
    {
        client.event(WireEvent::ForeignToplevelDone { self_id: self.id });
    }

    /// Queues the title event.
    pub fn send_title(&self, client: &mut Client, title: &str)
        ensures
            final (client).id == old(client).id,
            final (client).objects == old(client).objects,
            final (client).events@.len() == old(client).events@.len() + 1,
            final (client).events@.last() matches WireEvent::ForeignToplevelTitle {
                self_id,
                title: t,
            } && self_id == self.id && t@ == title@,
            final (client).events@.subrange(0, old(client).events@.len() as int) == old(
                client,
            ).events@,
    {
        let owned = title.to_owned();
        client.event(WireEvent::ForeignToplevelTitle { self_id: self.id, title: owned });
        proof {
            assert(final (client).events@.subrange(0, old(client).events@.len() as int) =~= old(
                client,
            ).events@);
        }
    }

    /// Queues the application id event.
    pub fn send_app_id(&self, client: &mut Client, app_id: &str)
        ensures
            final (client).id == old(client).id,
            final (client).objects == old(client).objects,
            final (client).events@.len() == old(client).events@.len() + 1,
            final (client).events@.last() matches WireEvent::ForeignToplevelAppId {
                self_id,
                app_id: a,
            } && self_id == self.id && a@ == app_id@,
            final (client).events@.subrange(0, old(client).events@.len() as int) == old(
                client,
            ).events@,
    {
        let owned = app_id.to_owned();
        client.event(WireEvent::ForeignToplevelAppId { self_id: self.id, app_id: owned });
        proof {
            assert(final (client).events@.subrange(0, old(client).events@.len() as int) =~= old(
                client,
            ).events@);
        }
    }

    /// Queues the identifier event.
    pub fn send_identifier(&self, client: &mut Client, identifier: &str)
        ensures
            final (client).id == old(client).id,
            final (client).objects == old(client).objects,
            final (client).events@.len() == old(client).events@.len() + 1,
            final (client).events@.last() matches WireEvent::ForeignToplevelIdentifier {
                self_id,
                identifier: n,
            } && self_id == self.id && n@ == identifier@,
            final (client).events@.subrange(0, old(client).events@.len() as int) == old(
                client,
            ).events@,
    {
        let owned = identifier.to_owned();
        client.event(WireEvent::ForeignToplevelIdentifier { self_id: self.id, identifier: owned });
        proof {
            assert(final (client).events@.subrange(0, old(client).events@.len() as int) =~= old(
                client,
            ).events@);
        }
    }

    /// Queues the state bitfield through the attached state object, or does
    /// nothing when no state object was created.
    pub fn send_state(&self, client: &mut Client, active: bool, fullscreen: bool)
        ensures
            final (client).id == old(client).id,
            final (client).objects == old(client).objects,
            match self.toplevel_state {
                Some(st) => final (client).events@ == old(client).events@.push(
                    WireEvent::ForeignToplevelState {
                        self_id: st.id,
                        states: spec_state_bits(active, fullscreen),
                    },
                ),
                None => final (client).events == old(client).events,
            },
    {
        match &self.toplevel_state {
            Some(st) => st.send_state(client, active, fullscreen),
            None => {},
        }
    }

    /// Detaches the handle when the connection is torn down.
    pub fn break_loops(&self, tl_data: &mut ToplevelData)
        ensures
            self.has_toplevel ==> final (tl_data).handles@ == old(tl_data).handles@.filter(
                |p: (u64, u64)| !(p.0 == self.client_id && p.1 == self.id),
            ),
            !self.has_toplevel ==> final (tl_data).handles == old(tl_data).handles,
    {
        self.detach(tl_data);
    }
}

/// Failures of the handle's request handling.
#[derive(Copy, Clone, Debug, PartialEq, Eq, Structural)]
pub enum ExtForeignToplevelHandleV1Error {
    ClientError(ClientError),
}

impl ExtForeignToplevelHandleV1Error {
    /// A human-readable description of the error.
    pub fn message(&self) -> (r: &'static str)
        ensures
            r@.len() > 0,
    {
        match self {
            ExtForeignToplevelHandleV1Error::ClientError(e) => e.message(),
        }
    }
}

} // verus!
