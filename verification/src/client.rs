//! A model of one client connection: the outgoing event queue the protocol
//! objects write into, and the registry of live object ids. The transport
//! that serializes queued events onto the socket lives outside the library.

use vstd::prelude::*;

use crate::wire::WireEvent;

verus! {

/// Failures of per-client object bookkeeping.
#[derive(Copy, Clone, Debug, PartialEq, Eq, Structural)]
pub enum ClientError {
    /// The object id is already in use.
    ObjectAlreadyExists,
    /// The object id does not name a live object.
    ObjectDoesNotExist,
}

impl ClientError {
    /// A human-readable description of the error.
    pub fn message(&self) -> (r: &'static str)
        ensures
            r@.len() > 0,
    {
        let s: &'static str = match self {
            ClientError::ObjectAlreadyExists => "the object id is already in use",
            ClientError::ObjectDoesNotExist => "the object id does not exist",
        };
        proof {
            reveal_strlit("the object id is already in use");
            reveal_strlit("the object id does not exist");
        }
        s
    }
}

/// The protocol version an object was bound at.
#[derive(Copy, Clone, Debug, PartialEq, Eq, Structural)]
pub struct Version(pub u32);

/// One client connection: its id, the events queued for it, and its live
/// object ids.
pub struct Client {
    pub id: u64,
    pub events: Vec<WireEvent>,
    pub objects: Vec<u64>,
}

/// Whether an id is registered.
pub open spec fn has_obj(objects: Seq<u64>, id: u64) -> bool {
    objects.contains(id)
}

impl Client {
    /// A fresh connection with no queued events and no objects.
    pub fn new(id: u64) -> (r: Client)
        ensures
            r.id == id,
            r.events@.len() == 0,
            r.objects@.len() == 0,
    {
        Client { id, events: Vec::new(), objects: Vec::new() }
    }

    /// Queues one event for the client.
    pub fn event(&mut self, ev: WireEvent)
        ensures
            final (self).id == old(self).id,
            final (self).objects == old(self).objects,
            final (self).events@ == old(self).events@.push(ev),
    {
        self.events.push(ev);
    }

    /// Registers a new object id; fails when the id is already in use.
    pub fn add_client_obj(&mut self, obj_id: u64) -> (r: Result<(), ClientError>)
        ensures
            final (self).id == old(self).id,
            final (self).events == old(self).events,
            match r {
                Ok(()) => {
                    &&& !has_obj(old(self).objects@, obj_id)
                    &&& final (self).objects@ == old(self).objects@.push(obj_id)
                },
                Err(e) => {
                    &&& e == ClientError::ObjectAlreadyExists
                    &&& has_obj(old(self).objects@, obj_id)
                    &&& final (self).objects == old(self).objects
                },
            },
    {
        let mut i: usize = 0;
        while i < self.objects.len()
            invariant
                i <= self.objects@.len(),
                *self == *old(self),
                forall|j: int| 0 <= j < i ==> old(self).objects@[j] != obj_id,
            decreases self.objects@.len() - i,
        {
            if self.objects[i] == obj_id {
                return Err(ClientError::ObjectAlreadyExists);
            }
            i = i + 1;
        }
        self.objects.push(obj_id);
        Ok(())
    }

    /// Removes a live object id; fails when the id is not registered.
    pub fn remove_obj(&mut self, obj_id: u64) -> (r: Result<(), ClientError>)
        ensures
            final (self).id == old(self).id,
            final (self).events == old(self).events,
            match r {
                Ok(()) => exists|i: int|
                    {
                        &&& 0 <= i < old(self).objects@.len()
                        &&& old(self).objects@[i] == obj_id
                        &&& final (self).objects@ == old(self).objects@.remove(i)
                    },
                Err(e) => {
                    &&& e == ClientError::ObjectDoesNotExist
                    &&& !has_obj(old(self).objects@, obj_id)
                    &&& final (self).objects == old(self).objects
                },
            },
    {
        let mut i: usize = 0;
        while i < self.objects.len()
            invariant
                i <= self.objects@.len(),
                *self == *old(self),
                forall|j: int| 0 <= j < i ==> old(self).objects@[j] != obj_id,
            decreases self.objects@.len() - i,
        {
            if self.objects[i] == obj_id {
                self.objects.remove(i);
                return Ok(());
            }
            i = i + 1;
        }
        Err(ClientError::ObjectDoesNotExist)
    }
}

} // verus!
