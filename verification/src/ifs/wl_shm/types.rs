//! Failures of the shared-memory interface's request handling.

use vstd::prelude::*;

use crate::client::ClientError;

verus! {

/// Failures while handling `wl_shm` requests.
#[derive(Copy, Clone, Debug, PartialEq, Eq, Structural)]
pub enum WlShmError {
    ClientError(ClientError),
    /// A `create_pool` request could not be processed.
    CreatePoolError(CreatePoolError),
}

impl WlShmError {
    /// A human-readable description of the error.
    pub fn message(&self) -> (r: &'static str)
        ensures
            r@.len() > 0,
    {
        match self {
            WlShmError::ClientError(e) => e.message(),
            WlShmError::CreatePoolError(e) => e.message(),
        }
    }
}

/// Failures while processing a `create_pool` request.
#[derive(Copy, Clone, Debug, PartialEq, Eq, Structural)]
pub enum CreatePoolError {
    /// The request's arguments could not be parsed.
    ParseError,
    /// The passed size is negative.
    NegativeSize,
    /// Creating the pool object failed.
    WlShmPoolError,
    ClientError(ClientError),
}

impl CreatePoolError {
    /// A human-readable description of the error.
    pub fn message(&self) -> (r: &'static str)
        ensures
            r@.len() > 0,
    {
        let s: &'static str = match self {
            CreatePoolError::ParseError => "parsing failed",
            CreatePoolError::NegativeSize => "the passed size is negative",
            CreatePoolError::WlShmPoolError => "could not create the pool",
            CreatePoolError::ClientError(e) => {
                return e.message();
            },
        };
        proof {
            reveal_strlit("parsing failed");
            reveal_strlit("the passed size is negative");
            reveal_strlit("could not create the pool");
        }
        s
    }
}

} // verus!
