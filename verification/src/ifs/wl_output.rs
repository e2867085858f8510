//! The identity of an output device, as derived from its EDID-like data.

use vstd::prelude::*;

use crate::client::ClientError;

verus! {

/// A stable identifier of an output: when the device reports no serial
/// number, the connector name stands in to tell otherwise identical monitors
/// apart.
#[derive(Debug)]
pub struct OutputId {
    pub connector: Option<String>,
    pub manufacturer: String,
    pub model: String,
    pub serial_number: String,
}

impl OutputId {
    /// Builds the identifier: the connector is kept only when the serial
    /// number is empty.
    pub fn new(connector: String, manufacturer: String, model: String, serial_number: String) -> (r:
        OutputId)
        ensures
            r.manufacturer@ == manufacturer@,
            r.model@ == model@,
            r.serial_number@ == serial_number@,
            serial_number@.len() == 0 ==> (r.connector matches Some(c) && c@ == connector@),
            serial_number@.len() > 0 ==> r.connector is None,
    {
        let empty = serial_number.as_str().is_empty();
        OutputId {
            connector: if empty {
                Some(connector)
            } else {
                None
            },
            manufacturer,
            model,
            serial_number,
        }
    }
}

/// Failures of the output binding's request handling.
#[derive(Copy, Clone, Debug, PartialEq, Eq, Structural)]
pub enum WlOutputError {
    ClientError(ClientError),
}

impl WlOutputError {
    /// A human-readable description of the error.
    pub fn message(&self) -> (r: &'static str)
        ensures
            r@.len() > 0,
    {
        match self {
            WlOutputError::ClientError(e) => e.message(),
        }
    }
}

} // verus!
