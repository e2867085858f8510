//! The wire events the modeled protocol objects emit. The library queues
//! these as plain values; serializing them onto the client socket is the
//! transport's business.

use vstd::prelude::*;

verus! {

/// One event queued for a client, tagged with the emitting object's id.
#[derive(Debug, Clone, PartialEq, Eq)]
pub enum WireEvent {
    /// The toplevel was closed.
    ForeignToplevelClosed { self_id: u64 },
    /// All toplevel properties were sent.
    ForeignToplevelDone { self_id: u64 },
    /// The toplevel's title changed.
    ForeignToplevelTitle { self_id: u64, title: String },
    /// The toplevel's application id changed.
    ForeignToplevelAppId { self_id: u64, app_id: String },
    /// The toplevel's stable identifier.
    ForeignToplevelIdentifier { self_id: u64, identifier: String },
    /// The toplevel's state bitfield: activated and fullscreen flags.
    ForeignToplevelState { self_id: u64, states: u32 },
    /// The state bits the compositor can report.
    ForeignToplevelCapabilities { self_id: u64, capabilities: u32 },
    /// The surface may apply its pending state under this serial.
    XdgSurfaceConfigure { self_id: u64, serial: u32 },
}

} // verus!
