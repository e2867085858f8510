//! Models of the protocol interfaces: their objects hold plain ids and
//! versions, and their request and event handlers work against the client
//! model's event queue and object registry.

pub mod ext_foreign_toplevel_handle_state_v1;
pub mod ext_foreign_toplevel_handle_v1;
pub mod ext_foreign_toplevel_state_v1;
pub mod wl_output;
pub mod wl_shm;
pub mod wl_surface;
