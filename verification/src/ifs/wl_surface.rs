//! Surface extension interfaces.

pub mod xdg_surface;
