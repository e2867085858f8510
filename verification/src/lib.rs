//! Pointer-cursor subsystem of a Wayland compositor: locating and decoding
//! Xcursor theme files (with theme-inheritance fallback), best-fit selection of
//! embedded sizes for each requested (scale, size) pair, cursor templates and
//! instances for rendering, and the timing of animated cursors.

pub mod client;
pub mod cursor;
pub mod ifs;
pub mod logind;
pub mod modified_keysym;
pub mod rect;
pub mod scale;
pub mod theme;
pub mod wire;
pub mod xcursor;
