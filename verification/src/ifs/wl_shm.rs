//! The shared-memory buffer interface.

pub mod types;
