//! Shadow memory for a stack-machine interpreter.
//!
//! Every byte of stack, memory and return data gets a tag that says how far
//! its value is fixed by the code alone. The tags form a small lattice
//! ([`Shadow`]); a [`ShadowMemory`] holds one tag per byte of the real
//! memory, and a [`ShadowReturnData`] keeps the tags of a finished call.

pub mod const_detector;
pub mod fake;
pub mod memory;
pub mod return_data;
pub mod shadow;
pub mod word;

pub use crate::memory::{is_valid_range, ShadowMemory};
pub use crate::return_data::ShadowReturnData;
pub use crate::shadow::Shadow;
