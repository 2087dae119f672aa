//! The host side of a handle-and-buffer boundary between a sandboxed guest
//! and a cryptographic context: opaque handles, checked guest memory regions,
//! options bags, pull-based array outputs and key manager sessions, each
//! failure mapped to one closed error set.

use vstd::prelude::*;

pub mod error;
pub mod registry;
pub mod guest;
pub mod options;
pub mod array_output;
pub mod key_manager;
pub mod ctx;

verus! {

} // verus!
