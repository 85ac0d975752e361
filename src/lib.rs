//! Status codes turned into results, the two-phase information query and the typed
//! decoding of query results for an OpenCL binding.
//!
//! The native entry points themselves are called by the binding layer around
//! this crate; everything that decides what to do with their answers lives here.

pub mod status;
pub mod info_type;
pub mod decode;
pub mod query;
pub mod platform;
pub mod command_queue;
