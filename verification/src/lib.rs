//! A verified option-list serialization and command-configuration engine
//! for DEM (digital elevation model) processing operations.
//!
//! Callers populate a per-operation configuration type (slope, terrain
//! ruggedness index), compile it into an ordered argument list, and hand the
//! rendered list to an external processing routine. Everything here is a
//! pure value transformation: tokenization, rendering, validation, and
//! version-gated encoding of configuration fields.

pub mod arglist;
pub mod common;
pub mod decimal;
pub mod errors;
pub mod features;
pub mod slope;
pub mod tri;
