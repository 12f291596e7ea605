//! Addon ecosystem: manifest description and structural validation, parameter
//! declarations and value checks, engine ↔ addon API compatibility, package
//! entry names, pipeline entries and the addon registry.

pub mod compat;
pub mod error;
pub mod keys;
pub mod manifest;
pub mod package;
pub mod pipeline;
pub mod registry;
pub mod schema;

pub use error::AddonError;
