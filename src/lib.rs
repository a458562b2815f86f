//! Resolution of a crate name to a published version of a registry index.
pub mod error;
pub mod fuzzy;
pub mod laws;
pub mod query;
pub mod rust_version;
pub mod select;
pub mod version;
