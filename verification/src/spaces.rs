//! Spaces: what is recorded of each, and the registry that creates and updates them.

pub mod registry;
pub mod space;
