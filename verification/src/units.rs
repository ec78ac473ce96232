//! Built-in package managers.
pub mod package;
