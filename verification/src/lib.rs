//! Dotfile and package build resolution: variable substitution, conditional
//! build specifications and the command lines that carry them out.
//!
//! The program around the library reads the build file and runs what the
//! library plans: every command line, pipe and file operation is computed
//! here and carried out by the caller, which hands back what came of it.

// Shared text helpers.
pub mod text;
// Resolution state and `${{ key }}` substitution.
pub mod context;
// Build specifications and their resolution into build units.
pub mod specs;
// Build files and command line arguments.
pub mod config;
pub mod args;
// Locale and command conditions, and `namespace.variable` build files.
pub mod condition;
pub mod yaml;
pub mod link;
// Shells, pipes and built-in package managers.
pub mod shell;
pub mod units;
pub mod pack;
pub mod error;
