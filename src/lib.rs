//! Mirrors a set of watched directories into one destination tree and
//! records that tree in version control whenever its content changes.
//!
//! The library holds the decisions of that pipeline; the program around it
//! performs the file, repository and supervisor operations they call for.
pub mod cli;
pub mod config;
pub mod events;
pub mod mirror;
pub mod paths;
pub mod snapshot;
pub mod watchdog;
