//! A minimal project-local task runner.
//!
//! A project declares a list of named fabrics: either a direct command
//! (program plus arguments) or a composition, an ordered list of references
//! to other fabrics. The library validates the declared set, expands
//! requested names into a flat plan of direct fabrics, and tracks the
//! execution of that plan, halting at the first failure.

pub mod errors;
pub mod execution;
pub mod instruction;
pub mod fabric;
pub mod resolve;
