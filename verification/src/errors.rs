//! The closed set of failures that loading, resolving, or executing
//! fabrics can surface. Every error is fatal to the run: callers report
//! it and stop, nothing is retried.

use vstd::prelude::*;

verus! {

/// One error kind per way a run can fail, from the missing project file
/// up to a child process that exits non-zero.
#[derive(Debug, Clone, Copy, PartialEq, Eq, Structural)]
pub enum FabricError {
    /// The sentinel `.fabric` file is absent: not a fabric project.
    NoFabricProject,
    /// The `.fabric` file exists but opening or reading it failed.
    NoAccessToFile,
    /// The document could not be decoded, or a fabric has neither a
    /// valid direct nor a valid composed shape.
    InvalidFabric,
    /// Two fabrics in the document carry the same name.
    DuplicateFabric,
    /// A composition references a fabric name that does not exist.
    InvalidSubFabric,
    /// A composition reaches back to a fabric already being expanded.
    CyclicFabric,
    /// A requested top-level name has no matching fabric.
    UnknownFabric,
    /// A command failed to spawn or exited non-zero.
    ExecutionError,
}

impl FabricError {
    /// The fixed message text for each error kind.
    pub open spec fn message(self) -> Seq<char> {
        match self {
            FabricError::NoFabricProject => "Current directory is not a fabric project"@,
            FabricError::NoAccessToFile => ".fabric file exists but cannot be read."@,
            FabricError::InvalidFabric => ".fabric file cannot be parsed. JSON not in expected structure."@,
            FabricError::DuplicateFabric => "Two fabrics in .fabric share the same name"@,
            FabricError::InvalidSubFabric => "One or more of the subfabrics in .fabric doesnt exist"@,
            FabricError::CyclicFabric => "One of the subfabric compositions in .fabric refers back to itself"@,
            FabricError::UnknownFabric => "One of the requested fabrics doesnt exist in .fabric"@,
            FabricError::ExecutionError => "Command failed to execute"@,
        }
    }

    /// Maps the error kind to its basic error message.
    pub fn value(&self) -> (r: &'static str)
        ensures
            r@ == self.message(),
    {
        match *self {
            FabricError::NoFabricProject => "Current directory is not a fabric project",
            FabricError::NoAccessToFile => ".fabric file exists but cannot be read.",
            FabricError::InvalidFabric => ".fabric file cannot be parsed. JSON not in expected structure.",
            FabricError::DuplicateFabric => "Two fabrics in .fabric share the same name",
            FabricError::InvalidSubFabric => "One or more of the subfabrics in .fabric doesnt exist",
            FabricError::CyclicFabric => "One of the subfabric compositions in .fabric refers back to itself",
            FabricError::UnknownFabric => "One of the requested fabrics doesnt exist in .fabric",
            FabricError::ExecutionError => "Command failed to execute",
        }
    }
}

} // verus!
