//! Why describing a module failed.
use vstd::prelude::*;

verus! {

/// Why describing a module failed.
#[derive(Clone, Copy, Debug, PartialEq, Eq, Structural)]
pub enum DescribeError {
    /// Bytecode could not be read as a module.
    Decode,
    /// An object, package or module is absent upstream.
    NotFound,
    /// A reply kept failing to have the requested shape.
    Parse,
    /// A security-level reply named no level.
    Classification,
    /// No description text could be had for an entity.
    DescriptionGeneration,
    /// The dependency graph turned out to have a cycle.
    CyclicDependency,
    /// Saving an aggregate failed; nothing of it was kept.
    Persistence,
    /// An event arrived that does not answer the pending action.
    UnexpectedEvent,
}

} // verus!
