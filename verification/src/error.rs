//! Error kind surfaced by registry mutations.

use vstd::prelude::*;

verus! {

/// Outcome of a failed registry mutation.
///
/// `Duplicate` carries the name that collided, `NotFound` the name that was
/// looked up, and `ClosedRegistry` reports a mutation attempted after the
/// registry was frozen.
#[derive(Debug, Clone, PartialEq, Eq)]
pub enum RegistryError {
    Duplicate(String),
    NotFound(String),
    ClosedRegistry,
}

impl RegistryError {
    /// Short descriptive text for the error kind.
    pub fn message(&self) -> (r: &'static str)
        ensures
            self is Duplicate ==> r@ == "duplicate name"@,
            self is NotFound ==> r@ == "not found"@,
            self is ClosedRegistry ==> r@ == "registry is closed"@,
    {
        match self {
            RegistryError::Duplicate(_) => "duplicate name",
            RegistryError::NotFound(_) => "not found",
            RegistryError::ClosedRegistry => "registry is closed",
        }
    }
}

} // verus!
