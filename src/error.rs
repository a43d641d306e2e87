use vstd::prelude::*;

verus! {

/// A struct that the orderer could not place, with the names it references
/// that are neither pre-known nor placed.
#[derive(Debug, PartialEq, Eq)]
pub struct Unresolved {
    pub name: String,
    pub missing: Vec<String>,
}

/// The failures that abort a generation run.
#[derive(Debug, PartialEq, Eq)]
pub enum GenError {
    /// A field, parameter or return type outside the canonical model.
    UnsupportedType,
    /// Structs whose referenced types can never all be defined before them.
    UnresolvedDependency(Vec<Unresolved>),
}

} // verus!
