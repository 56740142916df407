//! The failures of an extraction.

use vstd::prelude::*;

verus! {

/// Why an extraction was abandoned. The first failure is final: nothing is
/// gathered past it.
#[derive(Copy, Clone, Debug, PartialEq, Eq, Hash, Structural)]
pub enum ExtractError {
    /// A node lacked a name, a type or a list that was expected of it.
    MissingNode,
    /// A type has no place among the type tags.
    UnsupportedType,
    /// A declaration that had to be a struct or a union was neither.
    UnsupportedKind,
    /// A typedef of the header does not carry the domain prefix.
    UnknownTypedef,
    /// A method's declaration names more parameters than its type has
    /// arguments.
    StructuralMismatch,
}

impl ExtractError {
    /// A short description for diagnostics.
    pub fn message(&self) -> (text: String)
        ensures
            text@ == self.spec_message(),
    {
        match self {
            ExtractError::MissingNode => String::from_str("a syntax node lacks a name, a type or a member list"),
            ExtractError::UnsupportedType => String::from_str("unsupported type"),
            ExtractError::UnsupportedKind => String::from_str("declaration is neither a struct nor a union"),
            ExtractError::UnknownTypedef => String::from_str("unknown typedef"),
            ExtractError::StructuralMismatch => String::from_str("more parameter declarations than arguments"),
        }
    }

    /// The text that [`ExtractError::message`] returns.
    pub open spec fn spec_message(&self) -> Seq<char> {
        match self {
            ExtractError::MissingNode => "a syntax node lacks a name, a type or a member list"@,
            ExtractError::UnsupportedType => "unsupported type"@,
            ExtractError::UnsupportedKind => "declaration is neither a struct nor a union"@,
            ExtractError::UnknownTypedef => "unknown typedef"@,
            ExtractError::StructuralMismatch => "more parameter declarations than arguments"@,
        }
    }
}

} // verus!
