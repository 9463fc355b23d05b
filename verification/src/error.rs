//! The error taxonomy of the compiler.
//!
//! Every stage is all-or-nothing: the first failure aborts the whole
//! translation and surfaces as one of these variants.
use vstd::prelude::*;

verus! {

/// A fatal translation failure.
#[derive(Debug, Clone, Copy, PartialEq, Eq, Structural)]
pub enum CompileError {
    /// The input document does not match the source grammar.
    MalformedInput,
    /// A function or global was referenced with no binding.
    UnknownIdentifier,
    /// The same function name was declared twice.
    DuplicateDeclaration,
    /// An unrecognized bare-string statement, or a construct that the
    /// embedded math-library splice does not allow.
    UnsupportedConstruct,
    /// An internal invariant of the pipeline was broken, or a requested
    /// lowering has no implementation (such as the modulo operator),
    /// or an index space was exhausted.
    InternalInvariantViolation,
}

impl CompileError {
    /// A short diagnostic text for the failure.
    pub fn describe(&self) -> (r: String)
        ensures
            r@.len() > 0,
    {
        let s: &str = match self {
            CompileError::MalformedInput => "malformed input document",
            CompileError::UnknownIdentifier => "unknown function or global identifier",
            CompileError::DuplicateDeclaration => "duplicate function declaration",
            CompileError::UnsupportedConstruct => "unsupported construct",
            CompileError::InternalInvariantViolation => "internal invariant violation",
        };
        proof {
            reveal_strlit("malformed input document");
            reveal_strlit("unknown function or global identifier");
            reveal_strlit("duplicate function declaration");
            reveal_strlit("unsupported construct");
            reveal_strlit("internal invariant violation");
        }
        s.to_owned()
    }
}

} // verus!
