//! The build-time error taxonomy. Every error is fatal: the whole template
//! construction is rejected and no partial tree is produced.

use vstd::prelude::*;

verus! {

/// Why a template build failed.
#[derive(Debug, Clone, Copy, PartialEq, Eq, Structural)]
pub enum BuildError {
    /// Malformed token sequence: missing brace, unexpected token, or an
    /// unterminated string literal.
    SyntaxError,
    /// A node name that is not in the tag registry.
    UnknownTagError,
    /// An integer literal that does not fit the 64-bit signed range.
    NumberFormatError,
    /// The right-hand side of an attribute matches none of the recognized
    /// literal or expression shapes.
    ExpectedAttributeValueError,
}

impl BuildError {
    /// A short, fixed name for the error, for callers that report it.
    pub fn describe(&self) -> (r: &'static str)
        ensures
            r@ == self.describe_spec(),
    {
        proof {
            reveal_strlit("syntax error");
            reveal_strlit("unknown tag");
            reveal_strlit("number format error");
            reveal_strlit("expected attribute value");
        }
        match self {
            BuildError::SyntaxError => "syntax error",
            BuildError::UnknownTagError => "unknown tag",
            BuildError::NumberFormatError => "number format error",
            BuildError::ExpectedAttributeValueError => "expected attribute value",
        }
    }

    /// What `describe` returns for each variant.
    pub open spec fn describe_spec(&self) -> Seq<char> {
        match self {
            BuildError::SyntaxError => "syntax error"@,
            BuildError::UnknownTagError => "unknown tag"@,
            BuildError::NumberFormatError => "number format error"@,
            BuildError::ExpectedAttributeValueError => "expected attribute value"@,
        }
    }
}

} // verus!
