//! Failure values returned by template construction and by matching.

use vstd::prelude::*;

verus! {

/// An unrecognized segment-type token was supplied while building a template.
#[derive(Debug, Clone, Copy, PartialEq, Eq, Structural)]
pub enum ParserConfigError {
    InvalidSegmentType,
}

/// A failed match attempt: what was expected and what was actually seen,
/// optionally attributed to the variable whose coercion failed.
#[derive(Debug, Clone)]
pub enum MatchError {
    /// `MatchError(expected, got)`: an unnamed failure.
    MatchError(String, String),
    /// `NamedMatchError(name, expected, got)`: a failure attributed to the
    /// variable called `name`.
    NamedMatchError(String, String, String),
}

/// What annotating a failure with a variable name yields: an unnamed failure
/// becomes a named one; a failure that already carries a name is unchanged.
pub open spec fn with_name_spec(e: MatchError, name: String) -> MatchError {
    match e {
        MatchError::MatchError(expected, got) => MatchError::NamedMatchError(
            name,
            expected,
            got,
        ),
        MatchError::NamedMatchError(_, _, _) => e,
    }
}

impl MatchError {
    /// Attributes this failure to the variable called `name`; a name that is
    /// already present wins over the new one.
    pub fn with_name(self, name: String) -> (r: MatchError)
        ensures
            r == with_name_spec(self, name),
    {
        match self {
            MatchError::MatchError(s1, s2) => MatchError::NamedMatchError(name, s1, s2),
            MatchError::NamedMatchError(_, _, _) => self,
        }
    }
}

/// Annotation is idempotent: a failure that already carries a name keeps it,
/// whatever name a later annotation tries to write.
pub proof fn lemma_with_name_idempotent(e: MatchError, n1: String, n2: String)
    ensures
        with_name_spec(with_name_spec(e, n1), n2) == with_name_spec(e, n1),
{
}

} // verus!
