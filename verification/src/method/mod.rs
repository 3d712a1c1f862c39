//! The kinds of syntax node that the index records, and the indexing pass.

pub mod initialize;

use vstd::prelude::*;
use vstd::std_specs::convert::TryFromSpecImpl;

verus! {

/// A kind of syntax node that becomes a tag.
#[derive(Debug, Copy, Clone, PartialEq, Eq, Structural)]
pub enum TreeSitterNodeKind {
    /// A function-like preprocessor definition of the C grammar.
    PreprocFunctionDef,
}

impl TreeSitterNodeKind {
    /// The numerical id that the grammar gives nodes of this kind. It is
    /// also the classification code of the tags made of them.
    pub open spec fn spec_code(self) -> u16 {
        match self {
            TreeSitterNodeKind::PreprocFunctionDef => 158,
        }
    }

    /// The kind with the numerical id, if it is one that becomes a tag.
    pub open spec fn of_code(value: u16) -> Option<TreeSitterNodeKind> {
        if value == 158 {
            Some(TreeSitterNodeKind::PreprocFunctionDef)
        } else {
            None
        }
    }

    /// The numerical id that the grammar gives nodes of this kind.
    #[verifier::when_used_as_spec(spec_code)]
    pub fn code(self) -> (value: u16)
        ensures
            value == self.spec_code(),
            TreeSitterNodeKind::of_code(value) == Some(self),
    {
        match self {
            TreeSitterNodeKind::PreprocFunctionDef => 158,
        }
    }
}

impl TryFrom<u16> for TreeSitterNodeKind {
    type Error = u16;

    /// The kind with the numerical id; an id of no recorded kind is handed
    /// back as the error.
    fn try_from(value: u16) -> (kind: Result<Self, u16>) {
        match value {
            158 => Ok(TreeSitterNodeKind::PreprocFunctionDef),
            unmatched => Err(unmatched),
        }
    }
}

impl TryFromSpecImpl<u16> for TreeSitterNodeKind {
    open spec fn obeys_try_from_spec() -> bool {
        true
    }

    open spec fn try_from_spec(value: u16) -> Result<Self, u16> {
        match TreeSitterNodeKind::of_code(value) {
            Some(kind) => Ok(kind),
            None => Err(value),
        }
    }
}

} // verus!
