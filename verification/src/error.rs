//! The ways in which building or transforming a path can fail.

use vstd::prelude::*;

verus! {

/// Why a path could not be built or transformed.
#[derive(Debug, Clone, Copy, PartialEq, Eq, Hash, Structural)]
pub enum PathError {
    /// The input is absolute where a relative path is required, or its
    /// separators cannot be normalized: a component is empty or holds a
    /// foreign separator.
    InvalidPath,
    /// A `.` or `..` component stands where a normalized path is required.
    NonNormalizedComponent,
    /// A `..` would climb above the path's base.
    PathEscapesRoot,
    /// The base handed to `strip_prefix` is not a whole-component prefix.
    NotAPrefix,
    /// A component is empty, `.`, `..`, or holds a separator.
    InvalidFileName,
}

impl PathError {
    /// The text of the message that `to_string` gives for this error.
    pub open spec fn message(self) -> Seq<char> {
        match self {
            PathError::InvalidPath => "expected a relative path with normalized separators"@,
            PathError::NonNormalizedComponent => "expected a normalized path without `.` or `..` components"@,
            PathError::PathEscapesRoot => "joining the path would escape its root"@,
            PathError::NotAPrefix => "the base is not a prefix of the path"@,
            PathError::InvalidFileName => "file name is empty, `.`, `..`, or contains a separator"@,
        }
    }

    /// A human-readable description of the error.
    pub fn to_string(&self) -> (text: String)
        ensures
            text@ == self.message(),
    {
        match self {
            PathError::InvalidPath => "expected a relative path with normalized separators".to_owned(),
            PathError::NonNormalizedComponent => "expected a normalized path without `.` or `..` components".to_owned(),
            PathError::PathEscapesRoot => "joining the path would escape its root".to_owned(),
            PathError::NotAPrefix => "the base is not a prefix of the path".to_owned(),
            PathError::InvalidFileName => "file name is empty, `.`, `..`, or contains a separator".to_owned(),
        }
    }
}

} // verus!
