//! Errors of the OBJ/MTL parser.

use vstd::prelude::*;

verus! {

/// An error in parsing OBJ/MTL text.
#[derive(Clone, Copy, Debug, PartialEq, Eq, Hash)]
pub enum Error {
    /// Too few value tokens on a `v`, `vt`, `vn` or similar line.
    NotEnoughData { found: usize, expected: usize },
    /// A face vertex token with a part count other than one or three.
    InvalidFaceVertex,
    /// A face index that is zero, points before the current group, or points
    /// past the elements the group holds.
    InvalidIndex,
    /// An `mtllib` line without a path, or a material library that could not
    /// be resolved.
    PathNotFound,
    /// A token that does not read as a number.
    ParseError,
}

impl Error {
    /// A short description of the error.
    pub fn message(&self) -> String {
        match self {
            Error::NotEnoughData { .. } => String::from_str("not enough data"),
            Error::InvalidFaceVertex => String::from_str("invalid face vertex definition"),
            Error::InvalidIndex => String::from_str("invalid index definition"),
            Error::PathNotFound => String::from_str("path not found"),
            Error::ParseError => String::from_str("malformed number"),
        }
    }
}

} // verus!
