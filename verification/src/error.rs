//! The error taxonomy for graph construction and export assembly.

use vstd::prelude::*;

verus! {

/// Everything that can go wrong while building the object graph from the
/// generic node tree or while assembling bones and triangles for export.
///
/// Unrecognized object or connection kinds are deliberately *not* errors:
/// they are carried through as not-supported values so that unknown chunks
/// never block loading the rest of a file.
#[derive(Debug, Clone)]
pub enum Error {
    /// A node had an unexpected tag where a specific one was required
    /// (expected, actual).
    WrongNode(String, String),
    /// A node had too few properties or was missing a required child.
    WrongNodeLayout(String),
    /// A required top-level section (such as the object or connection list)
    /// was absent.
    MissingRequiredNode(String),
    /// A geometry layer used a mapping scheme other than the two implemented.
    UnsupportedMappingType(String),
    /// A polygon had an index count other than 3.
    MalformedPolygon,
    /// Two exported bones would have carried the same name.
    DuplicateBoneName(String),
    /// A geometry object had no ancestor model to bind its triangles to.
    UnattachedGeometry,
}

} // verus!
