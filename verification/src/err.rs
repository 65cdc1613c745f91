//! Fatal reconstruction failures.
//!
//! Every failure here aborts the whole load: no partial boundary set is
//! ever produced.  Unsupported primitives are not an error; they are
//! skipped one by one during edge construction.

use vstd::prelude::*;

verus! {

/// Why a reconstruction was abandoned.
#[derive(PartialEq, Eq, Structural, Clone, Copy, Debug)]
pub enum ReconError {
    /// An arc primitive's plane normal is not the standard forward axis:
    /// the input violates the planarity precondition.
    NonPlanarArc,
    /// No edge continues the loop being assembled at its open endpoint:
    /// the input's topology is malformed (an open boundary).
    DanglingEdge,
    /// No loop geometrically contains all the others: the input does not
    /// describe one region with holes.
    NoEnclosingBoundary,
}

impl ReconError {
    /// A short description, for diagnostics.
    pub fn describe(&self) -> (r: &'static str)
        ensures
            *self is NonPlanarArc ==> r@ == "non-planar arc"@,
            *self is DanglingEdge ==> r@ == "dangling edge"@,
            *self is NoEnclosingBoundary ==> r@ == "no enclosing boundary"@,
    {
        proof {
            reveal_strlit("non-planar arc");
            reveal_strlit("dangling edge");
            reveal_strlit("no enclosing boundary");
        }
        match self {
            ReconError::NonPlanarArc => "non-planar arc",
            ReconError::DanglingEdge => "dangling edge",
            ReconError::NoEnclosingBoundary => "no enclosing boundary",
        }
    }
}

} // verus!
