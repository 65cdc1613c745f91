//! Reconstruction of closed part boundaries from loose CAD primitives.
//!
//! A drawing arrives as an unordered list of line and arc primitives.  This
//! crate resolves their endpoints into stable point identities (within a
//! fixed drawing tolerance), turns each primitive into a directed edge,
//! assembles the edges into closed loops, and classifies exactly one loop as
//! the outer boundary with all the others as holes, normalizing winding so
//! that the outer boundary is positively oriented and every hole negatively.
//!
//! The numeric geometry — distances, arc endpoints, signed areas, point
//! containment — is the work of a kernel of outside crates, reached only
//! through the trusted declarations in [`geom`]; everything the crate
//! decides from those answers is verified.

pub mod assemble;
pub mod bound;
pub mod edge;
pub mod err;
pub mod geom;
pub mod marks;
pub mod model;
pub mod resolve;
pub mod store;
pub mod tol;
pub mod units;
pub mod writer;
