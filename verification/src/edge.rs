//! Directed edges between point identities.
//!
//! Each accepted primitive becomes one directed edge: a straight segment
//! or a circular arc, remembering the identities of its two endpoints for
//! graph traversal.  Reversing an edge swaps its endpoints (and walks an
//! arc's curve the other way) while keeping the same geometric locus, and
//! reversing twice restores the edge exactly.

use vstd::prelude::*;

use crate::err::ReconError;
use crate::geom;
use crate::store;
use crate::store::{PointId, PointStore};

verus! {

/// The geometric part of an edge.  The `p`/`q` points are the edge's
/// current start and end coordinates.  An arc keeps the kernel curve it
/// was built with; `rev` records whether the edge currently walks that
/// curve against its stored direction.
#[derive(Clone, Copy, Debug, PartialEq)]
pub enum EdgeGeom {
    Seg { p: kurbo::Point, q: kurbo::Point },
    Arc { curve: kurbo::Arc, rev: bool, p: kurbo::Point, q: kurbo::Point },
}

impl EdgeGeom {
    /// The coordinate this edge starts at.
    pub open spec fn spec_start(self) -> kurbo::Point {
        match self {
            EdgeGeom::Seg { p, .. } => p,
            EdgeGeom::Arc { p, .. } => p,
        }
    }

    /// The coordinate this edge ends at.
    pub open spec fn spec_end(self) -> kurbo::Point {
        match self {
            EdgeGeom::Seg { q, .. } => q,
            EdgeGeom::Arc { q, .. } => q,
        }
    }

    /// The same locus walked the other way.
    pub open spec fn spec_reversed(self) -> EdgeGeom {
        match self {
            EdgeGeom::Seg { p, q } => EdgeGeom::Seg { p: q, q: p },
            EdgeGeom::Arc { curve, rev, p, q } => (EdgeGeom::Arc {
                curve,
                rev: !rev,
                p: q,
                q: p,
            }),
        }
    }
}

/// A directed edge together with the identities of its endpoints.
#[derive(Clone, Copy, Debug, PartialEq)]
pub struct EdgeHandle {
    pub geom: EdgeGeom,
    pub p_id: PointId,
    pub q_id: PointId,
}

impl EdgeHandle {
    /// The same edge traversed end-to-start.
    pub open spec fn spec_reversed(self) -> EdgeHandle {
        EdgeHandle { geom: self.geom.spec_reversed(), p_id: self.q_id, q_id: self.p_id }
    }

    /// Builds the edge of one primitive, resolving its endpoints in the
    /// store.  A line or a planar arc yields an edge; an unsupported
    /// primitive yields nothing (and is the caller's to report); an arc
    /// that is not planar is a fatal contract violation and leaves the
    /// store untouched.
    pub fn from_entity(store: &mut PointStore, ent: &dxf::entities::Entity) -> (r: Result<
        Option<EdgeHandle>,
        ReconError,
    >)
        ensures
            match geom::prim_of(*ent) {
                geom::Prim::Line(l) => {
                    &&& r matches Ok(Some(h))
                    &&& (h.geom == EdgeGeom::Seg {
                        p: geom::line_start_of(l),
                        q: geom::line_end_of(l),
                    })
                    &&& h.p_id.0 as int == store::insert_id(old(store)@, geom::line_start_of(l))
                    &&& h.q_id.0 as int == store::insert_id(
                        store::insert_pts(old(store)@, geom::line_start_of(l)),
                        geom::line_end_of(l),
                    )
                    &&& final(store)@ == store::insert_pts(
                        store::insert_pts(old(store)@, geom::line_start_of(l)),
                        geom::line_end_of(l),
                    )
                },
                geom::Prim::Arc(a) => {
                    if geom::arc_planar(a) {
                        &&& r matches Ok(Some(h))
                        &&& (h.geom == EdgeGeom::Arc {
                            curve: geom::arc_curve_of(a),
                            rev: false,
                            p: geom::arc_start_of(a),
                            q: geom::arc_end_of(a),
                        })
                        &&& h.p_id.0 as int == store::insert_id(old(store)@, geom::arc_start_of(a))
                        &&& h.q_id.0 as int == store::insert_id(
                            store::insert_pts(old(store)@, geom::arc_start_of(a)),
                            geom::arc_end_of(a),
                        )
                        &&& final(store)@ == store::insert_pts(
                            store::insert_pts(old(store)@, geom::arc_start_of(a)),
                            geom::arc_end_of(a),
                        )
                    } else {
                        r == Err::<Option<EdgeHandle>, ReconError>(ReconError::NonPlanarArc)
                            && final(store)@ == old(store)@
                    }
                },
                geom::Prim::Other(_) => {
                    &&& r == Ok::<Option<EdgeHandle>, ReconError>(None)
                    &&& final(store)@ == old(store)@
                },
            },
    {
        match geom::classify_entity(ent) {
            geom::Prim::Line(l) => {
                let p = geom::line_start(&l);
                let q = geom::line_end(&l);
                let p_id = store.id_or_insert(p);
                let q_id = store.id_or_insert(q);
                Ok(Some(EdgeHandle { geom: EdgeGeom::Seg { p, q }, p_id, q_id }))
            },
            geom::Prim::Arc(a) => {
                if !geom::arc_is_planar(&a) {
                    return Err(ReconError::NonPlanarArc);
                }
                let p = geom::arc_start(&a);
                let q = geom::arc_end(&a);
                let p_id = store.id_or_insert(p);
                let q_id = store.id_or_insert(q);
                let curve = geom::arc_curve(&a);
                Ok(Some(EdgeHandle { geom: EdgeGeom::Arc { curve, rev: false, p, q }, p_id, q_id }))
            },
            geom::Prim::Other(_) => Ok(None),
        }
    }

    /// The identity of the edge's start point.
    pub fn p_id(&self) -> (id: PointId)
        ensures
            id == self.p_id,
    {
        self.p_id
    }

    /// The identity of the edge's end point.
    pub fn q_id(&self) -> (id: PointId)
        ensures
            id == self.q_id,
    {
        self.q_id
    }

    /// The same edge traversed the other way: endpoints and their
    /// identities swapped, an arc's curve walked backwards.
    pub fn reversed(&self) -> (r: EdgeHandle)
        ensures
            r == self.spec_reversed(),
    {
        EdgeHandle {
            geom: match &self.geom {
                EdgeGeom::Seg { p, q } => EdgeGeom::Seg { p: *q, q: *p },
                EdgeGeom::Arc { curve, rev, p, q } => (EdgeGeom::Arc {
                    curve: *curve,
                    rev: !*rev,
                    p: *q,
                    q: *p,
                }),
            },
            p_id: self.q_id,
            q_id: self.p_id,
        }
    }

    /// The edge, or its reversal, oriented to start at `id`; nothing if
    /// the edge touches neither endpoint.  An edge already starting at
    /// `id` is preferred over its reversal.
    pub fn as_starting_with(&self, id: PointId) -> (r: Option<EdgeHandle>)
        ensures
            self.p_id == id ==> r == Some(*self),
            self.p_id != id && self.q_id == id ==> r == Some(self.spec_reversed()),
            self.p_id != id && self.q_id != id ==> r is None,
    {
        if self.p_id == id {
            Some(*self)
        } else if self.q_id == id {
            Some(self.reversed())
        } else {
            None
        }
    }
}

/// Reversal involution: reversing an edge twice restores it exactly, both
/// in its endpoint identities and in its geometry, for segments and arcs
/// alike.
pub proof fn lemma_reversal_involution(h: EdgeHandle)
    ensures
        h.spec_reversed().spec_reversed() == h,
{
}

} // verus!
