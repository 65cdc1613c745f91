//! Closed boundary loops.
//!
//! A boundary is an ordered, cyclic sequence of directed edges in which
//! each edge starts at the point identity where its predecessor ends, and
//! the last edge ends where the first begins.

use vstd::prelude::*;

use crate::edge::{EdgeGeom, EdgeHandle};

verus! {

/// Consecutive edges share their point identities: each edge's end is the
/// next edge's start.
pub open spec fn linked(edges: Seq<EdgeHandle>) -> bool {
    forall|i: int| 0 <= i < edges.len() - 1 ==> (#[trigger] edges[i]).q_id == edges[i + 1].p_id
}

/// A non-empty chain of linked edges whose last edge ends at the first
/// edge's start: a closed traversal cycle.
pub open spec fn closed_loop(edges: Seq<EdgeHandle>) -> bool {
    &&& edges.len() >= 1
    &&& linked(edges)
    &&& edges[edges.len() - 1].q_id == edges[0].p_id
}

/// The same cycle walked the other way round: edge order reversed and
/// every edge reversed.
pub open spec fn rev_chain(edges: Seq<EdgeHandle>) -> Seq<EdgeHandle> {
    Seq::new(edges.len(), |i: int| edges[edges.len() - 1 - i].spec_reversed())
}

/// One closed boundary loop.
#[derive(Clone, Debug, PartialEq)]
pub struct Boundary {
    pub edges: Vec<EdgeHandle>,
}

impl Boundary {
    /// The loop is a well-formed closed cycle.
    pub open spec fn wf(self) -> bool {
        closed_loop(self.edges@)
    }

    /// How many edges the loop has.
    pub fn num_edges(&self) -> (n: usize)
        ensures
            n == self.edges@.len(),
    {
        self.edges.len()
    }

    /// The loop's vertex coordinates, one per edge, in traversal order:
    /// each edge contributes the point it starts at.
    pub fn points(&self) -> (pts: Vec<kurbo::Point>)
        ensures
            pts@.len() == self.edges@.len(),
            forall|i: int|
                0 <= i < pts@.len() ==> pts@[i] == (#[trigger] self.edges@[i]).geom.spec_start(),
    {
        let mut pts: Vec<kurbo::Point> = Vec::new();
        let n: usize = self.edges.len();
        let mut i: usize = 0;
        while i < n
            invariant
                0 <= i <= n,
                n == self.edges@.len(),
                pts@.len() == i,
                forall|k: int|
                    0 <= k < i ==> pts@[k] == (#[trigger] self.edges@[k]).geom.spec_start(),
            decreases n - i,
        {
            let e = &self.edges[i];
            pts.push(match &e.geom {
                EdgeGeom::Seg { p, .. } => *p,
                EdgeGeom::Arc { p, .. } => *p,
            });
            i = i + 1;
        }
        pts
    }

    /// A copy of the boundary with the same edges.
    pub fn duplicate(&self) -> (r: Boundary)
        ensures
            r.edges@ == self.edges@,
    {
        let n: usize = self.edges.len();
        let mut out: Vec<EdgeHandle> = Vec::new();
        let mut i: usize = 0;
        while i < n
            invariant
                0 <= i <= n,
                n == self.edges@.len(),
                out@.len() == i,
                forall|k: int| 0 <= k < i ==> out@[k] == self.edges@[k],
            decreases n - i,
        {
            out.push(self.edges[i]);
            i = i + 1;
        }
        proof {
            assert(out@ =~= self.edges@);
        }
        Boundary { edges: out }
    }

    /// The boundary walked the other way round.
    pub fn reversed(&self) -> (r: Boundary)
        ensures
            r.edges@ == rev_chain(self.edges@),
    {
        let n: usize = self.edges.len();
        let mut out: Vec<EdgeHandle> = Vec::new();
        let mut i: usize = 0;
        while i < n
            invariant
                0 <= i <= n,
                n == self.edges@.len(),
                out@.len() == i,
                forall|k: int|
                    0 <= k < i ==> out@[k] == self.edges@[n - 1 - k].spec_reversed(),
            decreases n - i,
        {
            out.push(self.edges[n - 1 - i].reversed());
            i = i + 1;
        }
        proof {
            assert(out@ =~= rev_chain(self.edges@));
        }
        Boundary { edges: out }
    }
}

/// Walking a closed loop backwards yields a closed loop again.
pub proof fn lemma_rev_chain_closed(edges: Seq<EdgeHandle>)
    requires
        closed_loop(edges),
    ensures
        closed_loop(rev_chain(edges)),
{
    let r = rev_chain(edges);
    assert forall|i: int| 0 <= i < r.len() - 1 implies (#[trigger] r[i]).q_id == r[i + 1].p_id by {
        assert(edges[edges.len() - 2 - i].q_id == edges[edges.len() - 1 - i].p_id);
    }
}

/// Reversing a boundary twice restores it exactly.
pub proof fn lemma_rev_chain_involution(edges: Seq<EdgeHandle>)
    ensures
        rev_chain(rev_chain(edges)) == edges,
{
    assert(rev_chain(rev_chain(edges)) =~= edges);
}

} // verus!
