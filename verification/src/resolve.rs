//! Nesting and orientation resolution.
//!
//! Among the assembled loops, exactly one is expected to geometrically
//! contain all the others; that loop becomes the outer boundary and every
//! other loop a hole.  The outer boundary is then normalized to positive
//! winding and every hole to negative winding, so downstream consumers can
//! rely on the sign convention.  If no loop contains all the others, the
//! load fails: the input does not describe one region with holes.
//!
//! Containment asks the geometry kernel whether every endpoint coordinate
//! of one loop lies inside the closed path of another.  Loops enclosed by
//! more than one other loop, and intersection checks between sibling
//! loops, are deliberately out of scope; they are only guarded by the
//! single-enclosing-loop requirement above.

use vstd::prelude::*;

use crate::bound;
use crate::bound::Boundary;
use crate::edge::{EdgeGeom, EdgeHandle};
use crate::err::ReconError;
use crate::geom;

verus! {

/// What one edge contributes to a loop's kernel path: a line to its end
/// point, or its arc's curve (walked as the edge walks it).
pub open spec fn edge_step(path: kurbo::BezPath, e: EdgeHandle) -> kurbo::BezPath {
    match e.geom {
        EdgeGeom::Seg { q, .. } => geom::path_line_of(path, q),
        EdgeGeom::Arc { curve, rev, .. } => geom::path_arc_of(path, curve, rev),
    }
}

/// The kernel path of the first `i` edges of a loop: begun at the first
/// edge's start, extended edge by edge.
pub open spec fn path_partial(edges: Seq<EdgeHandle>, i: int) -> kurbo::BezPath
    decreases i,
{
    if i <= 0 {
        geom::path_begin_of(edges[0].geom.spec_start())
    } else {
        edge_step(path_partial(edges, i - 1), edges[i - 1])
    }
}

/// The closed kernel path of a whole loop.
pub open spec fn path_of(edges: Seq<EdgeHandle>) -> kurbo::BezPath {
    geom::path_close_of(path_partial(edges, edges.len() as int))
}

/// Every endpoint coordinate of `inner`'s edges lies inside the region
/// that `outer`'s closed path encloses.
pub open spec fn contains_spec(outer: Seq<EdgeHandle>, inner: Seq<EdgeHandle>) -> bool {
    forall|i: int|
        0 <= i < inner.len() ==> {
            &&& geom::path_contains_of(path_of(outer), (#[trigger] inner[i]).geom.spec_start())
            &&& geom::path_contains_of(path_of(outer), inner[i].geom.spec_end())
        }
}

/// The loop's signed area is negative: its area numeral carries a leading
/// minus sign (byte 45).
pub open spec fn neg_area(edges: Seq<EdgeHandle>) -> bool {
    let t = geom::area_text_of(path_of(edges));
    t.len() > 0 && t[0] == 45
}

/// The loop normalized to positive winding: reversed exactly when its
/// area is negative.
pub open spec fn orient_pos_of(edges: Seq<EdgeHandle>) -> Seq<EdgeHandle> {
    if neg_area(edges) {
        bound::rev_chain(edges)
    } else {
        edges
    }
}

/// The loop normalized to negative winding: reversed exactly when its
/// area is not negative.
pub open spec fn orient_neg_of(edges: Seq<EdgeHandle>) -> Seq<EdgeHandle> {
    if neg_area(edges) {
        edges
    } else {
        bound::rev_chain(edges)
    }
}

/// Loop `i` contains every other loop of `chains`.
pub open spec fn contains_all(chains: Seq<Seq<EdgeHandle>>, i: int) -> bool {
    forall|j: int| 0 <= j < chains.len() && j != i ==> contains_spec(chains[i], #[trigger] chains[j])
}

/// The greatest index below `n` whose loop contains every other loop, if
/// any: the selection the resolver makes (later candidates overwrite
/// earlier ones).
pub open spec fn last_enclosing(chains: Seq<Seq<EdgeHandle>>, n: int) -> Option<int>
    decreases n,
{
    if n <= 0 {
        None
    } else if contains_all(chains, n - 1) {
        Some(n - 1)
    } else {
        last_enclosing(chains, n - 1)
    }
}

/// The loop sequence after removing index `i` by swapping the last loop
/// into its place.
pub open spec fn removed_at(chains: Seq<Seq<EdgeHandle>>, i: int) -> Seq<Seq<EdgeHandle>> {
    chains.update(i, chains.last()).drop_last()
}

impl Boundary {
    /// The loop's closed kernel path.
    pub fn path(&self) -> (path: kurbo::BezPath)
        requires
            self.edges@.len() >= 1,
        ensures
            path == path_of(self.edges@),
    {
        let first = &self.edges[0];
        let mut path = geom::path_begin(&(match &first.geom {
            EdgeGeom::Seg { p, .. } => *p,
            EdgeGeom::Arc { p, .. } => *p,
        }));
        let n: usize = self.edges.len();
        let mut i: usize = 0;
        while i < n
            invariant
                0 <= i <= n,
                n == self.edges@.len(),
                path == path_partial(self.edges@, i as int),
            decreases n - i,
        {
            let e = &self.edges[i];
            match &e.geom {
                EdgeGeom::Seg { q, .. } => geom::path_line(&mut path, q),
                EdgeGeom::Arc { curve, rev, .. } => geom::path_arc(&mut path, curve, *rev),
            }
            i = i + 1;
        }
        geom::path_close(&mut path);
        path
    }

    /// Whether this loop geometrically contains `other`: every endpoint
    /// coordinate of `other`'s edges lies inside this loop's path.
    pub fn contains_boundary(&self, other: &Boundary) -> (r: bool)
        requires
            self.edges@.len() >= 1,
        ensures
            r == contains_spec(self.edges@, other.edges@),
    {
        let path = self.path();
        let n: usize = other.edges.len();
        let mut i: usize = 0;
        while i < n
            invariant
                0 <= i <= n,
                n == other.edges@.len(),
                path == path_of(self.edges@),
                forall|k: int|
                    0 <= k < i ==> {
                        &&& geom::path_contains_of(
                            path_of(self.edges@),
                            (#[trigger] other.edges@[k]).geom.spec_start(),
                        )
                        &&& geom::path_contains_of(
                            path_of(self.edges@),
                            other.edges@[k].geom.spec_end(),
                        )
                    },
            decreases n - i,
        {
            let e = &other.edges[i];
            let (p, q) = match &e.geom {
                EdgeGeom::Seg { p, q } => (*p, *q),
                EdgeGeom::Arc { p, q, .. } => (*p, *q),
            };
            if !geom::path_contains(&path, &p) {
                return false;
            }
            if !geom::path_contains(&path, &q) {
                return false;
            }
            i = i + 1;
        }
        true
    }

    /// Whether the loop's signed area is negative.
    pub fn is_negative(&self) -> (r: bool)
        requires
            self.edges@.len() >= 1,
        ensures
            r == neg_area(self.edges@),
    {
        let path = self.path();
        let t = geom::path_area_text(&path);
        t.len() > 0 && t[0] == 45
    }

    /// Normalizes the loop to positive winding: reverses it exactly when
    /// its signed area is negative.
    pub fn orient_positive(&mut self)
        requires
            old(self).edges@.len() >= 1,
        ensures
            final(self).edges@ == orient_pos_of(old(self).edges@),
    {
        if self.is_negative() {
            *self = self.reversed();
        }
    }

    /// Normalizes the loop to negative winding: reverses it exactly when
    /// its signed area is not negative.
    pub fn orient_negative(&mut self)
        requires
            old(self).edges@.len() >= 1,
        ensures
            final(self).edges@ == orient_neg_of(old(self).edges@),
    {
        if !self.is_negative() {
            *self = self.reversed();
        }
    }
}

/// Classifies the assembled loops: the last loop that contains all the
/// others becomes the outer boundary, normalized positive; every other
/// loop, in pool order with the last swapped into the chosen loop's
/// place, becomes a hole, normalized negative.  Fails when no loop
/// contains all the others.
#[verifier::loop_isolation(false)]
pub fn resolve(bounds: Vec<Boundary>) -> (r: Result<(Boundary, Vec<Boundary>), ReconError>)
    requires
        forall|i: int| 0 <= i < bounds@.len() ==> (#[trigger] bounds@[i]).edges@.len() >= 1,
    ensures
        match last_enclosing(crate::assemble::chain_views(bounds@), bounds@.len() as int) {
            Some(i) => {
                &&& r matches Ok((outer, inners))
                &&& outer.edges@ == orient_pos_of(bounds@[i].edges@)
                &&& inners@.len() == bounds@.len() - 1
                &&& forall|j: int|
                    0 <= j < inners@.len() ==> (#[trigger] inners@[j]).edges@ == orient_neg_of(
                        removed_at(crate::assemble::chain_views(bounds@), i)[j],
                    )
            },
            None => r == Err::<(Boundary, Vec<Boundary>), ReconError>(
                ReconError::NoEnclosingBoundary,
            ),
        },
{
    let ghost chains = crate::assemble::chain_views(bounds@);
    let n: usize = bounds.len();
    let mut enclosing: Option<usize> = None;
    let mut i: usize = 0;
    while i < n
        invariant
            0 <= i <= n,
            match enclosing {
                Some(e) => e < i && last_enclosing(chains, i as int) == Some(e as int),
                None => last_enclosing(chains, i as int) is None,
            },
        decreases n - i,
    {
        // does loop i contain every other loop?
        let mut all: bool = true;
        let mut j: usize = 0;
        while j < n
            invariant
                0 <= j <= n,
                all == (forall|k: int|
                    0 <= k < j && k != i ==> contains_spec(chains[i as int], #[trigger] chains[k])),
            decreases n - j,
        {
            proof {
                assert(chains[i as int] == bounds@[i as int].edges@);
                assert(chains[j as int] == bounds@[j as int].edges@);
            }
            if j != i {
                if !bounds[i].contains_boundary(&bounds[j]) {
                    all = false;
                }
            }
            j = j + 1;
        }
        if all {
            enclosing = Some(i);
        }
        i = i + 1;
    }
    match enclosing {
        None => Err(ReconError::NoEnclosingBoundary),
        Some(e) => {
            let mut bounds = bounds;
            let mut outer = bounds.swap_remove(e);
            outer.orient_positive();
            let ghost rest = removed_at(chains, e as int);
            let m: usize = bounds.len();
            let mut k: usize = 0;
            while k < m
                invariant
                    0 <= k <= m,
                    m == bounds@.len(),
                    bounds@.len() == rest.len(),
                    forall|j: int|
                        0 <= j < k ==> (#[trigger] bounds@[j]).edges@ == orient_neg_of(rest[j]),
                    forall|j: int| k <= j < m ==> (#[trigger] bounds@[j]).edges@ == rest[j],
                decreases m - k,
            {
                let mut b = bounds.remove(k);
                b.orient_negative();
                bounds.insert(k, b);
                k = k + 1;
            }
            Ok((outer, bounds))
        },
    }
}

/// A selected enclosing index lies among the loops it was selected from.
pub proof fn lemma_last_enclosing_range(chains: Seq<Seq<EdgeHandle>>, n: int)
    requires
        last_enclosing(chains, n) is Some,
    ensures
        0 <= last_enclosing(chains, n).unwrap() < n,
    decreases n,
{
    if n > 0 && !contains_all(chains, n - 1) {
        lemma_last_enclosing_range(chains, n - 1);
    }
}

/// Containment invariant: when a loop is selected as enclosing, every
/// other loop — in particular every hole, before its winding is
/// normalized — has all its endpoint coordinates inside the selected
/// loop's path.
pub proof fn lemma_holes_inside_outer(chains: Seq<Seq<EdgeHandle>>, n: int, j: int)
    requires
        0 <= n <= chains.len(),
        last_enclosing(chains, n) is Some,
        0 <= j < chains.len(),
        j != last_enclosing(chains, n).unwrap(),
    ensures
        contains_spec(chains[last_enclosing(chains, n).unwrap()], chains[j]),
    decreases n,
{
    if n > 0 && !contains_all(chains, n - 1) {
        lemma_holes_inside_outer(chains, n - 1, j);
    }
}

/// Containment does not depend on which way the contained loop is walked:
/// reversing it permutes the endpoint coordinates that are tested.
pub proof fn lemma_contains_reversed(outer: Seq<EdgeHandle>, inner: Seq<EdgeHandle>)
    ensures
        contains_spec(outer, bound::rev_chain(inner)) == contains_spec(outer, inner),
{
    let rev = bound::rev_chain(inner);
    let n = inner.len() as int;
    if contains_spec(outer, inner) {
        assert forall|i: int| 0 <= i < rev.len() implies {
            &&& geom::path_contains_of(path_of(outer), (#[trigger] rev[i]).geom.spec_start())
            &&& geom::path_contains_of(path_of(outer), rev[i].geom.spec_end())
        } by {
            assert(rev[i].geom.spec_start() == inner[n - 1 - i].geom.spec_end());
            assert(rev[i].geom.spec_end() == inner[n - 1 - i].geom.spec_start());
        }
    }
    if contains_spec(outer, rev) {
        assert forall|i: int| 0 <= i < inner.len() implies {
            &&& geom::path_contains_of(path_of(outer), (#[trigger] inner[i]).geom.spec_start())
            &&& geom::path_contains_of(path_of(outer), inner[i].geom.spec_end())
        } by {
            assert(rev[n - 1 - i].geom.spec_start() == inner[i].geom.spec_end());
            assert(rev[n - 1 - i].geom.spec_end() == inner[i].geom.spec_start());
        }
    }
}

/// Every hole of a resolved model, as it is finally handed out — winding
/// normalized — has all its endpoint coordinates inside the loop that was
/// selected as the outer boundary.
pub proof fn lemma_resolved_holes_inside(chains: Seq<Seq<EdgeHandle>>, j: int)
    requires
        last_enclosing(chains, chains.len() as int) is Some,
        0 <= j < chains.len() - 1,
    ensures
        contains_spec(
            chains[last_enclosing(chains, chains.len() as int).unwrap()],
            orient_neg_of(removed_at(chains, last_enclosing(chains, chains.len() as int).unwrap())[j]),
        ),
{
    let n = chains.len() as int;
    let ci = last_enclosing(chains, n).unwrap();
    lemma_last_enclosing_range(chains, n);
    let rest = removed_at(chains, ci);
    let pre = rest[j];
    if j == ci {
        // ci cannot be the last index here, since j ranges below n - 1
        assert(ci < n - 1);
        assert(pre == chains[n - 1]);
        lemma_holes_inside_outer(chains, n, n - 1);
    } else {
        assert(pre == chains[j]);
        lemma_holes_inside_outer(chains, n, j);
    }
    lemma_contains_reversed(chains[ci], pre);
    assert(contains_spec(chains[ci], orient_neg_of(pre)));
}

/// Orientation convention: normalizing a loop whose reversal's area sign
/// is opposite to its own (every loop of non-zero area) makes the outer
/// boundary's signed area positive and a hole's negative.
pub proof fn lemma_orientation_convention(edges: Seq<EdgeHandle>)
    requires
        neg_area(bound::rev_chain(edges)) == !neg_area(edges),
    ensures
        !neg_area(orient_pos_of(edges)),
        neg_area(orient_neg_of(edges)),
{
}

/// Normalizing windings keeps each loop a closed cycle.
pub proof fn lemma_orient_preserves_closure(edges: Seq<EdgeHandle>)
    requires
        bound::closed_loop(edges),
    ensures
        bound::closed_loop(orient_pos_of(edges)),
        bound::closed_loop(orient_neg_of(edges)),
{
    bound::lemma_rev_chain_closed(edges);
}

} // verus!
