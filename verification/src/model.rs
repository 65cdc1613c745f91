//! The reconstructed part model.
//!
//! The terminal artifact of a load: one outer boundary, positively
//! oriented, plus the holes inside it, negatively oriented.  Produced in
//! one pass from the drawing's primitive list — points deduplicated,
//! edges built, loops assembled, nesting resolved — or not at all: every
//! fatal condition abandons the whole load.

use vstd::prelude::*;

use crate::assemble;
use crate::bound;
use crate::bound::Boundary;
use crate::edge::{EdgeGeom, EdgeHandle};
use crate::err::ReconError;
use crate::geom;
use crate::resolve;
use crate::store;
use crate::store::{PointId, PointStore};

verus! {

/// The character sequences of a sequence of strings.
pub open spec fn note_views(notes: Seq<String>) -> Seq<Seq<char>> {
    notes.map_values(|s: String| s@)
}

/// The scratch state after consuming the first `i` primitives: the
/// deduplicated points, the edges built so far, and the reports of the
/// skipped (unsupported) primitives — or nothing, once a non-planar arc
/// has been hit.
pub open spec fn build_spec(ents: Seq<dxf::entities::Entity>, i: int) -> Option<
    (Seq<kurbo::Point>, Seq<EdgeHandle>, Seq<Seq<char>>),
>
    decreases i,
{
    if i <= 0 {
        Some((Seq::empty(), Seq::empty(), Seq::empty()))
    } else {
        match build_spec(ents, i - 1) {
            None => None,
            Some((pts, es, notes)) => match geom::prim_of(ents[i - 1]) {
                geom::Prim::Line(l) => {
                    let sp = geom::line_start_of(l);
                    let ep = geom::line_end_of(l);
                    let pts1 = store::insert_pts(pts, sp);
                    let h = EdgeHandle {
                        geom: EdgeGeom::Seg { p: sp, q: ep },
                        p_id: PointId(store::insert_id(pts, sp) as usize),
                        q_id: PointId(store::insert_id(pts1, ep) as usize),
                    };
                    Some((store::insert_pts(pts1, ep), es.push(h), notes))
                },
                geom::Prim::Arc(a) => {
                    if geom::arc_planar(a) {
                        let sp = geom::arc_start_of(a);
                        let ep = geom::arc_end_of(a);
                        let pts1 = store::insert_pts(pts, sp);
                        let h = EdgeHandle {
                            geom: EdgeGeom::Arc {
                                curve: geom::arc_curve_of(a),
                                rev: false,
                                p: sp,
                                q: ep,
                            },
                            p_id: PointId(store::insert_id(pts, sp) as usize),
                            q_id: PointId(store::insert_id(pts1, ep) as usize),
                        };
                        Some((store::insert_pts(pts1, ep), es.push(h), notes))
                    } else {
                        None
                    }
                },
                geom::Prim::Other(s) => Some((pts, es, notes.push(s@))),
            },
        }
    }
}

/// Once a non-planar arc has been hit, no later primitive revives the
/// build.
proof fn lemma_build_none_sticks(ents: Seq<dxf::entities::Entity>, i: int, n: int)
    requires
        0 <= i <= n,
        build_spec(ents, i) is None,
    ensures
        build_spec(ents, n) is None,
    decreases n - i,
{
    if i < n {
        lemma_build_none_sticks(ents, i + 1, n);
    }
}

/// One reconstructed part: the outer silhouette and its holes.
#[derive(Clone, Debug)]
pub struct PartModel {
    pub outer_bound: Boundary,
    pub inner_bounds: Vec<Boundary>,
}

impl PartModel {
    /// Reconstructs the part that a drawing's primitives describe, along
    /// with a report line for each unsupported primitive that was
    /// skipped.  Fails — with no partial result — on a non-planar arc, on
    /// an open boundary, or when no loop encloses all the others.
    #[verifier::loop_isolation(false)]
    #[verifier::rlimit(60)]
    pub fn reconstruct(entities: &Vec<dxf::entities::Entity>) -> (r: Result<
        (PartModel, Vec<String>),
        ReconError,
    >)
        ensures
            match build_spec(entities@, entities@.len() as int) {
                None => r == Err::<(PartModel, Vec<String>), ReconError>(ReconError::NonPlanarArc),
                Some((pts, es, notes)) => match assemble::assemble_spec(es) {
                    None => r == Err::<(PartModel, Vec<String>), ReconError>(
                        ReconError::DanglingEdge,
                    ),
                    Some(chains) => match resolve::last_enclosing(chains, chains.len() as int) {
                        None => r == Err::<(PartModel, Vec<String>), ReconError>(
                            ReconError::NoEnclosingBoundary,
                        ),
                        Some(ci) => {
                            &&& r matches Ok((m, skipped))
                            &&& m.outer_bound.edges@ == resolve::orient_pos_of(chains[ci])
                            &&& m.outer_bound.wf()
                            &&& m.inner_bounds@.len() == chains.len() - 1
                            &&& forall|j: int|
                                0 <= j < m.inner_bounds@.len() ==> (#[trigger] m.inner_bounds@[j]).edges@
                                    == resolve::orient_neg_of(resolve::removed_at(chains, ci)[j])
                            &&& forall|j: int|
                                0 <= j < m.inner_bounds@.len() ==> (#[trigger] m.inner_bounds@[j]).wf()
                            &&& note_views(skipped@) == notes
                        },
                    },
                },
            },
    {
        let mut store = PointStore::new();
        let mut edges: Vec<EdgeHandle> = Vec::new();
        let mut notes: Vec<String> = Vec::new();
        let n: usize = entities.len();
        let mut i: usize = 0;
        proof {
            assert(note_views(notes@) =~= Seq::<Seq<char>>::empty());
        }
        while i < n
            invariant
                0 <= i <= n,
                build_spec(entities@, i as int) == Some((store@, edges@, note_views(notes@))),
            decreases n - i,
        {
            let ghost notes_before = notes@;
            match EdgeHandle::from_entity(&mut store, &entities[i]) {
                Err(e) => {
                    proof {
                        assert(build_spec(entities@, i + 1) is None);
                        lemma_build_none_sticks(entities@, i + 1, entities@.len() as int);
                    }
                    return Err(e);
                },
                Ok(Some(h)) => {
                    edges.push(h);
                },
                Ok(None) => {
                    match geom::classify_entity(&entities[i]) {
                        geom::Prim::Other(s) => {
                            notes.push(s);
                            proof {
                                assert(note_views(notes@) =~= note_views(notes_before).push(
                                    notes@.last()@,
                                ));
                            }
                        },
                        _ => {},
                    }
                },
            }
            i = i + 1;
        }
        let bounds = match assemble::assemble(edges) {
            Ok(bs) => bs,
            Err(e) => {
                return Err(e);
            },
        };
        let ghost chains = assemble::chain_views(bounds@);
        proof {
            assert forall|k: int| 0 <= k < chains.len() implies bound::closed_loop(
                #[trigger] chains[k],
            ) by {
                assert(chains[k] == bounds@[k].edges@);
            }
        }
        let (outer, inners) = match resolve::resolve(bounds) {
            Ok(pair) => pair,
            Err(e) => {
                return Err(e);
            },
        };
        proof {
            let ci = resolve::last_enclosing(chains, chains.len() as int).unwrap();
            resolve::lemma_last_enclosing_range(chains, chains.len() as int);
            resolve::lemma_orient_preserves_closure(chains[ci]);
            let rest = resolve::removed_at(chains, ci);
            assert forall|j: int| 0 <= j < inners@.len() implies bound::closed_loop(
                (#[trigger] inners@[j]).edges@,
            ) by {
                assert(inners@[j].edges@ == resolve::orient_neg_of(rest[j]));
                assert(bound::closed_loop(rest[j])) by {
                    if j == ci {
                        assert(rest[j] == chains[chains.len() - 1]);
                    } else {
                        assert(rest[j] == chains[j]);
                    }
                }
                resolve::lemma_orient_preserves_closure(rest[j]);
            }
        }
        Ok((PartModel { outer_bound: outer, inner_bounds: inners }, notes))
    }
}

} // verus!
