//! Edge annotations.
//!
//! Each edge of a reconstructed boundary can carry a mark: whether it is
//! currently selected, and an annotation — a constraint on the axes or an
//! applied force.  Force components are carried as the numeral text they
//! will be written out with; turning user input into that text is the
//! caller's concern.

use vstd::prelude::*;

use crate::bound::Boundary;
use crate::edge::EdgeHandle;
use crate::model::PartModel;

verus! {

/// What an edge is annotated with.
#[derive(Clone, PartialEq, Debug)]
pub enum Annotation {
    Empty,
    /// Constrained in x and/or in y.
    Constraint(bool, bool),
    /// A force, as the numeral texts of its x and y components.
    Force(String, String),
}

/// What a constraint text means: `x`, `y` or `xy`, nothing else.
pub open spec fn spec_parse_constraint(s: Seq<char>) -> Option<Annotation> {
    if s == "x"@ {
        Some(Annotation::Constraint(true, false))
    } else if s == "y"@ {
        Some(Annotation::Constraint(false, true))
    } else if s == "xy"@ {
        Some(Annotation::Constraint(true, true))
    } else {
        None
    }
}

fn str_eq(a: &str, b: &str) -> (r: bool)
    ensures
        r == (a@ == b@),
{
    let sa = a.to_owned();
    let sb = b.to_owned();
    sa == sb
}

impl Annotation {
    /// A copy equal to the annotation.
    pub fn duplicate(&self) -> (r: Annotation)
        ensures
            r == *self,
    {
        match self {
            Annotation::Empty => Annotation::Empty,
            Annotation::Constraint(x, y) => Annotation::Constraint(*x, *y),
            Annotation::Force(x, y) => Annotation::Force(x.clone(), y.clone()),
        }
    }

    /// Parses a constraint annotation: `x`, `y` or `xy`.
    pub fn parse_constraint(x: &str) -> (r: Option<Annotation>)
        ensures
            r == spec_parse_constraint(x@),
    {
        if str_eq(x, "x") {
            Some(Annotation::Constraint(true, false))
        } else if str_eq(x, "y") {
            Some(Annotation::Constraint(false, true))
        } else if str_eq(x, "xy") {
            Some(Annotation::Constraint(true, true))
        } else {
            None
        }
    }
}

/// Whether an edge is currently selected.
#[derive(PartialEq, Eq, Structural, Clone, Copy, Debug)]
pub enum Interaction {
    Ignored,
    Clicked,
}

/// One edge's annotation state.
#[derive(Clone, Debug)]
pub struct Mark {
    pub annot: Annotation,
    pub inter: Interaction,
}

impl Mark {
    /// A copy equal to the mark.
    pub fn duplicate(&self) -> (r: Mark)
        ensures
            r == *self,
    {
        Mark { annot: self.annot.duplicate(), inter: self.inter }
    }

    /// Selects the edge.
    pub fn click(&mut self)
        ensures
            final(self).inter == Interaction::Clicked,
            final(self).annot == old(self).annot,
    {
        self.inter = Interaction::Clicked;
    }

    /// Annotates the edge.
    pub fn annotate(&mut self, annot: Annotation)
        ensures
            final(self).annot == annot,
            final(self).inter == old(self).inter,
    {
        self.annot = annot;
    }

    /// Whether the edge is selected.
    pub fn is_clicked(&self) -> (r: bool)
        ensures
            r == (self.inter is Clicked),
    {
        self.inter == Interaction::Clicked
    }

    /// Whether the edge carries a force annotation.
    pub fn is_force(&self) -> (r: bool)
        ensures
            r == (self.annot is Force),
    {
        match self.annot {
            Annotation::Force(_, _) => true,
            _ => false,
        }
    }

    /// Whether the edge carries a constraint annotation.
    pub fn is_constraint(&self) -> (r: bool)
        ensures
            r == (self.annot is Constraint),
    {
        match self.annot {
            Annotation::Constraint(_, _) => true,
            _ => false,
        }
    }
}

impl Default for Mark {
    /// An untouched edge: no annotation, not selected.
    fn default() -> (r: Mark)
        ensures
            r.annot == Annotation::Empty,
            r.inter == Interaction::Ignored,
    {
        Mark { annot: Annotation::Empty, inter: Interaction::Ignored }
    }
}

/// The mark after a round of annotating the selection: a selected edge
/// takes the new annotation, any other keeps its mark.
pub open spec fn annotated(m: Mark, annot: Annotation) -> Mark {
    if m.inter is Clicked {
        Mark { annot: annot, inter: m.inter }
    } else {
        m
    }
}

/// The edge-and-mark pairs that a round of annotating the selection
/// reports: one pair, in order, for each selected edge among the first
/// `k`, carrying its new mark.
pub open spec fn selected(edges: Seq<EdgeHandle>, marks: Seq<Mark>, annot: Annotation, k: int) -> Seq<
    (EdgeHandle, Mark),
>
    decreases k,
{
    if k <= 0 {
        Seq::empty()
    } else if marks[k - 1].inter is Clicked {
        selected(edges, marks, annot, k - 1).push((edges[k - 1], annotated(marks[k - 1], annot)))
    } else {
        selected(edges, marks, annot, k - 1)
    }
}

/// The edge-and-mark pairs a round of annotating reports across the
/// first `k` boundaries of a model, in order.
pub open spec fn model_selected(bs: Seq<MarkedBound>, annot: Annotation, k: int) -> Seq<
    (EdgeHandle, Mark),
>
    decreases k,
{
    if k <= 0 {
        Seq::empty()
    } else {
        model_selected(bs, annot, k - 1) + selected(
            bs[k - 1].bound.edges@,
            bs[k - 1].marks@,
            annot,
            bs[k - 1].marks@.len() as int,
        )
    }
}

/// A boundary with a mark per edge.
#[derive(Clone, Debug)]
pub struct MarkedBound {
    pub bound: Boundary,
    pub marks: Vec<Mark>,
}

impl MarkedBound {
    /// A boundary with every edge untouched.
    pub fn from_bound(bound: Boundary) -> (r: MarkedBound)
        ensures
            r.bound == bound,
            r.marks@.len() == bound.edges@.len(),
            forall|i: int|
                0 <= i < r.marks@.len() ==> (#[trigger] r.marks@[i]).annot == Annotation::Empty
                    && r.marks@[i].inter == Interaction::Ignored,
    {
        let n: usize = bound.edges.len();
        let mut marks: Vec<Mark> = Vec::new();
        let mut i: usize = 0;
        while i < n
            invariant
                0 <= i <= n,
                marks@.len() == i,
                forall|k: int|
                    0 <= k < i ==> (#[trigger] marks@[k]).annot == Annotation::Empty
                        && marks@[k].inter == Interaction::Ignored,
            decreases n - i,
        {
            marks.push(Mark::default());
            i = i + 1;
        }
        MarkedBound { bound, marks }
    }

    /// Rebuilds a marked boundary from its parts.
    pub fn from_edges_and_marks(edges: Vec<EdgeHandle>, marks: Vec<Mark>) -> (r: MarkedBound)
        ensures
            r.bound.edges == edges,
            r.marks == marks,
    {
        MarkedBound { bound: Boundary { edges }, marks }
    }

    /// The boundary's edges paired with their marks, in order.
    pub fn edges_and_marks(&self) -> (r: Vec<(EdgeHandle, Mark)>)
        requires
            self.marks@.len() == self.bound.edges@.len(),
        ensures
            r@.len() == self.bound.edges@.len(),
            forall|i: int|
                0 <= i < r@.len() ==> #[trigger] r@[i] == (self.bound.edges@[i], self.marks@[i]),
    {
        let n: usize = self.bound.edges.len();
        let mut r: Vec<(EdgeHandle, Mark)> = Vec::new();
        let mut i: usize = 0;
        while i < n
            invariant
                0 <= i <= n,
                n == self.bound.edges@.len(),
                n == self.marks@.len(),
                r@.len() == i,
                forall|k: int|
                    0 <= k < i ==> #[trigger] r@[k] == (self.bound.edges@[k], self.marks@[k]),
            decreases n - i,
        {
            r.push((self.bound.edges[i], self.marks[i].duplicate()));
            i = i + 1;
        }
        r
    }

    /// Splits the marked boundary into its parts.
    pub fn into_parts(self) -> (r: (Boundary, Vec<Mark>))
        ensures
            r.0 == self.bound,
            r.1 == self.marks,
    {
        (self.bound, self.marks)
    }

    /// Selects the edge at `i` and reports it with its mark.
    pub fn click_at(&mut self, i: usize) -> (r: (EdgeHandle, Mark))
        requires
            i < old(self).marks@.len(),
            i < old(self).bound.edges@.len(),
        ensures
            final(self).bound == old(self).bound,
            final(self).marks@.len() == old(self).marks@.len(),
            (final(self).marks@[i as int]) == (Mark {
                annot: old(self).marks@[i as int].annot,
                inter: Interaction::Clicked,
            }),
            forall|k: int|
                0 <= k < old(self).marks@.len() && k != i ==> final(self).marks@[k] == old(
                    self,
                ).marks@[k],
            r.0 == old(self).bound.edges@[i as int],
            r.1 == final(self).marks@[i as int],
    {
        let mut m = self.marks.remove(i);
        m.click();
        let picked = m.duplicate();
        self.marks.insert(i, m);
        (self.bound.edges[i], picked)
    }

    /// Annotates every selected edge and reports the affected edges with
    /// their new marks, in order.
    pub fn annotate_clicked(&mut self, annot: Annotation) -> (r: Vec<(EdgeHandle, Mark)>)
        requires
            old(self).marks@.len() == old(self).bound.edges@.len(),
        ensures
            final(self).bound == old(self).bound,
            final(self).marks@.len() == old(self).marks@.len(),
            forall|k: int|
                0 <= k < old(self).marks@.len() ==> final(self).marks@[k] == annotated(
                    #[trigger] old(self).marks@[k],
                    annot,
                ),
            r@ == selected(
                old(self).bound.edges@,
                old(self).marks@,
                annot,
                old(self).marks@.len() as int,
            ),
    {
        let ghost marks0 = self.marks@;
        let n: usize = self.marks.len();
        let mut r: Vec<(EdgeHandle, Mark)> = Vec::new();
        let mut i: usize = 0;
        while i < n
            invariant
                0 <= i <= n,
                n == self.marks@.len(),
                n == self.bound.edges@.len(),
                self.bound == old(self).bound,
                marks0 == old(self).marks@,
                self.marks@.len() == marks0.len(),
                forall|k: int|
                    0 <= k < i ==> self.marks@[k] == annotated(#[trigger] marks0[k], annot),
                forall|k: int| i <= k < n ==> self.marks@[k] == marks0[k],
                r@ == selected(self.bound.edges@, marks0, annot, i as int),
            decreases n - i,
        {
            if self.marks[i].is_clicked() {
                let mut m = self.marks.remove(i);
                m.annotate(annot.duplicate());
                let md = m.duplicate();
                self.marks.insert(i, m);
                r.push((self.bound.edges[i], md));
            }
            i = i + 1;
        }
        r
    }

    /// Deselects every edge, keeping the annotations.
    pub fn clear_interactions(&mut self)
        ensures
            final(self).bound == old(self).bound,
            final(self).marks@.len() == old(self).marks@.len(),
            forall|k: int|
                0 <= k < old(self).marks@.len() ==> final(self).marks@[k] == (Mark {
                    annot: (#[trigger] old(self).marks@[k]).annot,
                    inter: Interaction::Ignored,
                }),
    {
        let ghost marks0 = self.marks@;
        let n: usize = self.marks.len();
        let mut i: usize = 0;
        while i < n
            invariant
                0 <= i <= n,
                self.marks@.len() == n,
                self.bound == old(self).bound,
                marks0 == old(self).marks@,
                forall|k: int|
                    0 <= k < i ==> self.marks@[k] == (Mark {
                        annot: (#[trigger] marks0[k]).annot,
                        inter: Interaction::Ignored,
                    }),
                forall|k: int| i <= k < n ==> self.marks@[k] == marks0[k],
            decreases n - i,
        {
            let mut m = self.marks.remove(i);
            m.inter = Interaction::Ignored;
            self.marks.insert(i, m);
            i = i + 1;
        }
    }
}

/// A whole model with a mark per edge: the outer boundary first, then the
/// holes.
#[derive(Clone, Debug)]
pub struct MarkedModel(pub Vec<MarkedBound>);

impl MarkedModel {
    /// Marks a freshly reconstructed model: outer boundary first, every
    /// edge untouched.
    pub fn from_model(model: PartModel) -> (r: MarkedModel)
        ensures
            r.0@.len() == 1 + model.inner_bounds@.len(),
            r.0@[0].bound.edges@ == model.outer_bound.edges@,
            forall|i: int|
                1 <= i < r.0@.len() ==> (#[trigger] r.0@[i]).bound.edges@
                    == model.inner_bounds@[i - 1].edges@,
            forall|i: int|
                0 <= i < r.0@.len() ==> (#[trigger] r.0@[i]).marks@.len()
                    == r.0@[i].bound.edges@.len(),
    {
        let mut res: Vec<MarkedBound> = Vec::new();
        res.push(MarkedBound::from_bound(model.outer_bound));
        let inners = model.inner_bounds;
        let n: usize = inners.len();
        let mut i: usize = 0;
        while i < n
            invariant
                0 <= i <= n,
                n == inners@.len(),
                res@.len() == 1 + i,
                res@[0].bound.edges@ == model.outer_bound.edges@,
                forall|k: int|
                    1 <= k < res@.len() ==> (#[trigger] res@[k]).bound.edges@ == inners@[k
                        - 1].edges@,
                forall|k: int|
                    0 <= k < res@.len() ==> (#[trigger] res@[k]).marks@.len()
                        == res@[k].bound.edges@.len(),
            decreases n - i,
        {
            res.push(MarkedBound::from_bound(inners[i].duplicate()));
            i = i + 1;
        }
        MarkedModel(res)
    }

    /// The marked boundaries, outer first.
    pub fn bounds(&self) -> (r: &Vec<MarkedBound>)
        ensures
            r == &self.0,
    {
        &self.0
    }

    /// Selects the edge `ei` of boundary `bi` and reports it with its
    /// mark.
    pub fn click_at(&mut self, bi: usize, ei: usize) -> (r: (EdgeHandle, Mark))
        requires
            bi < old(self).0@.len(),
            ei < old(self).0@[bi as int].marks@.len(),
            ei < old(self).0@[bi as int].bound.edges@.len(),
        ensures
            final(self).0@.len() == old(self).0@.len(),
            forall|k: int| 0 <= k < old(self).0@.len() && k != bi ==> final(self).0@[k] == old(
                self,
            ).0@[k],
            final(self).0@[bi as int].bound == old(self).0@[bi as int].bound,
            final(self).0@[bi as int].marks@ == old(self).0@[bi as int].marks@.update(
                ei as int,
                (Mark {
                    annot: old(self).0@[bi as int].marks@[ei as int].annot,
                    inter: Interaction::Clicked,
                }),
            ),
            r.0 == old(self).0@[bi as int].bound.edges@[ei as int],
            r.1 == final(self).0@[bi as int].marks@[ei as int],
    {
        let mut b = self.0.remove(bi);
        let r = b.click_at(ei);
        self.0.insert(bi, b);
        proof {
            assert(self.0@[bi as int].marks@ =~= old(self).0@[bi as int].marks@.update(
                ei as int,
                (Mark {
                    annot: old(self).0@[bi as int].marks@[ei as int].annot,
                    inter: Interaction::Clicked,
                }),
            ));
        }
        r
    }

    /// Annotates every selected edge of every boundary and reports the
    /// affected edges with their new marks, boundary by boundary.
    pub fn annotate_clicked(&mut self, annot: Annotation) -> (r: Vec<(EdgeHandle, Mark)>)
        requires
            forall|i: int|
                0 <= i < old(self).0@.len() ==> (#[trigger] old(self).0@[i]).marks@.len() == old(
                    self,
                ).0@[i].bound.edges@.len(),
        ensures
            final(self).0@.len() == old(self).0@.len(),
            forall|i: int|
                0 <= i < old(self).0@.len() ==> {
                    &&& (#[trigger] final(self).0@[i]).bound == old(self).0@[i].bound
                    &&& final(self).0@[i].marks@.len() == old(self).0@[i].marks@.len()
                    &&& forall|k: int|
                        0 <= k < old(self).0@[i].marks@.len() ==> final(self).0@[i].marks@[k]
                            == annotated(#[trigger] old(self).0@[i].marks@[k], annot)
                },
            r@ == model_selected(old(self).0@, annot, old(self).0@.len() as int),
    {
        let n: usize = self.0.len();
        let ghost bs0 = self.0@;
        let mut r: Vec<(EdgeHandle, Mark)> = Vec::new();
        let mut i: usize = 0;
        while i < n
            invariant
                0 <= i <= n,
                self.0@.len() == n,
                bs0 == old(self).0@,
                forall|i2: int|
                    0 <= i2 < n ==> (#[trigger] bs0[i2]).marks@.len() == bs0[i2].bound.edges@.len(),
                forall|k: int| i <= k < n ==> self.0@[k] == bs0[k],
                forall|j: int|
                    0 <= j < i ==> {
                        &&& (#[trigger] self.0@[j]).bound == bs0[j].bound
                        &&& self.0@[j].marks@.len() == bs0[j].marks@.len()
                        &&& forall|k: int|
                            0 <= k < bs0[j].marks@.len() ==> self.0@[j].marks@[k] == annotated(
                                #[trigger] bs0[j].marks@[k],
                                annot,
                            )
                    },
                r@ == model_selected(bs0, annot, i as int),
            decreases n - i,
        {
            let mut b = self.0.remove(i);
            proof {
                assert(b == bs0[i as int]);
            }
            let mut part = b.annotate_clicked(annot.duplicate());
            self.0.insert(i, b);
            r.append(&mut part);
            i = i + 1;
        }
        r
    }

    /// Deselects every edge of every boundary.
    pub fn clear_interactions(&mut self)
        ensures
            final(self).0@.len() == old(self).0@.len(),
            forall|i: int|
                0 <= i < old(self).0@.len() ==> {
                    &&& (#[trigger] final(self).0@[i]).bound == old(self).0@[i].bound
                    &&& final(self).0@[i].marks@.len() == old(self).0@[i].marks@.len()
                    &&& forall|k: int|
                        0 <= k < old(self).0@[i].marks@.len() ==> final(self).0@[i].marks@[k]
                            == (Mark {
                            annot: (#[trigger] old(self).0@[i].marks@[k]).annot,
                            inter: Interaction::Ignored,
                        })
                },
    {
        let n: usize = self.0.len();
        let ghost bs0 = self.0@;
        let mut i: usize = 0;
        while i < n
            invariant
                0 <= i <= n,
                self.0@.len() == n,
                bs0 == old(self).0@,
                forall|k: int| i <= k < n ==> self.0@[k] == bs0[k],
                forall|j: int|
                    0 <= j < i ==> {
                        &&& (#[trigger] self.0@[j]).bound == bs0[j].bound
                        &&& self.0@[j].marks@.len() == bs0[j].marks@.len()
                        &&& forall|k: int|
                            0 <= k < bs0[j].marks@.len() ==> self.0@[j].marks@[k] == (Mark {
                                annot: (#[trigger] bs0[j].marks@[k]).annot,
                                inter: Interaction::Ignored,
                            })
                    },
            decreases n - i,
        {
            let mut b = self.0.remove(i);
            b.clear_interactions();
            self.0.insert(i, b);
            i = i + 1;
        }
    }
}

} // verus!
