//! Point deduplication store.
//!
//! Resolves raw coordinates into dense integer point identities.  A probe
//! coordinate within the drawing tolerance of an already stored coordinate
//! receives the stored coordinate's identity (the first such, in insertion
//! order); otherwise it is stored and receives the next fresh identity.
//! Identities start at zero and are never reassigned or merged.
//!
//! The lookup scans every stored point, which is quadratic over a whole
//! load; correctness of the tolerance merge is preferred here over
//! asymptotic efficiency, and two points that are each within tolerance of
//! a common third may deliberately coalesce through it (chained tolerance).

use vstd::prelude::*;

use crate::geom;

verus! {

/// A stable identity for a deduplicated coordinate.
#[derive(PartialEq, Eq, Structural, Hash, Clone, Copy, Debug)]
pub struct PointId(pub usize);

/// The session's coordinate store; owns every deduplicated point.
#[derive(Debug)]
pub struct PointStore {
    pts: Vec<kurbo::Point>,
}

impl View for PointStore {
    type V = Seq<kurbo::Point>;

    closed spec fn view(&self) -> Seq<kurbo::Point> {
        self.pts@
    }
}

/// The first index at or after `i` whose stored point is within tolerance
/// of `p`, if any.
pub open spec fn first_hit_from(pts: Seq<kurbo::Point>, p: kurbo::Point, i: int) -> Option<int>
    decreases pts.len() - i when 0 <= i <= pts.len()
{
    if i >= pts.len() {
        None
    } else if geom::near(pts[i], p) {
        Some(i)
    } else {
        first_hit_from(pts, p, i + 1)
    }
}

/// The identity that inserting `p` into a store holding `pts` yields.
pub open spec fn insert_id(pts: Seq<kurbo::Point>, p: kurbo::Point) -> int {
    match first_hit_from(pts, p, 0) {
        Some(j) => j,
        None => pts.len() as int,
    }
}

/// The store contents after inserting `p`.
pub open spec fn insert_pts(pts: Seq<kurbo::Point>, p: kurbo::Point) -> Seq<kurbo::Point> {
    match first_hit_from(pts, p, 0) {
        Some(_) => pts,
        None => pts.push(p),
    }
}

proof fn lemma_first_hit_skip(pts: Seq<kurbo::Point>, p: kurbo::Point, i: int)
    requires
        0 <= i <= pts.len(),
        forall|k: int| 0 <= k < i ==> !geom::near(#[trigger] pts[k], p),
    ensures
        first_hit_from(pts, p, 0) == first_hit_from(pts, p, i),
    decreases i,
{
    if i > 0 {
        lemma_first_hit_skip(pts, p, i - 1);
        assert(first_hit_from(pts, p, i - 1) == first_hit_from(pts, p, i));
    }
}

impl PointStore {
    /// An empty store: no identities assigned yet.
    pub fn new() -> (s: Self)
        ensures
            s@ == Seq::<kurbo::Point>::empty(),
    {
        PointStore { pts: Vec::new() }
    }

    /// The identity the next fresh point would receive.
    fn next_id(&self) -> (id: PointId)
        ensures
            id.0 == self@.len(),
    {
        PointId(self.pts.len())
    }

    /// Returns the identity of a stored point within tolerance of `p` (the
    /// first such, in insertion order), or stores `p` under a fresh dense
    /// identity.  Every coordinate is accepted.
    pub fn id_or_insert(&mut self, p: kurbo::Point) -> (id: PointId)
        ensures
            id.0 as int == insert_id(old(self)@, p),
            final(self)@ == insert_pts(old(self)@, p),
    {
        let n: usize = self.pts.len();
        let mut i: usize = 0;
        while i < n
            invariant
                0 <= i <= n,
                n == self@.len(),
                forall|k: int| 0 <= k < i ==> !geom::near(#[trigger] self@[k], p),
            decreases n - i,
        {
            if geom::points_near(&self.pts[i], &p) {
                proof {
                    lemma_first_hit_skip(self@, p, i as int);
                }
                return PointId(i);
            }
            i = i + 1;
        }
        proof {
            lemma_first_hit_skip(self@, p, n as int);
        }
        let id = self.next_id();
        self.pts.push(p);
        id
    }

    /// Every identity assigned so far, in insertion order.
    pub fn all_ids(&self) -> (ids: Vec<PointId>)
        ensures
            ids@.len() == self@.len(),
            forall|k: int| 0 <= k < ids@.len() ==> (#[trigger] ids@[k]).0 == k,
    {
        let mut ids: Vec<PointId> = Vec::new();
        let n: usize = self.pts.len();
        let mut i: usize = 0;
        while i < n
            invariant
                0 <= i <= n,
                ids@.len() == i,
                forall|k: int| 0 <= k < i ==> (#[trigger] ids@[k]).0 == k,
            decreases n - i,
        {
            ids.push(PointId(i));
            i = i + 1;
        }
        ids
    }

    /// The stored coordinate of an identity.
    pub fn point_of(&self, id: PointId) -> (p: kurbo::Point)
        requires
            id.0 < self@.len(),
        ensures
            p == self@[id.0 as int],
    {
        self.pts[id.0]
    }
}

/// Dedup idempotence, same coordinate: inserting `p` and then `p` again
/// yields the same identity both times and leaves the store as the first
/// insertion left it.  Holds whenever the kernel reports `p` as within
/// tolerance of itself, which it does for every finite coordinate.
pub proof fn lemma_dedup_idempotent(pts: Seq<kurbo::Point>, p: kurbo::Point)
    requires
        geom::near(p, p),
    ensures
        insert_id(insert_pts(pts, p), p) == insert_id(pts, p),
        insert_pts(insert_pts(pts, p), p) == insert_pts(pts, p),
{
    match first_hit_from(pts, p, 0) {
        Some(j) => {},
        None => {
            let pts1 = pts.push(p);
            lemma_first_hit_none(pts, p);
            assert forall|k: int| 0 <= k < pts.len() implies !geom::near(
                #[trigger] pts1[k],
                p,
            ) by {}
            lemma_first_hit_skip(pts1, p, pts.len() as int);
            assert(pts1[pts.len() as int] == p);
            assert(first_hit_from(pts1, p, pts.len() as int) == Some(pts.len() as int));
        },
    }
}

/// Dedup idempotence, within tolerance: if `q` is within tolerance of `p`
/// but of no point stored before `p`, inserting `p` (freshly) and then `q`
/// yields the same identity for both and stores nothing new for `q`.
pub proof fn lemma_dedup_merges_near(pts: Seq<kurbo::Point>, p: kurbo::Point, q: kurbo::Point)
    requires
        geom::near(p, q),
        forall|k: int| 0 <= k < pts.len() ==> !geom::near(#[trigger] pts[k], p),
        forall|k: int| 0 <= k < pts.len() ==> !geom::near(#[trigger] pts[k], q),
    ensures
        insert_id(pts, p) == pts.len(),
        insert_id(insert_pts(pts, p), q) == insert_id(pts, p),
        insert_pts(insert_pts(pts, p), q) == insert_pts(pts, p),
{
    lemma_first_hit_skip(pts, p, pts.len() as int);
    let pts1 = pts.push(p);
    assert forall|k: int| 0 <= k < pts.len() implies !geom::near(#[trigger] pts1[k], q) by {}
    lemma_first_hit_skip(pts1, q, pts.len() as int);
    assert(pts1[pts.len() as int] == p);
    assert(first_hit_from(pts1, q, pts.len() as int) == Some(pts.len() as int));
}

/// A coordinate farther than the tolerance from every stored point is
/// assigned a fresh, previously unused identity: the store's size, one
/// past every identity assigned so far.
pub proof fn lemma_dedup_fresh(pts: Seq<kurbo::Point>, p: kurbo::Point)
    requires
        forall|k: int| 0 <= k < pts.len() ==> !geom::near(#[trigger] pts[k], p),
    ensures
        insert_id(pts, p) == pts.len(),
        insert_pts(pts, p) == pts.push(p),
{
    lemma_first_hit_skip(pts, p, pts.len() as int);
}

proof fn lemma_first_hit_none(pts: Seq<kurbo::Point>, p: kurbo::Point)
    requires
        first_hit_from(pts, p, 0) is None,
    ensures
        forall|k: int| 0 <= k < pts.len() ==> !geom::near(#[trigger] pts[k], p),
{
    assert forall|k: int| 0 <= k < pts.len() implies !geom::near(#[trigger] pts[k], p) by {
        lemma_first_hit_reaches(pts, p, 0, k);
    }
}

proof fn lemma_first_hit_reaches(pts: Seq<kurbo::Point>, p: kurbo::Point, i: int, k: int)
    requires
        0 <= i <= k < pts.len(),
        first_hit_from(pts, p, i) is None,
    ensures
        !geom::near(pts[k], p),
    decreases k - i,
{
    if i < k {
        lemma_first_hit_reaches(pts, p, i + 1, k);
    }
}

} // verus!
