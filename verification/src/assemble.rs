//! Boundary-loop assembly.
//!
//! Consumes the unordered pool of directed edges and partitions it into
//! closed loops.  One loop at a time: take the last edge of the pool to
//! start a chain, then repeatedly find the first pooled edge that can be
//! oriented to start where the chain currently ends (removing it from the
//! pool by swapping in the pool's last edge), until the chain ends where
//! it started.  If the chain's open end matches no pooled edge, the whole
//! load fails: the input has an open boundary.
//!
//! At a point where more than two edges meet, "the first match in pool
//! order" is a deliberate simplicity choice: such inputs are outside the
//! supported class and yield an arbitrary loop.

use vstd::prelude::*;

use crate::bound;
use crate::bound::Boundary;
use crate::edge::EdgeHandle;
use crate::err::ReconError;
use crate::store::PointId;

verus! {

/// The edge can be oriented to start at `id`.
pub open spec fn can_start(h: EdgeHandle, id: PointId) -> bool {
    h.p_id == id || h.q_id == id
}

/// The edge as oriented to start at `id` (forward preferred).
pub open spec fn oriented(h: EdgeHandle, id: PointId) -> EdgeHandle {
    if h.p_id == id {
        h
    } else {
        h.spec_reversed()
    }
}

/// The pool after removing index `j` by swapping the last edge into its
/// place.
pub open spec fn swap_removed(pool: Seq<EdgeHandle>, j: int) -> Seq<EdgeHandle> {
    pool.update(j, pool.last()).drop_last()
}

/// The edge sequences of a sequence of boundaries.
pub open spec fn chain_views(bs: Seq<Boundary>) -> Seq<Seq<EdgeHandle>> {
    bs.map_values(|b: Boundary| b.edges@)
}

/// The first pool index at or after `i` whose edge can start at `id`.
pub open spec fn find_from(pool: Seq<EdgeHandle>, id: PointId, i: int) -> Option<int>
    decreases pool.len() - i when 0 <= i <= pool.len()
{
    if i >= pool.len() {
        None
    } else if can_start(pool[i], id) {
        Some(i)
    } else {
        find_from(pool, id, i + 1)
    }
}

proof fn lemma_find_from_range(pool: Seq<EdgeHandle>, id: PointId, i: int, j: int)
    requires
        0 <= i <= pool.len(),
        find_from(pool, id, i) == Some(j),
    ensures
        i <= j < pool.len(),
        can_start(pool[j], id),
    decreases pool.len() - i,
{
    if i < pool.len() && !can_start(pool[i], id) {
        lemma_find_from_range(pool, id, i + 1, j);
    }
}

proof fn lemma_find_from_skip(pool: Seq<EdgeHandle>, id: PointId, i: int)
    requires
        0 <= i <= pool.len(),
        forall|k: int| 0 <= k < i ==> !can_start(#[trigger] pool[k], id),
    ensures
        find_from(pool, id, 0) == find_from(pool, id, i),
    decreases i,
{
    if i > 0 {
        lemma_find_from_skip(pool, id, i - 1);
        assert(find_from(pool, id, i - 1) == find_from(pool, id, i));
    }
}

/// One loop grown to closure: starting from `chain` (whose closing target
/// is `first`), the chain and the leftover pool once the chain closes, or
/// nothing if it dangles.
pub open spec fn grow_spec(chain: Seq<EdgeHandle>, first: PointId, pool: Seq<EdgeHandle>) -> Option<
    (Seq<EdgeHandle>, Seq<EdgeHandle>),
>
    decreases pool.len()
        via grow_spec_dec
{
    if chain.last().q_id == first {
        Some((chain, pool))
    } else {
        match find_from(pool, chain.last().q_id, 0) {
            None => None,
            Some(j) => grow_spec(
                chain.push(oriented(pool[j], chain.last().q_id)),
                first,
                swap_removed(pool, j),
            ),
        }
    }
}

#[via_fn]
proof fn grow_spec_dec(chain: Seq<EdgeHandle>, first: PointId, pool: Seq<EdgeHandle>) {
    if chain.last().q_id != first {
        match find_from(pool, chain.last().q_id, 0) {
            None => {},
            Some(j) => {
                lemma_find_from_range(pool, chain.last().q_id, 0, j);
            },
        }
    }
}

/// The whole assembly: the closed loops extracted from `pool`, in the
/// order the algorithm produces them, or nothing if some loop dangles.
pub open spec fn assemble_spec(pool: Seq<EdgeHandle>) -> Option<Seq<Seq<EdgeHandle>>>
    decreases pool.len()
        via assemble_spec_dec
{
    if pool.len() == 0 {
        Some(Seq::empty())
    } else {
        let start = pool.last();
        match grow_spec(seq![start], start.p_id, pool.drop_last()) {
            None => None,
            Some((chain, rest)) => match assemble_spec(rest) {
                None => None,
                Some(chains) => Some(seq![chain] + chains),
            },
        }
    }
}

proof fn lemma_grow_rest_len(chain: Seq<EdgeHandle>, first: PointId, pool: Seq<EdgeHandle>)
    requires
        grow_spec(chain, first, pool) is Some,
    ensures
        grow_spec(chain, first, pool).unwrap().1.len() <= pool.len(),
    decreases pool.len(),
{
    if chain.last().q_id != first {
        match find_from(pool, chain.last().q_id, 0) {
            None => {},
            Some(j) => {
                lemma_find_from_range(pool, chain.last().q_id, 0, j);
                lemma_grow_rest_len(
                    chain.push(oriented(pool[j], chain.last().q_id)),
                    first,
                    swap_removed(pool, j),
                );
            },
        }
    }
}

#[via_fn]
proof fn assemble_spec_dec(pool: Seq<EdgeHandle>) {
    if pool.len() != 0 {
        let start = pool.last();
        if grow_spec(seq![start], start.p_id, pool.drop_last()) is Some {
            lemma_grow_rest_len(seq![start], start.p_id, pool.drop_last());
        }
    }
}

/// A grown chain is closed: it stays linked, starts where `chain` does,
/// and ends at `first`.
proof fn lemma_grow_closed(chain: Seq<EdgeHandle>, first: PointId, pool: Seq<EdgeHandle>)
    requires
        chain.len() >= 1,
        bound::linked(chain),
        chain[0].p_id == first,
        grow_spec(chain, first, pool) is Some,
    ensures
        bound::closed_loop(grow_spec(chain, first, pool).unwrap().0),
    decreases pool.len(),
{
    if chain.last().q_id == first {
        assert(bound::closed_loop(chain));
    } else {
        let id = chain.last().q_id;
        match find_from(pool, id, 0) {
            None => {},
            Some(j) => {
                lemma_find_from_range(pool, id, 0, j);
                let next = oriented(pool[j], id);
                assert(next.p_id == id);
                let chain2 = chain.push(next);
                assert(bound::linked(chain2)) by {
                    assert forall|i: int|
                        0 <= i < chain2.len() - 1 implies (#[trigger] chain2[i]).q_id == chain2[i
                        + 1].p_id by {
                        if i < chain.len() - 1 {
                            assert(chain2[i] == chain[i]);
                            assert(chain2[i + 1] == chain[i + 1]);
                        } else {
                            assert(chain2[i] == chain.last());
                            assert(chain2[i + 1] == next);
                        }
                    }
                }
                lemma_grow_closed(chain2, first, swap_removed(pool, j));
            },
        }
    }
}

/// Loop closure: every boundary the assembler produces is a closed cycle —
/// consecutive edges share their point identities and the last edge ends
/// at the first edge's start.
pub proof fn lemma_assembled_loops_closed(pool: Seq<EdgeHandle>)
    requires
        assemble_spec(pool) is Some,
    ensures
        forall|i: int|
            0 <= i < assemble_spec(pool).unwrap().len() ==> bound::closed_loop(
                #[trigger] assemble_spec(pool).unwrap()[i],
            ),
    decreases pool.len(),
{
    if pool.len() != 0 {
        let start = pool.last();
        match grow_spec(seq![start], start.p_id, pool.drop_last()) {
            None => {},
            Some((chain, rest)) => {
                lemma_grow_closed(seq![start], start.p_id, pool.drop_last());
                lemma_grow_rest_len(seq![start], start.p_id, pool.drop_last());
                lemma_assembled_loops_closed(rest);
                let chains = assemble_spec(rest).unwrap();
                assert forall|i: int|
                    0 <= i < assemble_spec(pool).unwrap().len() implies bound::closed_loop(
                    #[trigger] assemble_spec(pool).unwrap()[i],
                ) by {
                    if i == 0 {
                        assert(assemble_spec(pool).unwrap()[0] == chain);
                    } else {
                        assert(assemble_spec(pool).unwrap()[i] == chains[i - 1]);
                    }
                }
            },
        }
    }
}

/// The total number of edges across a set of loops.
pub open spec fn total_len(chains: Seq<Seq<EdgeHandle>>) -> nat
    decreases chains.len(),
{
    if chains.len() == 0 {
        0
    } else {
        chains.first().len() + total_len(chains.drop_first())
    }
}

proof fn lemma_grow_counts(chain: Seq<EdgeHandle>, first: PointId, pool: Seq<EdgeHandle>)
    requires
        grow_spec(chain, first, pool) is Some,
    ensures
        grow_spec(chain, first, pool).unwrap().0.len() + grow_spec(chain, first, pool).unwrap().1.len()
            == chain.len() + pool.len(),
    decreases pool.len(),
{
    if chain.last().q_id != first {
        match find_from(pool, chain.last().q_id, 0) {
            None => {},
            Some(j) => {
                lemma_find_from_range(pool, chain.last().q_id, 0, j);
                lemma_grow_counts(
                    chain.push(oriented(pool[j], chain.last().q_id)),
                    first,
                    swap_removed(pool, j),
                );
            },
        }
    }
}

/// No edge is lost or invented: the loops the assembler produces hold
/// exactly as many edges as the pool held.
pub proof fn lemma_assembly_conserves_edges(pool: Seq<EdgeHandle>)
    requires
        assemble_spec(pool) is Some,
    ensures
        total_len(assemble_spec(pool).unwrap()) == pool.len(),
    decreases pool.len(),
{
    if pool.len() != 0 {
        let start = pool.last();
        match grow_spec(seq![start], start.p_id, pool.drop_last()) {
            None => {},
            Some((chain, rest)) => {
                lemma_grow_counts(seq![start], start.p_id, pool.drop_last());
                lemma_grow_rest_len(seq![start], start.p_id, pool.drop_last());
                lemma_assembly_conserves_edges(rest);
                let chains = assemble_spec(rest).unwrap();
                let all = seq![chain] + chains;
                assert(all.first() == chain);
                assert(all.drop_first() =~= chains);
            },
        }
    }
}

/// The edge is one of the pool's edges, as it stands or reversed.
pub open spec fn from_pool(e: EdgeHandle, pool: Seq<EdgeHandle>) -> bool {
    exists|j: int|
        0 <= j < pool.len() && ((#[trigger] pool[j]) == e || pool[j] == e.spec_reversed())
}

/// The edge is one of the pool's edges, exactly as it stands.
pub open spec fn among(e: EdgeHandle, pool: Seq<EdgeHandle>) -> bool {
    exists|j: int| 0 <= j < pool.len() && (#[trigger] pool[j]) == e
}

/// Every edge of `sub` is an edge of `pool`.
pub open spec fn edges_among(sub: Seq<EdgeHandle>, pool: Seq<EdgeHandle>) -> bool {
    forall|k: int| 0 <= k < sub.len() ==> among(#[trigger] sub[k], pool)
}

proof fn lemma_swap_removed_among(pool: Seq<EdgeHandle>, j: int)
    requires
        0 <= j < pool.len(),
    ensures
        edges_among(swap_removed(pool, j), pool),
{
    let rest = swap_removed(pool, j);
    assert forall|k: int| 0 <= k < rest.len() implies among(#[trigger] rest[k], pool) by {
        if k == j {
            assert(pool[pool.len() - 1] == rest[k]);
        } else {
            assert(pool[k] == rest[k]);
        }
    }
}

proof fn lemma_among_trans(sub: Seq<EdgeHandle>, mid: Seq<EdgeHandle>, pool: Seq<EdgeHandle>)
    requires
        edges_among(sub, mid),
        edges_among(mid, pool),
    ensures
        edges_among(sub, pool),
{
    assert forall|k: int| 0 <= k < sub.len() implies among(#[trigger] sub[k], pool) by {
        let jm = choose|jm: int| 0 <= jm < mid.len() && (#[trigger] mid[jm]) == sub[k];
        let jp = choose|jp: int| 0 <= jp < pool.len() && (#[trigger] pool[jp]) == mid[jm];
        assert(pool[jp] == sub[k]);
    }
}

proof fn lemma_grow_from_pool(
    chain: Seq<EdgeHandle>,
    first: PointId,
    pool: Seq<EdgeHandle>,
    pool0: Seq<EdgeHandle>,
)
    requires
        grow_spec(chain, first, pool) is Some,
        forall|k: int| 0 <= k < chain.len() ==> from_pool(#[trigger] chain[k], pool0),
        edges_among(pool, pool0),
    ensures
        forall|k: int|
            0 <= k < grow_spec(chain, first, pool).unwrap().0.len() ==> from_pool(
                #[trigger] grow_spec(chain, first, pool).unwrap().0[k],
                pool0,
            ),
        edges_among(grow_spec(chain, first, pool).unwrap().1, pool0),
    decreases pool.len(),
{
    if chain.last().q_id != first {
        let id = chain.last().q_id;
        match find_from(pool, id, 0) {
            None => {},
            Some(j) => {
                lemma_find_from_range(pool, id, 0, j);
                let next = oriented(pool[j], id);
                let chain2 = chain.push(next);
                assert(from_pool(next, pool0)) by {
                    let j0 = choose|j0: int| 0 <= j0 < pool0.len() && (#[trigger] pool0[j0]) == pool[j];
                    if next == pool[j] {
                        assert(pool0[j0] == next);
                    } else {
                        assert(next == pool[j].spec_reversed());
                        assert(next.spec_reversed() == pool[j]);
                        assert(pool0[j0] == next.spec_reversed());
                    }
                }
                assert(forall|k: int|
                    0 <= k < chain2.len() ==> from_pool(#[trigger] chain2[k], pool0));
                lemma_swap_removed_among(pool, j);
                lemma_among_trans(swap_removed(pool, j), pool, pool0);
                lemma_grow_from_pool(chain2, first, swap_removed(pool, j), pool0);
            },
        }
    }
}

/// Nothing is invented: every edge of every assembled loop is one of the
/// pool's edges, either as it was given or reversed.
pub proof fn lemma_assembled_edges_from_pool(pool: Seq<EdgeHandle>)
    requires
        assemble_spec(pool) is Some,
    ensures
        forall|i: int, k: int|
            0 <= i < assemble_spec(pool).unwrap().len() && 0 <= k
                < assemble_spec(pool).unwrap()[i].len() ==> from_pool(
                #[trigger] assemble_spec(pool).unwrap()[i][k],
                pool,
            ),
    decreases pool.len(),
{
    if pool.len() != 0 {
        let start = pool.last();
        match grow_spec(seq![start], start.p_id, pool.drop_last()) {
            None => {},
            Some((chain, rest)) => {
                assert(from_pool(start, pool)) by {
                    assert(pool[pool.len() - 1] == start);
                }
                assert(edges_among(pool.drop_last(), pool)) by {
                    assert forall|k: int|
                        0 <= k < pool.drop_last().len() implies among(
                        #[trigger] pool.drop_last()[k],
                        pool,
                    ) by {
                        assert(pool[k] == pool.drop_last()[k]);
                    }
                }
                lemma_grow_from_pool(seq![start], start.p_id, pool.drop_last(), pool);
                lemma_grow_rest_len(seq![start], start.p_id, pool.drop_last());
                lemma_assembled_edges_from_pool(rest);
                let chains = assemble_spec(rest).unwrap();
                assert forall|i: int, k: int|
                    0 <= i < assemble_spec(pool).unwrap().len() && 0 <= k < assemble_spec(
                    pool,
                ).unwrap()[i].len() implies from_pool(
                    #[trigger] assemble_spec(pool).unwrap()[i][k],
                    pool,
                ) by {
                    if i == 0 {
                        assert(assemble_spec(pool).unwrap()[0] == chain);
                    } else {
                        assert(assemble_spec(pool).unwrap()[i] == chains[i - 1]);
                        assert(from_pool(chains[i - 1][k], rest));
                        // lift derivation from the leftover pool to the
                        // whole pool
                        let e = chains[i - 1][k];
                        let j = choose|j: int|
                            0 <= j < rest.len() && ((#[trigger] rest[j]) == e || rest[j]
                                == e.spec_reversed());
                        assert(among(rest[j], pool));
                        let j0 = choose|j0: int|
                            0 <= j0 < pool.len() && (#[trigger] pool[j0]) == rest[j];
                        assert(pool[j0] == e || pool[j0] == e.spec_reversed());
                    }
                }
            },
        }
    }
}

/// Assembles the pool of edges into closed boundary loops, or reports the
/// dangling-edge condition: exactly the traversal that `assemble_spec`
/// describes, with no partial result on failure.
#[verifier::loop_isolation(false)]
pub fn assemble(edges: Vec<EdgeHandle>) -> (r: Result<Vec<Boundary>, ReconError>)
    ensures
        match assemble_spec(edges@) {
            Some(chains) => {
                &&& r matches Ok(bs)
                &&& chain_views(bs@) == chains
                &&& forall|i: int|
                    0 <= i < chains.len() ==> bound::closed_loop((#[trigger] bs@[i]).edges@)
            },
            None => r == Err::<Vec<Boundary>, ReconError>(ReconError::DanglingEdge),
        },
{
    let ghost pool0 = edges@;
    let mut edges = edges;
    let mut bounds: Vec<Boundary> = Vec::new();
    proof {
        if assemble_spec(pool0) is Some {
            assert(chain_views(bounds@) + assemble_spec(pool0).unwrap() =~= assemble_spec(
                pool0,
            ).unwrap());
        }
    }
    while edges.len() != 0
        invariant
            match assemble_spec(edges@) {
                Some(chains) => {
                    &&& assemble_spec(pool0) matches Some(all)
                    &&& all == chain_views(bounds@) + chains
                },
                None => assemble_spec(pool0) is None,
            },
        decreases edges@.len(),
    {
        let ghost pool_iter = edges@;
        let start = edges.pop().unwrap();
        let first_id = start.p_id;
        let mut chain: Vec<EdgeHandle> = Vec::new();
        chain.push(start);
        proof {
            assert(pool_iter.last() == start);
            assert(pool_iter.drop_last() == edges@);
            assert(chain@ =~= seq![start]);
        }
        while chain[chain.len() - 1].q_id != first_id
            invariant
                chain@.len() >= 1,
                grow_spec(chain@, first_id, edges@) == grow_spec(
                    seq![start],
                    first_id,
                    pool_iter.drop_last(),
                ),
                edges@.len() < pool_iter.len(),
                pool_iter.len() >= 1,
                pool_iter.last() == start,
                first_id == start.p_id,
                match assemble_spec(pool_iter) {
                    Some(chains) => {
                        &&& assemble_spec(pool0) matches Some(all)
                        &&& all == chain_views(bounds@) + chains
                    },
                    None => assemble_spec(pool0) is None,
                },
            decreases edges@.len(),
        {
            let cur_q = chain[chain.len() - 1].q_id;
            // scan the pool for the first edge that can start at cur_q
            let n: usize = edges.len();
            let mut j: usize = 0;
            while j < n && !(edges[j].p_id == cur_q || edges[j].q_id == cur_q)
                invariant
                    0 <= j <= n,
                    n == edges@.len(),
                    forall|k: int| 0 <= k < j ==> !can_start(#[trigger] edges@[k], cur_q),
                decreases n - j,
            {
                j = j + 1;
            }
            proof {
                lemma_find_from_skip(edges@, cur_q, j as int);
            }
            if j == n {
                // dangling edge: the chain's open end continues nowhere
                proof {
                    assert(find_from(edges@, cur_q, 0) is None);
                    assert(grow_spec(chain@, first_id, edges@) is None);
                    assert(assemble_spec(pool_iter) is None);
                }
                return Err(ReconError::DanglingEdge);
            }
            proof {
                assert(can_start(edges@[j as int], cur_q));
                assert(find_from(edges@, cur_q, 0) == Some(j as int));
            }
            let ghost pool_before = edges@;
            let ghost chain_before = chain@;
            let picked = edges.swap_remove(j);
            let next = picked.as_starting_with(cur_q).unwrap();
            chain.push(next);
            proof {
                assert(picked == pool_before[j as int]);
                assert(next == oriented(pool_before[j as int], cur_q));
                assert(edges@ == swap_removed(pool_before, j as int));
                assert(chain@ == chain_before.push(next));
                assert(grow_spec(chain_before, first_id, pool_before) == grow_spec(
                    chain@,
                    first_id,
                    edges@,
                ));
            }
        }
        let ghost chain_view = chain@;
        let ghost old_bounds = bounds@;
        proof {
            assert(grow_spec(chain_view, first_id, edges@) == Some((chain_view, edges@)));
        }
        bounds.push(Boundary { edges: chain });
        proof {
            assert(bounds@.len() == old_bounds.len() + 1);
            assert(bounds@.last().edges@ == chain_view);
            assert(forall|k: int| 0 <= k < old_bounds.len() ==> bounds@[k] == old_bounds[k]);
            assert(chain_views(bounds@) =~= chain_views(old_bounds).push(chain_view));
            match assemble_spec(edges@) {
                Some(chains) => {
                    assert(assemble_spec(pool_iter) == Some(seq![chain_view] + chains));
                    assert(chain_views(old_bounds) + (seq![chain_view] + chains) =~= chain_views(
                        bounds@,
                    ) + chains);
                },
                None => {
                    assert(assemble_spec(pool_iter) is None);
                },
            }
        }
    }
    proof {
        assert(assemble_spec(edges@) == Some(Seq::<Seq<EdgeHandle>>::empty()));
        assert(chain_views(bounds@) + Seq::<Seq<EdgeHandle>>::empty() =~= chain_views(bounds@));
        let all = assemble_spec(pool0).unwrap();
        assert(all == chain_views(bounds@));
        lemma_assembled_loops_closed(pool0);
        assert forall|i: int| 0 <= i < all.len() implies bound::closed_loop(
            (#[trigger] bounds@[i]).edges@,
        ) by {
            assert(bound::closed_loop(all[i]));
            assert(all[i] == chain_views(bounds@)[i]);
        }
    }
    Ok(bounds)
}

} // verus!
