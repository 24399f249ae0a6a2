//! Reachability over a sequence of edges, and the facts about it that the
//! graph operations rely on.

use vstd::prelude::*;
use crate::dag::{Edge, NodeId};

verus! {

/// Some edge leads straight from `a` to `b`.
pub open spec fn links(edges: Seq<Edge>, a: NodeId, b: NodeId) -> bool {
    exists|i: int| #![trigger edges[i]] 0 <= i < edges.len() && edges[i].from_node == a && edges[i].to_node == b
}

/// `w` is a walk: a non-empty sequence of nodes, each linked to the next.
pub open spec fn is_walk(edges: Seq<Edge>, w: Seq<NodeId>) -> bool {
    &&& w.len() >= 1
    &&& forall|i: int| 0 <= i < w.len() - 1 ==> #[trigger] links(edges, w[i], w[i + 1])
}

/// `w` is a walk from `a` to `b`.
pub open spec fn walk_between(edges: Seq<Edge>, w: Seq<NodeId>, a: NodeId, b: NodeId) -> bool {
    &&& is_walk(edges, w)
    &&& w[0] == a
    &&& w.last() == b
}

/// `b` can be reached from `a` by following zero or more edges.
pub open spec fn reaches(edges: Seq<Edge>, a: NodeId, b: NodeId) -> bool {
    exists|w: Seq<NodeId>| #[trigger] walk_between(edges, w, a, b)
}

/// `x` lies on a cycle: it links to a node from which it can be reached again.
pub open spec fn on_cycle(edges: Seq<Edge>, x: NodeId) -> bool {
    exists|y: NodeId| #[trigger] links(edges, x, y) && reaches(edges, y, x)
}

/// No node lies on a cycle.
pub open spec fn is_acyclic(edges: Seq<Edge>) -> bool {
    forall|x: NodeId| !#[trigger] on_cycle(edges, x)
}

/// Some node on a cycle reaches `x`; a node on a cycle reaches itself.
pub open spec fn fed_by_cycle(edges: Seq<Edge>, x: NodeId) -> bool {
    exists|y: NodeId| #[trigger] on_cycle(edges, y) && reaches(edges, y, x)
}

/// Every edge into a listed node has its source listed earlier.
pub open spec fn respects_edges(edges: Seq<Edge>, order: Seq<NodeId>) -> bool {
    forall|b: int, j: int| 0 <= b < order.len() && 0 <= j < edges.len()
        && #[trigger] edges[j].to_node == #[trigger] order[b]
        ==> exists|a: int| 0 <= a < b && order[a] == edges[j].from_node
}

pub proof fn lemma_reaches_refl(edges: Seq<Edge>, a: NodeId)
    ensures
        reaches(edges, a, a),
{
    assert(walk_between(edges, seq![a], a, a));
}

pub proof fn lemma_reaches_step(edges: Seq<Edge>, a: NodeId, b: NodeId, c: NodeId)
    requires
        reaches(edges, a, b),
        links(edges, b, c),
    ensures
        reaches(edges, a, c),
{
    let w = choose|w: Seq<NodeId>| walk_between(edges, w, a, b);
    let w2 = w.push(c);
    assert forall|i: int| 0 <= i < w2.len() - 1 implies #[trigger] links(edges, w2[i], w2[i + 1]) by {
        if i < w.len() - 1 {
            assert(links(edges, w[i], w[i + 1]));
        }
    }
    assert(walk_between(edges, w2, a, c));
}

pub proof fn lemma_links_reach(edges: Seq<Edge>, a: NodeId, b: NodeId)
    requires
        links(edges, a, b),
    ensures
        reaches(edges, a, b),
{
    lemma_reaches_refl(edges, a);
    lemma_reaches_step(edges, a, a, b);
}

pub proof fn lemma_reaches_trans(edges: Seq<Edge>, a: NodeId, b: NodeId, c: NodeId)
    requires
        reaches(edges, a, b),
        reaches(edges, b, c),
    ensures
        reaches(edges, a, c),
{
    let w2 = choose|w: Seq<NodeId>| walk_between(edges, w, b, c);
    lemma_reaches_trans_walk(edges, a, b, w2, w2.len() as int);
}

proof fn lemma_reaches_trans_walk(edges: Seq<Edge>, a: NodeId, b: NodeId, w: Seq<NodeId>, k: int)
    requires
        reaches(edges, a, b),
        walk_between(edges, w, b, w.last()),
        1 <= k <= w.len(),
    ensures
        reaches(edges, a, w[k - 1]),
    decreases k,
{
    if k == 1 {
    } else {
        lemma_reaches_trans_walk(edges, a, b, w, k - 1);
        assert(links(edges, w[k - 2], w[(k - 2) + 1]));
        lemma_reaches_step(edges, a, w[k - 2], w[k - 1]);
    }
}

/// A node set that holds `a` and is closed under following edges holds
/// every node reachable from `a`.
pub proof fn lemma_closed_set_holds_reachable(edges: Seq<Edge>, s: Set<NodeId>, a: NodeId, b: NodeId)
    requires
        s.contains(a),
        forall|x: NodeId, y: NodeId| s.contains(x) && #[trigger] links(edges, x, y) ==> s.contains(y),
        reaches(edges, a, b),
    ensures
        s.contains(b),
{
    let w = choose|w: Seq<NodeId>| walk_between(edges, w, a, b);
    lemma_walk_in_closed_set(edges, s, w, w.len() - 1);
}

proof fn lemma_walk_in_closed_set(edges: Seq<Edge>, s: Set<NodeId>, w: Seq<NodeId>, k: int)
    requires
        is_walk(edges, w),
        s.contains(w[0]),
        forall|x: NodeId, y: NodeId| s.contains(x) && #[trigger] links(edges, x, y) ==> s.contains(y),
        0 <= k < w.len(),
    ensures
        s.contains(w[k]),
    decreases k,
{
    if k > 0 {
        lemma_walk_in_closed_set(edges, s, w, k - 1);
        assert(links(edges, w[k - 1], w[(k - 1) + 1]));
    }
}

/// Removing edges never makes a node reachable that was not before.
pub proof fn lemma_reaches_fewer_edges(small: Seq<Edge>, big: Seq<Edge>, a: NodeId, b: NodeId)
    requires
        forall|i: int| 0 <= i < small.len() ==> big.contains(#[trigger] small[i]),
        reaches(small, a, b),
    ensures
        reaches(big, a, b),
{
    let w = choose|w: Seq<NodeId>| walk_between(small, w, a, b);
    assert forall|i: int| 0 <= i < w.len() - 1 implies #[trigger] links(big, w[i], w[i + 1]) by {
        assert(links(small, w[i], w[i + 1]));
        let k = choose|k: int| 0 <= k < small.len() && small[k].from_node == w[i] && small[k].to_node == w[i + 1];
        assert(big.contains(small[k]));
        let m = choose|m: int| 0 <= m < big.len() && big[m] == small[k];
        assert(big[m].from_node == w[i]);
    }
    assert(walk_between(big, w, a, b));
}

pub proof fn lemma_acyclic_fewer_edges(small: Seq<Edge>, big: Seq<Edge>)
    requires
        forall|i: int| 0 <= i < small.len() ==> big.contains(#[trigger] small[i]),
        is_acyclic(big),
    ensures
        is_acyclic(small),
{
    assert forall|x: NodeId| !#[trigger] on_cycle(small, x) by {
        if on_cycle(small, x) {
            let y = choose|y: NodeId| #[trigger] links(small, x, y) && reaches(small, y, x);
            lemma_links_reach(small, x, y);
            let k = choose|k: int| 0 <= k < small.len() && small[k].from_node == x && small[k].to_node == y;
            assert(big.contains(small[k]));
            let m = choose|m: int| 0 <= m < big.len() && big[m] == small[k];
            assert(big[m].from_node == x);
            assert(links(big, x, y));
            lemma_reaches_fewer_edges(small, big, y, x);
            assert(on_cycle(big, x));
        }
    }
}

/// A walk over `edges` plus one new edge either avoids the new edge, or
/// passes through it.
proof fn lemma_walk_with_new_edge(edges: Seq<Edge>, e: Edge, w: Seq<NodeId>, k: int)
    requires
        is_walk(edges.push(e), w),
        1 <= k <= w.len(),
    ensures
        reaches(edges, w[0], w[k - 1]) || (reaches(edges, w[0], e.from_node) && reaches(edges, e.to_node, w[k - 1])),
    decreases k,
{
    let big = edges.push(e);
    if k == 1 {
        lemma_reaches_refl(edges, w[0]);
    } else {
        lemma_walk_with_new_edge(edges, e, w, k - 1);
        let z = w[k - 2];
        let y = w[k - 1];
        assert(links(big, w[k - 2], w[(k - 2) + 1]));
        let j = choose|j: int| 0 <= j < big.len() && big[j].from_node == z && big[j].to_node == y;
        if j < edges.len() {
            assert(edges[j] == big[j]);
            assert(links(edges, z, y));
            if reaches(edges, w[0], z) {
                lemma_reaches_step(edges, w[0], z, y);
            } else {
                lemma_reaches_step(edges, e.to_node, z, y);
            }
        } else {
            assert(big[j] == e);
            lemma_reaches_refl(edges, y);
            if reaches(edges, w[0], z) {
            } else {
            }
        }
    }
}

/// Adding the edge `from -> to` keeps a graph acyclic when `from` cannot be
/// reached from `to`.
pub proof fn lemma_acyclic_add_edge(edges: Seq<Edge>, e: Edge)
    requires
        is_acyclic(edges),
        !reaches(edges, e.to_node, e.from_node),
    ensures
        is_acyclic(edges.push(e)),
{
    let big = edges.push(e);
    assert forall|x: NodeId| !#[trigger] on_cycle(big, x) by {
        if on_cycle(big, x) {
            let y = choose|y: NodeId| #[trigger] links(big, x, y) && reaches(big, y, x);
            let w = choose|w: Seq<NodeId>| walk_between(big, w, y, x);
            lemma_walk_with_new_edge(edges, e, w, w.len() as int);
            let j = choose|j: int| 0 <= j < big.len() && big[j].from_node == x && big[j].to_node == y;
            if j < edges.len() {
                assert(edges[j] == big[j]);
                assert(links(edges, x, y));
                if reaches(edges, y, x) {
                    assert(on_cycle(edges, x));
                } else {
                    // to ~> x -> y ~> from
                    lemma_links_reach(edges, x, y);
                    lemma_reaches_trans(edges, e.to_node, x, y);
                    lemma_reaches_trans(edges, e.to_node, y, e.from_node);
                }
            } else {
                assert(big[j] == e);
                if reaches(edges, y, x) {
                } else {
                    lemma_reaches_trans(edges, e.to_node, x, e.from_node);
                }
            }
        }
    }
}

/// Number of edges into the node with id `v` whose source is not yet in `done`.
pub open spec fn pending_into(edges: Seq<Edge>, v: u32, done: Seq<NodeId>) -> nat
    decreases edges.len(),
{
    if edges.len() == 0 {
        0
    } else {
        (if edges[0].to_node.0 == v && !done.contains(edges[0].from_node) { 1nat } else { 0nat })
            + pending_into(edges.drop_first(), v, done)
    }
}

/// Number of edges from `n` into the node with id `v`.
pub open spec fn count_from_into(edges: Seq<Edge>, v: u32, n: NodeId) -> nat
    decreases edges.len(),
{
    if edges.len() == 0 {
        0
    } else {
        (if edges[0].to_node.0 == v && edges[0].from_node == n { 1nat } else { 0nat })
            + count_from_into(edges.drop_first(), v, n)
    }
}

pub proof fn lemma_pending_push(edges: Seq<Edge>, e: Edge, v: u32, done: Seq<NodeId>)
    ensures
        pending_into(edges.push(e), v, done) == pending_into(edges, v, done)
            + (if e.to_node.0 == v && !done.contains(e.from_node) { 1nat } else { 0nat }),
    decreases edges.len(),
{
    if edges.len() > 0 {
        assert(edges.push(e).drop_first() =~= edges.drop_first().push(e));
        assert(edges.push(e)[0] == edges[0]);
        lemma_pending_push(edges.drop_first(), e, v, done);
    } else {
        assert(edges.push(e).drop_first() =~= Seq::<Edge>::empty());
        assert(edges.push(e)[0] == e);
        assert(pending_into(Seq::<Edge>::empty(), v, done) == 0);
    }
}

pub proof fn lemma_pending_bound(edges: Seq<Edge>, v: u32, done: Seq<NodeId>)
    ensures
        pending_into(edges, v, done) <= edges.len(),
    decreases edges.len(),
{
    if edges.len() > 0 {
        lemma_pending_bound(edges.drop_first(), v, done);
    }
}

/// Marking `n` done takes its edges into `v` off the pending count.
pub proof fn lemma_pending_mark_done(edges: Seq<Edge>, v: u32, done: Seq<NodeId>, n: NodeId)
    requires
        !done.contains(n),
    ensures
        pending_into(edges, v, done) == pending_into(edges, v, done.push(n)) + count_from_into(edges, v, n),
    decreases edges.len(),
{
    if edges.len() > 0 {
        lemma_pending_mark_done(edges.drop_first(), v, done, n);
        let e = edges[0];
        if done.push(n).contains(e.from_node) && !done.contains(e.from_node) {
            let k = choose|k: int| 0 <= k < done.push(n).len() && done.push(n)[k] == e.from_node;
            if k < done.len() {
                assert(done[k] == done.push(n)[k]);
            }
        }
        if done.contains(e.from_node) {
            let k = choose|k: int| 0 <= k < done.len() && done[k] == e.from_node;
            assert(done.push(n)[k] == done[k]);
        }
        if e.from_node == n {
            assert(done.push(n)[done.len() as int] == n);
        }
    }
}

/// With nothing pending into `v`, every edge into `v` has its source done.
pub proof fn lemma_pending_zero(edges: Seq<Edge>, v: u32, done: Seq<NodeId>)
    requires
        pending_into(edges, v, done) == 0,
    ensures
        forall|j: int| 0 <= j < edges.len() && (#[trigger] edges[j]).to_node.0 == v ==> done.contains(edges[j].from_node),
    decreases edges.len(),
{
    if edges.len() > 0 {
        lemma_pending_zero(edges.drop_first(), v, done);
        assert forall|j: int| 0 <= j < edges.len() && (#[trigger] edges[j]).to_node.0 == v implies done.contains(edges[j].from_node) by {
            if j > 0 {
                assert(edges[j] == edges.drop_first()[j - 1]);
            }
        }
    }
}

/// With something pending into `v`, some edge into `v` has a source not done.
pub proof fn lemma_pending_positive(edges: Seq<Edge>, v: u32, done: Seq<NodeId>) -> (j: int)
    requires
        pending_into(edges, v, done) > 0,
    ensures
        0 <= j < edges.len(),
        edges[j].to_node.0 == v,
        !done.contains(edges[j].from_node),
    decreases edges.len(),
{
    if edges[0].to_node.0 == v && !done.contains(edges[0].from_node) {
        0
    } else {
        let k = lemma_pending_positive(edges.drop_first(), v, done);
        assert(edges.drop_first()[k] == edges[k + 1]);
        k + 1
    }
}

pub proof fn lemma_count_from_skip(edges: Seq<Edge>, v: u32, n: NodeId, j: int)
    requires
        0 <= j < edges.len(),
    ensures
        count_from_into(edges.skip(j), v, n) == count_from_into(edges.skip(j + 1), v, n)
            + (if edges[j].to_node.0 == v && edges[j].from_node == n { 1nat } else { 0nat }),
{
    assert(edges.skip(j).drop_first() =~= edges.skip(j + 1));
    assert(edges.skip(j)[0] == edges[j]);
}

/// The walk obtained by stepping back from `start` to a chosen predecessor
/// inside `s`, `k` times.
spec fn back_walk(edges: Seq<Edge>, s: Set<NodeId>, start: NodeId, k: nat) -> Seq<NodeId>
    decreases k,
{
    if k == 0 {
        seq![start]
    } else {
        let prev = back_walk(edges, s, start, (k - 1) as nat);
        let p = choose|p: NodeId| s.contains(p) && #[trigger] links(edges, p, prev.last());
        prev.push(p)
    }
}

proof fn lemma_back_walk(edges: Seq<Edge>, s: Set<NodeId>, start: NodeId, k: nat)
    requires
        s.contains(start),
        forall|y: NodeId| #[trigger] s.contains(y) ==> exists|p: NodeId| s.contains(p) && #[trigger] links(edges, p, y),
    ensures
        back_walk(edges, s, start, k).len() == k + 1,
        back_walk(edges, s, start, k)[0] == start,
        forall|i: int| 0 <= i <= k ==> s.contains(#[trigger] back_walk(edges, s, start, k)[i]),
        forall|i: int| 0 <= i < k ==> links(edges, #[trigger] back_walk(edges, s, start, k)[i + 1], back_walk(edges, s, start, k)[i]),
    decreases k,
{
    if k > 0 {
        lemma_back_walk(edges, s, start, (k - 1) as nat);
        let prev = back_walk(edges, s, start, (k - 1) as nat);
        assert(s.contains(prev.last()));
        let w = back_walk(edges, s, start, k);
        assert(w[0] == prev[0]);
        assert forall|i: int| 0 <= i < k implies links(edges, #[trigger] w[i + 1], w[i]) by {
            if i < k - 1 {
                assert(w[i + 1] == prev[i + 1]);
                assert(w[i] == prev[i]);
            }
        }
        assert forall|i: int| 0 <= i <= k implies s.contains(#[trigger] w[i]) by {
            if i < k {
                assert(w[i] == prev[i]);
            }
        }
    }
}

proof fn lemma_back_walk_reaches(edges: Seq<Edge>, w: Seq<NodeId>, i: int, k: int)
    requires
        0 <= i <= k < w.len(),
        forall|m: int| 0 <= m < w.len() - 1 ==> links(edges, #[trigger] w[m + 1], w[m]),
    ensures
        reaches(edges, w[k], w[i]),
    decreases k - i,
{
    if k == i {
        lemma_reaches_refl(edges, w[i]);
    } else {
        lemma_back_walk_reaches(edges, w, i, k - 1);
        assert(links(edges, w[(k - 1) + 1], w[k - 1]));
        lemma_links_reach(edges, w[k], w[k - 1]);
        lemma_reaches_trans(edges, w[k], w[k - 1], w[i]);
    }
}

/// In a finite node set where every node has a predecessor inside the set,
/// every node is reached from a node on a cycle.
pub proof fn lemma_every_node_has_pred_gives_cycle(edges: Seq<Edge>, s: Set<NodeId>, start: NodeId)
    requires
        s.finite(),
        s.contains(start),
        forall|y: NodeId| #[trigger] s.contains(y) ==> exists|p: NodeId| s.contains(p) && #[trigger] links(edges, p, y),
    ensures
        fed_by_cycle(edges, start),
{
    let k = s.len();
    lemma_back_walk(edges, s, start, k);
    let w = back_walk(edges, s, start, k);
    assert(w.to_set().subset_of(s));
    vstd::set_lib::lemma_len_subset(w.to_set(), s);
    if w.no_duplicates() {
        w.unique_seq_to_set();
        assert(false);
    }
    let (i, j) = choose|i: int, j: int| 0 <= i < w.len() && 0 <= j < w.len() && i != j && w[i] == w[j];
    let (lo, hi) = if i < j { (i, j) } else { (j, i) };
    assert(links(edges, w[(hi - 1) + 1], w[hi - 1]));
    lemma_back_walk_reaches(edges, w, lo, hi - 1);
    assert(on_cycle(edges, w[hi]));
    lemma_back_walk_reaches(edges, w, 0, hi);
    assert(on_cycle(edges, w[hi]) && reaches(edges, w[hi], start));
}

/// In an order that respects the edges, whatever reaches a listed node is
/// listed no later than it, and strictly earlier along a walk of one or
/// more steps.
proof fn lemma_order_reach_back(edges: Seq<Edge>, order: Seq<NodeId>, w: Seq<NodeId>, b: int) -> (a: int)
    requires
        respects_edges(edges, order),
        is_walk(edges, w),
        0 <= b < order.len(),
        w.last() == order[b],
    ensures
        0 <= a <= b,
        order[a] == w[0],
        w.len() > 1 ==> a < b,
    decreases w.len(),
{
    if w.len() == 1 {
        b
    } else {
        let rest = w.drop_first();
        assert forall|i: int| 0 <= i < rest.len() - 1 implies #[trigger] links(edges, rest[i], rest[i + 1]) by {
            assert(links(edges, w[i + 1], w[(i + 1) + 1]));
        }
        let a1 = lemma_order_reach_back(edges, order, rest, b);
        assert(links(edges, w[0], w[0int + 1]));
        let j = choose|j: int| #![trigger edges[j]] 0 <= j < edges.len() && edges[j].from_node == w[0] && edges[j].to_node == w[1];
        assert(edges[j].to_node == order[a1]);
        let a = choose|a: int| 0 <= a < a1 && order[a] == edges[j].from_node;
        a
    }
}

/// An order without repeats that respects the edges lists no node that a
/// cycle leads to.
pub proof fn lemma_order_has_no_cycle_before(edges: Seq<Edge>, order: Seq<NodeId>, b: int)
    requires
        order.no_duplicates(),
        respects_edges(edges, order),
        0 <= b < order.len(),
    ensures
        !fed_by_cycle(edges, order[b]),
{
    if fed_by_cycle(edges, order[b]) {
        let y = choose|y: NodeId| #[trigger] on_cycle(edges, y) && reaches(edges, y, order[b]);
        let wy = choose|w: Seq<NodeId>| walk_between(edges, w, y, order[b]);
        let ay = lemma_order_reach_back(edges, order, wy, b);
        let z = choose|z: NodeId| #[trigger] links(edges, y, z) && reaches(edges, z, y);
        let wz = choose|w: Seq<NodeId>| walk_between(edges, w, z, y);
        let az = lemma_order_reach_back(edges, order, wz, ay);
        let j = choose|j: int| #![trigger edges[j]] 0 <= j < edges.len() && edges[j].from_node == y && edges[j].to_node == z;
        assert(edges[j].to_node == order[az]);
        let a = choose|a: int| 0 <= a < az && order[a] == edges[j].from_node;
        assert(order[a] == order[ay]);
    }
}

} // verus!
