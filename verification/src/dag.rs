//! The model: nodes carrying a caller-chosen payload, and port-to-port edges
//! that never form a cycle.

use vstd::prelude::*;
use std::collections::{HashMap, HashSet};
use vstd::std_specs::iter::IteratorSpec;
use crate::graph::{count_from_into, lemma_count_from_skip, fed_by_cycle, lemma_every_node_has_pred_gives_cycle, lemma_order_has_no_cycle_before, lemma_pending_bound, lemma_pending_mark_done, lemma_pending_positive, lemma_pending_push, lemma_pending_zero, pending_into, is_acyclic, lemma_acyclic_add_edge, lemma_acyclic_fewer_edges, lemma_closed_set_holds_reachable, lemma_reaches_refl, lemma_reaches_step, links, on_cycle, reaches};
use crate::nodes::NodeKind;

verus! {

broadcast use vstd::std_specs::hash::group_hash_axioms;

#[derive(Clone, Copy, PartialEq, Eq, Structural, Hash, Debug, Default)]
pub struct NodeId(pub u32);

#[derive(Clone, Copy, PartialEq, Eq, Structural, Hash, Debug, Default)]
pub struct EdgeId(pub u32);

/// A node of the model. `data` is what the caller keeps with the node
/// (its position on the canvas, label, configuration and results).
#[derive(Clone, Debug)]
pub struct Node<P> {
    pub id: NodeId,
    pub kind: NodeKind,
    pub data: P,
}

/// An edge from output port `from_port` of `from_node` to input port
/// `to_port` of `to_node`.
#[derive(Clone, Copy, PartialEq, Eq, Structural, Debug)]
pub struct Edge {
    pub id: EdgeId,
    pub from_node: NodeId,
    pub from_port: usize,
    pub to_node: NodeId,
    pub to_port: usize,
}

#[derive(Clone, Debug)]
pub struct DagModel<P> {
    nodes: Vec<Node<P>>,
    edges: Vec<Edge>,
    next_node: u32,
    next_edge: u32,
}

/// Some node of `nodes` has the id `id`.
pub open spec fn holds_node<P>(nodes: Seq<Node<P>>, id: NodeId) -> bool {
    exists|i: int| #![trigger nodes[i]] 0 <= i < nodes.len() && nodes[i].id == id
}

/// Some edge of `edges` ends at input port `port` of `node`.
pub open spec fn port_taken(edges: Seq<Edge>, node: NodeId, port: usize) -> bool {
    exists|i: int| #![trigger edges[i]] 0 <= i < edges.len() && edges[i].to_node == node && edges[i].to_port == port
}

/// Some edge of `edges` joins the same two ports.
pub open spec fn joins_ports(edges: Seq<Edge>, from: NodeId, from_port: usize, to: NodeId, to_port: usize) -> bool {
    exists|i: int| #![trigger edges[i]]
        0 <= i < edges.len() && edges[i].from_node == from && edges[i].from_port == from_port
            && edges[i].to_node == to && edges[i].to_port == to_port
}

/// The structural rules of a model: unique node ids, unique edge ids, edges
/// between existing nodes, at most one edge into each input port, no cycle.
pub open spec fn structure_ok<P>(nodes: Seq<Node<P>>, edges: Seq<Edge>) -> bool {
    &&& forall|i: int, j: int| 0 <= i < j < nodes.len() ==> nodes[i].id != nodes[j].id
    &&& forall|i: int, j: int| 0 <= i < j < edges.len() ==> edges[i].id != edges[j].id
    &&& forall|i: int| 0 <= i < edges.len() ==> holds_node(nodes, #[trigger] edges[i].from_node)
    &&& forall|i: int| 0 <= i < edges.len() ==> holds_node(nodes, #[trigger] edges[i].to_node)
    &&& forall|i: int, j: int| 0 <= i < j < edges.len() ==>
            !(edges[i].to_node == edges[j].to_node && edges[i].to_port == edges[j].to_port)
    &&& is_acyclic(edges)
}

/// Edges other than the one with id `id`.
pub open spec fn edge_not_id(id: EdgeId) -> spec_fn(Edge) -> bool {
    |e: Edge| e.id != id
}

/// Edges that do not touch node `id`.
pub open spec fn edge_avoids(id: NodeId) -> spec_fn(Edge) -> bool {
    |e: Edge| e.from_node != id && e.to_node != id
}

/// Nodes other than the one with id `id`.
pub open spec fn node_not_id<P>(id: NodeId) -> spec_fn(Node<P>) -> bool {
    |n: Node<P>| n.id != id
}

/// Every element of a filtered sequence comes from the sequence.
proof fn lemma_filter_subset<A>(s: Seq<A>, p: spec_fn(A) -> bool)
    ensures
        forall|i: int| 0 <= i < s.filter(p).len() ==> s.contains(#[trigger] s.filter(p)[i]),
        forall|i: int| 0 <= i < s.filter(p).len() ==> p(#[trigger] s.filter(p)[i]),
{
    broadcast use vstd::seq_lib::group_filter_ensures;
    assert forall|i: int| 0 <= i < s.filter(p).len() implies s.contains(#[trigger] s.filter(p)[i]) by {
        s.lemma_filter_contains_rev(p, s.filter(p)[i]);
    }
}

/// Filtering keeps a relation that holds between every earlier and later element.
proof fn lemma_filter_pairwise<A>(s: Seq<A>, p: spec_fn(A) -> bool, r: spec_fn(A, A) -> bool)
    requires
        forall|i: int, j: int| 0 <= i < j < s.len() ==> #[trigger] r(s[i], s[j]),
    ensures
        forall|i: int, j: int| 0 <= i < j < s.filter(p).len() ==> #[trigger] r(s.filter(p)[i], s.filter(p)[j]),
    decreases s.len(),
{
    reveal(Seq::filter);
    if s.len() > 0 {
        let d = s.drop_last();
        assert forall|i: int, j: int| 0 <= i < j < d.len() implies #[trigger] r(d[i], d[j]) by {
            assert(r(s[i], s[j]));
        }
        lemma_filter_pairwise(d, p, r);
        let fd = d.filter(p);
        let f = s.filter(p);
        if p(s.last()) {
            assert(f == fd.push(s.last()));
            assert forall|i: int, j: int| 0 <= i < j < f.len() implies #[trigger] r(f[i], f[j]) by {
                if j < fd.len() {
                    assert(r(fd[i], fd[j]));
                } else {
                    lemma_filter_subset(d, p);
                    assert(d.contains(fd[i]));
                    let m = choose|m: int| 0 <= m < d.len() && d[m] == fd[i];
                    assert(r(s[m], s[s.len() - 1]));
                }
            }
        }
    }
}

/// The prefix of length `k + 1` filtered is the prefix of length `k` filtered,
/// extended by element `k` when it passes.
proof fn lemma_filter_take_step<A>(s: Seq<A>, p: spec_fn(A) -> bool, k: int)
    requires
        0 <= k < s.len(),
    ensures
        s.take(k + 1).filter(p) == if p(s[k]) { s.take(k).filter(p).push(s[k]) } else { s.take(k).filter(p) },
{
    assert(s.take(k + 1) =~= s.take(k).push(s[k]));
    s.take(k).lemma_filter_push(s[k], p);
}

/// `i` is the first position of `nodes` holding a node with id `id`.
pub open spec fn first_with_id<P>(nodes: Seq<Node<P>>, id: NodeId, i: int) -> bool {
    &&& 0 <= i < nodes.len()
    &&& nodes[i].id == id
    &&& forall|j: int| 0 <= j < i ==> nodes[j].id != id
}

/// Edges leaving node `id`.
pub open spec fn edge_from(id: NodeId) -> spec_fn(Edge) -> bool {
    |e: Edge| e.from_node == id
}

/// Edges entering node `id`.
pub open spec fn edge_into(id: NodeId) -> spec_fn(Edge) -> bool {
    |e: Edge| e.to_node == id
}

/// One more than the largest node id, or 0 for no nodes.
pub open spec fn node_id_bound<P>(nodes: Seq<Node<P>>) -> nat
    decreases nodes.len(),
{
    if nodes.len() == 0 {
        0
    } else {
        let rest = node_id_bound(nodes.drop_last());
        let here = nodes.last().id.0 + 1;
        if rest >= here { rest } else { here as nat }
    }
}

/// One more than the largest edge id, or 0 for no edges.
pub open spec fn edge_id_bound(edges: Seq<Edge>) -> nat
    decreases edges.len(),
{
    if edges.len() == 0 {
        0
    } else {
        let rest = edge_id_bound(edges.drop_last());
        let here = edges.last().id.0 + 1;
        if rest >= here { rest } else { here as nat }
    }
}

/// The raw ids of the nodes, in order.
pub open spec fn node_id_values<P>(nodes: Seq<Node<P>>) -> Seq<u32> {
    nodes.map_values(|n: Node<P>| n.id.0)
}

/// No two nodes share an id.
pub open spec fn node_ids_distinct<P>(nodes: Seq<Node<P>>) -> bool {
    forall|i: int, j: int| 0 <= i < j < nodes.len() ==> nodes[i].id != nodes[j].id
}

/// Every edge starts and ends at a node of `nodes`.
pub open spec fn edges_within<P>(nodes: Seq<Node<P>>, edges: Seq<Edge>) -> bool {
    &&& forall|i: int| 0 <= i < edges.len() ==> holds_node(nodes, #[trigger] edges[i].from_node)
    &&& forall|i: int| 0 <= i < edges.len() ==> holds_node(nodes, #[trigger] edges[i].to_node)
}

proof fn lemma_node_id_values<P>(nodes: Seq<Node<P>>)
    ensures
        forall|v: u32| #[trigger] node_id_values(nodes).contains(v) <==>
            (exists|k: int| #![trigger nodes[k]] 0 <= k < nodes.len() && nodes[k].id.0 == v),
        forall|v: u32| #[trigger] node_id_values(nodes).contains(v) <==> holds_node(nodes, NodeId(v)),
{
    let ks = node_id_values(nodes);
    assert forall|v: u32| #[trigger] ks.contains(v) <==>
        (exists|k: int| #![trigger nodes[k]] 0 <= k < nodes.len() && nodes[k].id.0 == v) by {
        if ks.contains(v) {
            let m = choose|m: int| 0 <= m < ks.len() && ks[m] == v;
            assert(ks[m] == nodes[m].id.0);
        }
        if exists|k: int| #![trigger nodes[k]] 0 <= k < nodes.len() && nodes[k].id.0 == v {
            let k = choose|k: int| #![trigger nodes[k]] 0 <= k < nodes.len() && nodes[k].id.0 == v;
            assert(ks[k] == v);
        }
    }
    assert forall|v: u32| #[trigger] ks.contains(v) <==> holds_node(nodes, NodeId(v)) by {
        if holds_node(nodes, NodeId(v)) {
            let k = choose|k: int| #![trigger nodes[k]] 0 <= k < nodes.len() && nodes[k].id == NodeId(v);
            assert(nodes[k].id.0 == v);
        }
        if exists|k: int| #![trigger nodes[k]] 0 <= k < nodes.len() && nodes[k].id.0 == v {
            let k = choose|k: int| #![trigger nodes[k]] 0 <= k < nodes.len() && nodes[k].id.0 == v;
            assert(nodes[k].id == NodeId(v));
        }
    }
}

/// The mathematical model of a `DagModel`: its node and edge sequences and
/// the counters that hand out the next ids.
pub struct DagView<P> {
    pub nodes: Seq<Node<P>>,
    pub edges: Seq<Edge>,
    pub next_node: u32,
    pub next_edge: u32,
}

impl<P> DagView<P> {
    /// Every id in use lies below the counter that hands out the next one.
    pub open spec fn ids_below_counters(self) -> bool {
        &&& forall|i: int| 0 <= i < self.nodes.len() ==> (#[trigger] self.nodes[i]).id.0 < self.next_node
        &&& forall|i: int| 0 <= i < self.edges.len() ==> (#[trigger] self.edges[i]).id.0 < self.next_edge
    }

    /// A well-formed model: the structural rules hold and fresh ids are fresh.
    pub open spec fn wf(self) -> bool {
        &&& structure_ok(self.nodes, self.edges)
        &&& self.ids_below_counters()
    }

    /// `add_edge` accepts these ports: distinct existing nodes, no identical
    /// edge, a free input port, and no path back from `to` to `from`.
    pub open spec fn accepts_edge(self, from: NodeId, from_port: usize, to: NodeId, to_port: usize) -> bool {
        &&& from != to
        &&& holds_node(self.nodes, from)
        &&& holds_node(self.nodes, to)
        &&& !joins_ports(self.edges, from, from_port, to, to_port)
        &&& !port_taken(self.edges, to, to_port)
        &&& !reaches(self.edges, to, from)
    }
}

impl<P> View for DagModel<P> {
    type V = DagView<P>;

    closed spec fn view(&self) -> DagView<P> {
        DagView { nodes: self.nodes@, edges: self.edges@, next_node: self.next_node, next_edge: self.next_edge }
    }
}

impl<P> DagModel<P> {
    pub fn new() -> (m: Self)
        ensures
            m@.nodes == Seq::<Node<P>>::empty(),
            m@.edges == Seq::<Edge>::empty(),
            m@.next_node == 0,
            m@.next_edge == 0,
            m@.wf(),
    {
        let m = DagModel { nodes: Vec::new(), edges: Vec::new(), next_node: 0, next_edge: 0 };
        assert forall|x: NodeId| !#[trigger] on_cycle(m.edges@, x) by {}
        m
    }

    /// Adds a node of `kind` carrying `data` and returns its id, which is the
    /// next id in sequence.
    pub fn add_node(&mut self, kind: NodeKind, data: P) -> (id: NodeId)
        requires
            old(self)@.next_node < u32::MAX,
        ensures
            id == NodeId(old(self)@.next_node),
            final(self)@.nodes == old(self)@.nodes.push(Node { id, kind, data }),
            final(self)@.edges == old(self)@.edges,
            final(self)@.next_node == old(self)@.next_node + 1,
            final(self)@.next_edge == old(self)@.next_edge,
            old(self)@.wf() ==> final(self)@.wf(),
    {
        let id = NodeId(self.next_node);
        self.next_node = self.next_node + 1;
        self.nodes.push(Node { id, kind, data });
        proof {
            if old(self)@.wf() {
                let nodes = self.nodes@;
                assert forall|i: int| 0 <= i < self.edges@.len() implies holds_node(nodes, #[trigger] self.edges@[i].from_node) by {
                    let k = choose|k: int| 0 <= k < old(self)@.nodes.len() && old(self)@.nodes[k].id == self.edges@[i].from_node;
                    assert(nodes[k] == old(self)@.nodes[k]);
                }
                assert forall|i: int| 0 <= i < self.edges@.len() implies holds_node(nodes, #[trigger] self.edges@[i].to_node) by {
                    let k = choose|k: int| 0 <= k < old(self)@.nodes.len() && old(self)@.nodes[k].id == self.edges@[i].to_node;
                    assert(nodes[k] == old(self)@.nodes[k]);
                }
                assert forall|i: int| 0 <= i < nodes.len() implies (#[trigger] nodes[i]).id.0 < self.next_node by {
                    if i < old(self)@.nodes.len() {
                        assert(nodes[i] == old(self)@.nodes[i]);
                    }
                }
                assert forall|i: int, j: int| 0 <= i < j < nodes.len() implies nodes[i].id != nodes[j].id by {
                    assert(nodes[i] == old(self)@.nodes[i]);
                    if j < old(self)@.nodes.len() {
                        assert(nodes[j] == old(self)@.nodes[j]);
                    }
                }
            }
        }
        id
    }

    /// The nodes, in the order they were added.
    pub fn nodes(&self) -> (r: &Vec<Node<P>>)
        ensures
            r@ == self@.nodes,
    {
        &self.nodes
    }

    /// The edges, in the order they were added.
    pub fn edges(&self) -> (r: &Vec<Edge>)
        ensures
            r@ == self@.edges,
    {
        &self.edges
    }

    /// Whether a node with this id exists.
    pub fn has_node(&self, id: NodeId) -> (r: bool)
        ensures
            r == holds_node(self@.nodes, id),
    {
        let mut i: usize = 0;
        while i < self.nodes.len()
            invariant
                0 <= i <= self.nodes@.len(),
                forall|k: int| 0 <= k < i ==> self.nodes@[k].id != id,
            decreases self.nodes@.len() - i,
        {
            if self.nodes[i].id == id {
                return true;
            }
            i = i + 1;
        }
        false
    }

    /// The edges, in order, less the one with id `drop_id` or those touching `drop_node`.
    fn kept_edges(edges: &Vec<Edge>, drop_id: Option<EdgeId>, drop_node: Option<NodeId>) -> (r: Vec<Edge>)
        requires
            drop_id is None || drop_node is None,
        ensures
            drop_id matches Some(id) ==> r@ == edges@.filter(edge_not_id(id)),
            drop_node matches Some(id) ==> r@ == edges@.filter(edge_avoids(id)),
            drop_id is None && drop_node is None ==> r@ == edges@,
    {
        let mut kept: Vec<Edge> = Vec::new();
        let mut i: usize = 0;
        while i < edges.len()
            invariant
                0 <= i <= edges@.len(),
                drop_id is None || drop_node is None,
                drop_id matches Some(id) ==> kept@ == edges@.take(i as int).filter(edge_not_id(id)),
                drop_node matches Some(id) ==> kept@ == edges@.take(i as int).filter(edge_avoids(id)),
                drop_id is None && drop_node is None ==> kept@ == edges@.take(i as int),
            decreases edges@.len() - i,
        {
            let e = edges[i];
            let keep = match (drop_id, drop_node) {
                (Some(id), _) => e.id != id,
                (None, Some(id)) => e.from_node != id && e.to_node != id,
                (None, None) => true,
            };
            proof {
                if let Some(id) = drop_id {
                    lemma_filter_take_step(edges@, edge_not_id(id), i as int);
                }
                if let Some(id) = drop_node {
                    lemma_filter_take_step(edges@, edge_avoids(id), i as int);
                }
                assert(edges@.take(i + 1) =~= edges@.take(i as int).push(e));
            }
            if keep {
                kept.push(e);
            }
            i = i + 1;
        }
        assert(edges@.take(edges@.len() as int) =~= edges@);
        kept
    }

    /// Removes the edge with id `id`, if there is one.
    pub fn remove_edge(&mut self, id: EdgeId)
        ensures
            final(self)@.edges == old(self)@.edges.filter(edge_not_id(id)),
            forall|i: int| 0 <= i < final(self)@.edges.len() ==> (#[trigger] final(self)@.edges[i]).id != id,
            forall|i: int| 0 <= i < old(self)@.edges.len() && (#[trigger] old(self)@.edges[i]).id != id ==>
                final(self)@.edges.contains(old(self)@.edges[i]),
            final(self)@.nodes == old(self)@.nodes,
            final(self)@.next_node == old(self)@.next_node,
            final(self)@.next_edge == old(self)@.next_edge,
            old(self)@.wf() ==> final(self)@.wf(),
    {
        let kept = Self::kept_edges(&self.edges, Some(id), None);
        self.edges = kept;
        proof {
            law_removal_removes_exactly(old(self)@.nodes, old(self)@.edges, NodeId(0), id);
            let old_edges = old(self)@.edges;
            let edges = self@.edges;
            lemma_filter_subset(old_edges, edge_not_id(id));
            if old(self)@.wf() {
                Self::lemma_filtered_edges_distinct(old_edges, edge_not_id(id));
                Self::lemma_edge_subset_keeps_wf(old(self)@, self@);
            }
        }
    }

    /// Removes the node with id `id` together with every edge that touches it.
    pub fn remove_node(&mut self, id: NodeId)
        ensures
            final(self)@.nodes == old(self)@.nodes.filter(node_not_id(id)),
            final(self)@.edges == old(self)@.edges.filter(edge_avoids(id)),
            forall|i: int| 0 <= i < final(self)@.nodes.len() ==> (#[trigger] final(self)@.nodes[i]).id != id,
            forall|i: int| 0 <= i < old(self)@.nodes.len() && (#[trigger] old(self)@.nodes[i]).id != id ==>
                final(self)@.nodes.contains(old(self)@.nodes[i]),
            forall|i: int| 0 <= i < final(self)@.edges.len() ==>
                (#[trigger] final(self)@.edges[i]).from_node != id && final(self)@.edges[i].to_node != id,
            forall|i: int| 0 <= i < old(self)@.edges.len() && (#[trigger] old(self)@.edges[i]).from_node != id
                && old(self)@.edges[i].to_node != id ==> final(self)@.edges.contains(old(self)@.edges[i]),
            final(self)@.next_node == old(self)@.next_node,
            final(self)@.next_edge == old(self)@.next_edge,
            old(self)@.wf() ==> final(self)@.wf(),
    {
        let ghost old_nodes = self@.nodes;
        let ghost p = node_not_id::<P>(id);
        let ghost mut k: int = 0;
        let mut i: usize = 0;
        while i < self.nodes.len()
            invariant
                old_nodes == old(self)@.nodes,
                p == node_not_id::<P>(id),
                self.edges == old(self).edges,
                self.next_node == old(self).next_node,
                self.next_edge == old(self).next_edge,
                0 <= k <= old_nodes.len(),
                self.nodes@ == old_nodes.take(k).filter(p) + old_nodes.skip(k),
                i == old_nodes.take(k).filter(p).len(),
            decreases old_nodes.len() - k,
        {
            proof {
                lemma_filter_take_step(old_nodes, p, k);
                assert(self.nodes@[i as int] == old_nodes[k]);
                assert(old_nodes.skip(k) =~= seq![old_nodes[k]] + old_nodes.skip(k + 1));
            }
            if self.nodes[i].id == id {
                self.nodes.remove(i);
                proof {
                    assert(self.nodes@ =~= old_nodes.take(k + 1).filter(p) + old_nodes.skip(k + 1));
                }
            } else {
                proof {
                    assert(self.nodes@ =~= old_nodes.take(k + 1).filter(p) + old_nodes.skip(k + 1));
                }
                i = i + 1;
            }
            proof {
                k = k + 1;
            }
        }
        proof {
            assert(old_nodes.take(k) =~= old_nodes);
            assert(self.nodes@ =~= old_nodes.filter(p));
        }
        let kept = Self::kept_edges(&self.edges, None, Some(id));
        self.edges = kept;
        proof {
            law_removal_removes_exactly(old(self)@.nodes, old(self)@.edges, id, EdgeId(0));
            let old_edges = old(self)@.edges;
            let edges = self@.edges;
            let nodes = self@.nodes;
            lemma_filter_subset(old_edges, edge_avoids(id));
            lemma_filter_subset(old_nodes, p);
            if old(self)@.wf() {
                Self::lemma_filtered_edges_distinct(old_edges, edge_avoids(id));
                let r = |a: Node<P>, b: Node<P>| a.id != b.id;
                lemma_filter_pairwise(old_nodes, p, r);
                assert forall|i: int, j: int| 0 <= i < j < nodes.len() implies nodes[i].id != nodes[j].id by {
                    assert(r(nodes[i], nodes[j]));
                }
                assert forall|i: int| 0 <= i < nodes.len() implies (#[trigger] nodes[i]).id.0 < self@.next_node by {
                    let m = choose|m: int| 0 <= m < old_nodes.len() && old_nodes[m] == nodes[i];
                    assert(old_nodes[m].id.0 < old(self)@.next_node);
                }
                assert forall|x: NodeId| holds_node(old_nodes, x) && x != id implies holds_node(nodes, x) by {
                    let m = choose|m: int| #![trigger old_nodes[m]] 0 <= m < old_nodes.len() && old_nodes[m].id == x;
                    old_nodes.lemma_filter_contains(p, m);
                    let q = choose|q: int| 0 <= q < nodes.len() && nodes[q] == old_nodes[m];
                    assert(nodes[q].id == x);
                }
                assert forall|i: int| 0 <= i < edges.len() implies holds_node(nodes, #[trigger] edges[i].from_node) by {
                    let m = choose|m: int| 0 <= m < old_edges.len() && old_edges[m] == edges[i];
                    assert(holds_node(old_nodes, old_edges[m].from_node));
                    assert(edge_avoids(id)(edges[i]));
                }
                assert forall|i: int| 0 <= i < edges.len() implies holds_node(nodes, #[trigger] edges[i].to_node) by {
                    let m = choose|m: int| 0 <= m < old_edges.len() && old_edges[m] == edges[i];
                    assert(holds_node(old_nodes, old_edges[m].to_node));
                    assert(edge_avoids(id)(edges[i]));
                }
                Self::lemma_edge_subset_keeps_wf(old(self)@, DagView { nodes: old_nodes, ..self@ });
            }
        }
    }

    /// Filtering edges keeps their ids and their input ports distinct.
    proof fn lemma_filtered_edges_distinct(edges: Seq<Edge>, p: spec_fn(Edge) -> bool)
        requires
            forall|i: int, j: int| 0 <= i < j < edges.len() ==> edges[i].id != edges[j].id,
            forall|i: int, j: int| 0 <= i < j < edges.len() ==>
                !(edges[i].to_node == edges[j].to_node && edges[i].to_port == edges[j].to_port),
        ensures
            forall|i: int, j: int| 0 <= i < j < edges.filter(p).len() ==> edges.filter(p)[i].id != edges.filter(p)[j].id,
            forall|i: int, j: int| 0 <= i < j < edges.filter(p).len() ==>
                !(edges.filter(p)[i].to_node == edges.filter(p)[j].to_node && edges.filter(p)[i].to_port == edges.filter(p)[j].to_port),
    {
        let r1 = |a: Edge, b: Edge| a.id != b.id;
        let r2 = |a: Edge, b: Edge| !(a.to_node == b.to_node && a.to_port == b.to_port);
        assert forall|i: int, j: int| 0 <= i < j < edges.len() implies #[trigger] r1(edges[i], edges[j]) by {}
        assert forall|i: int, j: int| 0 <= i < j < edges.len() implies #[trigger] r2(edges[i], edges[j]) by {}
        lemma_filter_pairwise(edges, p, r1);
        lemma_filter_pairwise(edges, p, r2);
        let f = edges.filter(p);
        assert forall|i: int, j: int| 0 <= i < j < f.len() implies f[i].id != f[j].id by {
            assert(r1(f[i], f[j]));
        }
        assert forall|i: int, j: int| 0 <= i < j < f.len() implies
            !(f[i].to_node == f[j].to_node && f[i].to_port == f[j].to_port) by {
            assert(r2(f[i], f[j]));
        }
    }

    /// Keeping the nodes and dropping edges keeps the edge rules.
    proof fn lemma_edge_subset_keeps_wf(before: DagView<P>, after: DagView<P>)
        requires
            before.wf(),
            after.nodes == before.nodes,
            after.next_edge == before.next_edge,
            after.next_node == before.next_node,
            forall|i: int| 0 <= i < after.edges.len() ==> before.edges.contains(#[trigger] after.edges[i]),
            forall|i: int, j: int| 0 <= i < j < after.edges.len() ==> after.edges[i].id != after.edges[j].id,
            forall|i: int, j: int| 0 <= i < j < after.edges.len() ==>
                !(after.edges[i].to_node == after.edges[j].to_node && after.edges[i].to_port == after.edges[j].to_port),
        ensures
            after.wf(),
    {
        lemma_acyclic_fewer_edges(after.edges, before.edges);
        assert forall|i: int| 0 <= i < after.edges.len() implies (#[trigger] after.edges[i]).id.0 < after.next_edge by {
            let m = choose|m: int| 0 <= m < before.edges.len() && before.edges[m] == after.edges[i];
            assert(before.edges[m].id.0 < before.next_edge);
        }
        assert forall|i: int| 0 <= i < after.edges.len() implies holds_node(after.nodes, #[trigger] after.edges[i].from_node) by {
            let m = choose|m: int| 0 <= m < before.edges.len() && before.edges[m] == after.edges[i];
            assert(holds_node(before.nodes, before.edges[m].from_node));
        }
        assert forall|i: int| 0 <= i < after.edges.len() implies holds_node(after.nodes, #[trigger] after.edges[i].to_node) by {
            let m = choose|m: int| 0 <= m < before.edges.len() && before.edges[m] == after.edges[i];
            assert(holds_node(before.nodes, before.edges[m].to_node));
        }
    }

    /// The first node with id `id`, if any.
    pub fn get_node(&self, id: NodeId) -> (r: Option<&Node<P>>)
        ensures
            r is Some <==> holds_node(self@.nodes, id),
            r matches Some(n) ==> exists|i: int| first_with_id(self@.nodes, id, i) && *n == self@.nodes[i],
    {
        let mut i: usize = 0;
        while i < self.nodes.len()
            invariant
                0 <= i <= self@.nodes.len(),
                forall|k: int| 0 <= k < i ==> self@.nodes[k].id != id,
            decreases self@.nodes.len() - i,
        {
            if self.nodes[i].id == id {
                assert(first_with_id(self@.nodes, id, i as int));
                return Some(&self.nodes[i]);
            }
            i = i + 1;
        }
        None
    }

    /// The ids of the nodes, in order.
    pub fn node_ids(&self) -> (ids: Vec<NodeId>)
        ensures
            ids@ == self@.nodes.map_values(|n: Node<P>| n.id),
    {
        let mut ids: Vec<NodeId> = Vec::new();
        let mut i: usize = 0;
        while i < self.nodes.len()
            invariant
                0 <= i <= self@.nodes.len(),
                ids@ == self@.nodes.take(i as int).map_values(|n: Node<P>| n.id),
            decreases self@.nodes.len() - i,
        {
            ids.push(self.nodes[i].id);
            assert(self@.nodes.take(i + 1).map_values(|n: Node<P>| n.id)
                =~= self@.nodes.take(i as int).map_values(|n: Node<P>| n.id).push(self@.nodes[i as int].id));
            i = i + 1;
        }
        assert(self@.nodes.take(self@.nodes.len() as int) =~= self@.nodes);
        ids
    }

    /// Position of the first node with id `id`, if any.
    pub fn node_index(&self, id: NodeId) -> (r: Option<usize>)
        ensures
            r is Some <==> holds_node(self@.nodes, id),
            r matches Some(i) ==> first_with_id(self@.nodes, id, i as int),
    {
        let mut i: usize = 0;
        while i < self.nodes.len()
            invariant
                0 <= i <= self@.nodes.len(),
                forall|k: int| 0 <= k < i ==> self@.nodes[k].id != id,
            decreases self@.nodes.len() - i,
        {
            if self.nodes[i].id == id {
                return Some(i);
            }
            i = i + 1;
        }
        None
    }

    /// Mutable access to the first node with id `id`, if any.
    pub fn get_node_mut(&mut self, id: NodeId) -> (r: Option<&mut Node<P>>)
        ensures
            r is Some <==> holds_node(old(self)@.nodes, id),
            r is None ==> final(self)@ == old(self)@,
            r matches Some(n) ==> exists|i: int| {
                &&& first_with_id(old(self)@.nodes, id, i)
                &&& *n == old(self)@.nodes[i]
                &&& final(self)@.nodes == old(self)@.nodes.update(i, *final(n))
            },
            final(self)@.edges == old(self)@.edges,
            final(self)@.next_node == old(self)@.next_node,
            final(self)@.next_edge == old(self)@.next_edge,
    {
        match self.node_index(id) {
            Some(i) => Some(&mut self.nodes[i]),
            None => None,
        }
    }

    /// The edges leaving node `node`, in order.
    pub fn edges_from(&self, node: NodeId) -> (r: Vec<Edge>)
        ensures
            r@ == self@.edges.filter(edge_from(node)),
    {
        let mut out: Vec<Edge> = Vec::new();
        let mut i: usize = 0;
        while i < self.edges.len()
            invariant
                0 <= i <= self@.edges.len(),
                out@ == self@.edges.take(i as int).filter(edge_from(node)),
            decreases self@.edges.len() - i,
        {
            proof {
                lemma_filter_take_step(self@.edges, edge_from(node), i as int);
            }
            let e = self.edges[i];
            if e.from_node == node {
                out.push(e);
            }
            i = i + 1;
        }
        assert(self@.edges.take(self@.edges.len() as int) =~= self@.edges);
        out
    }

    /// The edges entering node `node`, in order.
    pub fn edges_to(&self, node: NodeId) -> (r: Vec<Edge>)
        ensures
            r@ == self@.edges.filter(edge_into(node)),
    {
        let mut out: Vec<Edge> = Vec::new();
        let mut i: usize = 0;
        while i < self.edges.len()
            invariant
                0 <= i <= self@.edges.len(),
                out@ == self@.edges.take(i as int).filter(edge_into(node)),
            decreases self@.edges.len() - i,
        {
            proof {
                lemma_filter_take_step(self@.edges, edge_into(node), i as int);
            }
            let e = self.edges[i];
            if e.to_node == node {
                out.push(e);
            }
            i = i + 1;
        }
        assert(self@.edges.take(self@.edges.len() as int) =~= self@.edges);
        out
    }

    /// Rebuilds a model from stored nodes and edges; the id counters resume
    /// one past the largest id in use (or at 0).
    pub fn from_parts(nodes: Vec<Node<P>>, edges: Vec<Edge>) -> (m: Self)
        requires
            forall|i: int| 0 <= i < nodes@.len() ==> (#[trigger] nodes@[i]).id.0 < u32::MAX,
            forall|i: int| 0 <= i < edges@.len() ==> (#[trigger] edges@[i]).id.0 < u32::MAX,
        ensures
            m@.nodes == nodes@,
            m@.edges == edges@,
            m@.next_node == node_id_bound(nodes@),
            m@.next_edge == edge_id_bound(edges@),
            m@.ids_below_counters(),
            structure_ok(nodes@, edges@) ==> m@.wf(),
    {
        let mut next_node: u32 = 0;
        let mut i: usize = 0;
        while i < nodes.len()
            invariant
                0 <= i <= nodes@.len(),
                forall|k: int| 0 <= k < nodes@.len() ==> (#[trigger] nodes@[k]).id.0 < u32::MAX,
                next_node == node_id_bound(nodes@.take(i as int)),
                forall|k: int| 0 <= k < i ==> (#[trigger] nodes@[k]).id.0 < next_node,
            decreases nodes@.len() - i,
        {
            assert(nodes@.take(i + 1).drop_last() =~= nodes@.take(i as int));
            let here = nodes[i].id.0 + 1;
            if here > next_node {
                next_node = here;
            }
            i = i + 1;
        }
        assert(nodes@.take(nodes@.len() as int) =~= nodes@);
        let mut next_edge: u32 = 0;
        let mut j: usize = 0;
        while j < edges.len()
            invariant
                0 <= j <= edges@.len(),
                forall|k: int| 0 <= k < edges@.len() ==> (#[trigger] edges@[k]).id.0 < u32::MAX,
                next_edge == edge_id_bound(edges@.take(j as int)),
                forall|k: int| 0 <= k < j ==> (#[trigger] edges@[k]).id.0 < next_edge,
            decreases edges@.len() - j,
        {
            assert(edges@.take(j + 1).drop_last() =~= edges@.take(j as int));
            let here = edges[j].id.0 + 1;
            if here > next_edge {
                next_edge = here;
            }
            j = j + 1;
        }
        assert(edges@.take(edges@.len() as int) =~= edges@);
        DagModel { nodes, edges, next_node, next_edge }
    }

    /// The ids of the nodes in an order in which the source of every edge
    /// comes before its target (Kahn's algorithm). Which of the valid orders
    /// comes out depends on the iteration order of a hash map. Only nodes of
    /// the model are listed, each at most once. When every edge joins nodes
    /// of the model, a node is listed exactly when no cycle leads to it (a
    /// node on a cycle counts as led to); with distinct node ids, all nodes
    /// are listed exactly when the edges hold no cycle.
    pub fn topological_order(&self) -> (order: Vec<NodeId>)
        ensures
            order@.no_duplicates(),
            forall|i: int| 0 <= i < order@.len() ==> holds_node(self@.nodes, #[trigger] order@[i]),
            forall|b: int, j: int| 0 <= b < order@.len() && 0 <= j < self@.edges.len()
                && #[trigger] self@.edges[j].to_node == #[trigger] order@[b]
                ==> exists|a: int| 0 <= a < b && order@[a] == self@.edges[j].from_node,
            edges_within(self@.nodes, self@.edges) ==> forall|x: NodeId|
                #[trigger] order@.contains(x) <==> holds_node(self@.nodes, x) && !fed_by_cycle(self@.edges, x),
            node_ids_distinct(self@.nodes) && edges_within(self@.nodes, self@.edges) ==>
                (order@.len() == self@.nodes.len() <==> is_acyclic(self@.edges)),
    {
        let ghost n_seq = self@.nodes;
        let ghost e_seq = self@.edges;
        let ghost keys = node_id_values(n_seq);
        proof {
            lemma_node_id_values(n_seq);
        }
        // In-degree of every node.
        let mut deg: HashMap<u32, usize> = HashMap::new();
        let mut i: usize = 0;
        while i < self.nodes.len()
            invariant
                0 <= i <= n_seq.len(),
                n_seq == self@.nodes,
                forall|v: u32| #[trigger] deg@.contains_key(v) <==> exists|k: int| #![trigger n_seq[k]] 0 <= k < i && n_seq[k].id.0 == v,
                forall|v: u32| #[trigger] deg@.contains_key(v) ==> deg@[v] == 0,
            decreases n_seq.len() - i,
        {
            deg.insert(self.nodes[i].id.0, 0);
            proof {
                let w = n_seq[i as int].id.0;
                assert forall|v: u32| #[trigger] deg@.contains_key(v) <==> exists|k: int| #![trigger n_seq[k]] 0 <= k < i + 1 && n_seq[k].id.0 == v by {
                    if v == w {
                        assert(n_seq[i as int].id.0 == v);
                    }
                }
            }
            i = i + 1;
        }
        let mut j: usize = 0;
        while j < self.edges.len()
            invariant
                0 <= j <= e_seq.len(),
                e_seq == self@.edges,
                n_seq == self@.nodes,
                forall|v: u32| #[trigger] deg@.contains_key(v) <==>
                    (exists|k: int| #![trigger n_seq[k]] 0 <= k < n_seq.len() && n_seq[k].id.0 == v),
                forall|v: u32| #[trigger] deg@.contains_key(v) ==> deg@[v] == pending_into(e_seq.take(j as int), v, Seq::empty()),
            decreases e_seq.len() - j,
        {
            let t = self.edges[j].to_node.0;
            proof {
                let e = e_seq[j as int];
                assert(e_seq.take(j + 1) =~= e_seq.take(j as int).push(e));
                lemma_pending_bound(e_seq.take(j as int), t, Seq::empty());
                assert forall|v: u32| pending_into(#[trigger] e_seq.take(j + 1), v, Seq::empty())
                    == pending_into(e_seq.take(j as int), v, Seq::empty()) + (if e.to_node.0 == v { 1nat } else { 0nat }) by {
                    lemma_pending_push(e_seq.take(j as int), e, v, Seq::empty());
                }
            }
            // Edges into ids that are no node of the model are not counted.
            match deg.get(&t) {
                Some(d) => {
                    let d = *d;
                    deg.insert(t, d + 1);
                },
                None => {},
            }
            j = j + 1;
        }
        assert(e_seq.take(e_seq.len() as int) =~= e_seq);
        // The nodes with no incoming edge start the queue.
        let ghost s = vstd::std_specs::hash::spec_hash_map_iter(&deg).remaining();
        let ghost mut cnt: int = 0;
        let mut queue: Vec<NodeId> = Vec::new();
        for kv in it: deg.iter()
            invariant
                it.seq() == s,
                cnt == it.index(),
                s.no_duplicates(),
                forall|a: int| 0 <= a < s.len() ==> deg@.contains_key(*s[a].0) && deg@[*s[a].0] == *(#[trigger] s[a]).1,
                queue@.no_duplicates(),
                forall|x: NodeId| #[trigger] queue@.contains(x) <==> exists|a: int| 0 <= a < cnt && *s[a].0 == x.0 && *s[a].1 == 0,
        {
            let (k, d) = kv;
            proof {
                assert(kv == s[cnt]);
            }
            if *d == 0 {
                let ghost before = queue@;
                queue.push(NodeId(*k));
                proof {
                    if before.contains(NodeId(*k)) {
                        let a = choose|a: int| 0 <= a < cnt && *s[a].0 == *k && *s[a].1 == 0;
                        assert(s[a] == s[cnt]);
                    }
                    assert forall|x: NodeId| #[trigger] queue@.contains(x) <==> exists|a: int| 0 <= a < cnt + 1 && *s[a].0 == x.0 && *s[a].1 == 0 by {
                        if queue@.contains(x) && x != NodeId(*k) {
                            let q = choose|q: int| 0 <= q < queue@.len() && queue@[q] == x;
                            assert(before[q] == x);
                        }
                        if before.contains(x) {
                            let q = choose|q: int| 0 <= q < before.len() && before[q] == x;
                            assert(queue@[q] == x);
                        }
                        if x == NodeId(*k) {
                            assert(queue@[before.len() as int] == x);
                        }
                    }
                }
            }
            proof {
                cnt = cnt + 1;
            }
        }
        proof {
            assert forall|x: NodeId| #[trigger] queue@.contains(x) <==> deg@.contains_key(x.0) && deg@[x.0] == 0 by {
                if deg@.contains_key(x.0) && deg@[x.0] == 0 {
                    let v = x.0;
                    assert(s.contains((&v, &deg@[v])));
                    let a = choose|a: int| 0 <= a < s.len() && s[a] == (&v, &deg@[v]);
                    assert(*s[a].0 == x.0 && *s[a].1 == 0);
                }
            }
        }
        proof {
            lemma_node_id_values(n_seq);
            assert forall|i: int| 0 <= i < queue@.len() implies keys.contains((#[trigger] queue@[i]).0) by {
                assert(queue@.contains(queue@[i]));
            }
        }
        // Repeatedly emit a node whose every predecessor has been emitted.
        let ghost kset = keys.to_set();
        let ghost mut done_ids: Set<u32> = Set::empty();
        let mut order: Vec<NodeId> = Vec::new();
        while queue.len() > 0
            invariant
                e_seq == self@.edges,
                n_seq == self@.nodes,
                keys == node_id_values(n_seq),
                kset == keys.to_set(),
                kset.finite(),
                forall|v: u32| #[trigger] deg@.contains_key(v) <==> keys.contains(v),
                forall|v: u32| #[trigger] deg@.contains_key(v) ==> deg@[v] == pending_into(e_seq, v, order@),
                forall|v: u32| #[trigger] deg@.contains_key(v) ==>
                    (deg@[v] == 0 <==> (order@.contains(NodeId(v)) || queue@.contains(NodeId(v)))),
                order@.no_duplicates(),
                queue@.no_duplicates(),
                forall|x: NodeId| order@.contains(x) ==> !queue@.contains(x),
                forall|i: int| 0 <= i < order@.len() ==> keys.contains((#[trigger] order@[i]).0),
                forall|i: int| 0 <= i < queue@.len() ==> keys.contains((#[trigger] queue@[i]).0),
                forall|v: u32| #[trigger] done_ids.contains(v) <==> order@.contains(NodeId(v)),
                done_ids.finite(),
                forall|b: int, j: int| 0 <= b < order@.len() && 0 <= j < e_seq.len()
                    && #[trigger] e_seq[j].to_node == #[trigger] order@[b]
                    ==> exists|a: int| 0 <= a < b && order@[a] == e_seq[j].from_node,
            decreases kset.difference(done_ids).len(),
        {
            let ghost old_queue = queue@;
            let n = queue.pop().unwrap();
            let ghost prev = order@;
            proof {
                assert(old_queue =~= queue@.push(n));
                assert(old_queue[old_queue.len() - 1] == n);
                assert(keys.contains(n.0));
                assert(deg@.contains_key(n.0));
                assert(NodeId(n.0) == n);
                assert(old_queue.contains(n));
                assert(deg@[n.0] == 0);
                lemma_pending_zero(e_seq, n.0, prev);
                assert(!prev.contains(n));
            }
            order.push(n);
            proof {
                let d0 = kset.difference(done_ids);
                let d1 = kset.difference(done_ids.insert(n.0));
                assert(d1 =~= d0.remove(n.0));
                assert(d0.contains(n.0));
                done_ids = done_ids.insert(n.0);
                assert forall|v: u32| #[trigger] done_ids.contains(v) <==> order@.contains(NodeId(v)) by {
                    if order@.contains(NodeId(v)) && NodeId(v) != n {
                        let q = choose|q: int| 0 <= q < order@.len() && order@[q] == NodeId(v);
                        assert(prev[q] == NodeId(v));
                    }
                    if prev.contains(NodeId(v)) {
                        let q = choose|q: int| 0 <= q < prev.len() && prev[q] == NodeId(v);
                        assert(order@[q] == NodeId(v));
                    }
                    if NodeId(v) == n {
                        assert(order@[prev.len() as int] == n);
                    }
                }
                assert forall|v: u32| #[trigger] deg@.contains_key(v) implies
                    deg@[v] == pending_into(e_seq, v, order@) + count_from_into(e_seq.skip(0), v, n) by {
                    lemma_pending_mark_done(e_seq, v, prev, n);
                    assert(e_seq.skip(0) =~= e_seq);
                }
                assert forall|x: NodeId| #[trigger] order@.contains(x) <==> prev.contains(x) || x == n by {
                    if order@.contains(x) && x != n {
                        let q = choose|q: int| 0 <= q < order@.len() && order@[q] == x;
                        assert(prev[q] == x);
                    }
                    if prev.contains(x) {
                        let q = choose|q: int| 0 <= q < prev.len() && prev[q] == x;
                        assert(order@[q] == x);
                    }
                    if x == n {
                        assert(order@[prev.len() as int] == n);
                    }
                }
                assert forall|x: NodeId| #[trigger] old_queue.contains(x) <==> queue@.contains(x) || x == n by {
                    if old_queue.contains(x) && x != n {
                        let q = choose|q: int| 0 <= q < old_queue.len() && old_queue[q] == x;
                        assert(queue@[q] == x);
                    }
                    if queue@.contains(x) {
                        let q = choose|q: int| 0 <= q < queue@.len() && queue@[q] == x;
                        assert(old_queue[q] == x);
                    }
                }
                assert forall|b: int, j: int| 0 <= b < order@.len() && 0 <= j < e_seq.len()
                    && #[trigger] e_seq[j].to_node == #[trigger] order@[b]
                    implies exists|a: int| 0 <= a < b && order@[a] == e_seq[j].from_node by {
                    if b < prev.len() {
                        assert(prev[b] == order@[b]);
                        let a = choose|a: int| 0 <= a < b && prev[a] == e_seq[j].from_node;
                        assert(order@[a] == prev[a]);
                    } else {
                        assert(order@[b] == n);
                        assert(e_seq[j].to_node.0 == n.0);
                        assert(prev.contains(e_seq[j].from_node));
                        let a = choose|a: int| 0 <= a < prev.len() && prev[a] == e_seq[j].from_node;
                        assert(order@[a] == prev[a]);
                    }
                }
            }
            let mut j: usize = 0;
            while j < self.edges.len()
                invariant
                    0 <= j <= e_seq.len(),
                    e_seq == self@.edges,
                    n_seq == self@.nodes,
                    keys == node_id_values(n_seq),
                    order@ == prev.push(n),
                    forall|x: NodeId| #[trigger] order@.contains(x) <==> prev.contains(x) || x == n,
                    forall|v: u32| #[trigger] deg@.contains_key(v) <==> keys.contains(v),
                    forall|v: u32| #[trigger] deg@.contains_key(v) ==>
                        deg@[v] == pending_into(e_seq, v, order@) + count_from_into(e_seq.skip(j as int), v, n),
                    forall|v: u32| #[trigger] deg@.contains_key(v) ==>
                        (deg@[v] == 0 <==> (order@.contains(NodeId(v)) || queue@.contains(NodeId(v)))),
                    order@.no_duplicates(),
                    queue@.no_duplicates(),
                    forall|x: NodeId| order@.contains(x) ==> !queue@.contains(x),
                    forall|i: int| 0 <= i < queue@.len() ==> keys.contains((#[trigger] queue@[i]).0),
                decreases e_seq.len() - j,
            {
                let e = self.edges[j];
                proof {
                    assert forall|v: u32| count_from_into(#[trigger] e_seq.skip(j as int), v, n) == count_from_into(e_seq.skip(j + 1), v, n)
                        + (if e.to_node.0 == v && e.from_node == n { 1nat } else { 0nat }) by {
                        lemma_count_from_skip(e_seq, v, n, j as int);
                    }
                }
                let t = e.to_node.0;
                let counted: Option<usize> = if e.from_node == n {
                    match deg.get(&t) {
                        Some(d) => Some(*d),
                        None => None,
                    }
                } else {
                    None
                };
                if let Some(d) = counted {
                    proof {
                        assert(deg@.contains_key(t));
                        assert(count_from_into(e_seq.skip(j as int), t, n) >= 1);
                    }
                    let nd = d - 1;
                    deg.insert(t, nd);
                    proof {
                        assert(NodeId(t) == e.to_node);
                    }
                    if nd == 0 {
                        let ghost before = queue@;
                        queue.push(e.to_node);
                        proof {
                            assert forall|x: NodeId| #[trigger] queue@.contains(x) <==> before.contains(x) || x == e.to_node by {
                                if queue@.contains(x) && x != e.to_node {
                                    let q = choose|q: int| 0 <= q < queue@.len() && queue@[q] == x;
                                    assert(before[q] == x);
                                }
                                if before.contains(x) {
                                    let q = choose|q: int| 0 <= q < before.len() && before[q] == x;
                                    assert(queue@[q] == x);
                                }
                                if x == e.to_node {
                                    assert(queue@[before.len() as int] == x);
                                }
                            }
                            assert forall|v: u32| #[trigger] deg@.contains_key(v) implies
                                (deg@[v] == 0 <==> (order@.contains(NodeId(v)) || queue@.contains(NodeId(v)))) by {
                                if v != t {
                                    assert(NodeId(v) != e.to_node);
                                }
                            }
                        }
                    }
                }
                j = j + 1;
            }
        }
        proof {
            lemma_node_id_values(n_seq);
            assert forall|i: int| 0 <= i < order@.len() implies holds_node(n_seq, #[trigger] order@[i]) by {
                assert(keys.contains(order@[i].0));
                assert(NodeId(order@[i].0) == order@[i]);
            }
            if edges_within(n_seq, e_seq) {
                assert forall|x: NodeId| #[trigger] order@.contains(x) <==> holds_node(n_seq, x) && !fed_by_cycle(e_seq, x) by {
                    if order@.contains(x) {
                        let b = choose|b: int| 0 <= b < order@.len() && order@[b] == x;
                        assert(holds_node(n_seq, order@[b]));
                        if fed_by_cycle(e_seq, x) {
                            lemma_order_has_no_cycle_before(e_seq, order@, b);
                        }
                    } else if holds_node(n_seq, x) {
                        let sset = Set::new(|y: NodeId| holds_node(n_seq, y) && !order@.contains(y));
                        let ids = n_seq.map_values(|m: Node<P>| m.id).to_set();
                        assert(sset.subset_of(ids)) by {
                            assert forall|y: NodeId| sset.contains(y) implies ids.contains(y) by {
                                let k = choose|k: int| #![trigger n_seq[k]] 0 <= k < n_seq.len() && n_seq[k].id == y;
                                assert(n_seq.map_values(|m: Node<P>| m.id)[k] == y);
                            }
                        }
                        vstd::set_lib::lemma_len_subset(sset, ids);
                        assert forall|y: NodeId| #[trigger] sset.contains(y) implies
                            exists|p: NodeId| sset.contains(p) && #[trigger] links(e_seq, p, y) by {
                            assert(keys.contains(y.0));
                            assert(NodeId(y.0) == y);
                            assert(deg@.contains_key(y.0));
                            assert(!queue@.contains(y));
                            assert(deg@[y.0] != 0);
                            let jj = lemma_pending_positive(e_seq, y.0, order@);
                            let p = e_seq[jj].from_node;
                            assert(e_seq[jj].to_node == y);
                            assert(holds_node(n_seq, e_seq[jj].from_node));
                            assert(links(e_seq, p, y));
                            assert(sset.contains(p));
                        }
                        lemma_every_node_has_pred_gives_cycle(e_seq, sset, x);
                    }
                }
                if node_ids_distinct(n_seq) {
                    Self::lemma_order_length(n_seq, e_seq, order@);
                }
            }
        }
        order
    }

    /// With distinct node ids and edges between nodes, an order that lists
    /// exactly the nodes no cycle leads to holds every node exactly when the
    /// edges are acyclic.
    proof fn lemma_order_length(nodes: Seq<Node<P>>, edges: Seq<Edge>, order: Seq<NodeId>)
        requires
            node_ids_distinct(nodes),
            edges_within(nodes, edges),
            order.no_duplicates(),
            forall|i: int| 0 <= i < order.len() ==> holds_node(nodes, #[trigger] order[i]),
            forall|x: NodeId| #[trigger] order.contains(x) <==> holds_node(nodes, x) && !fed_by_cycle(edges, x),
        ensures
            order.len() == nodes.len() <==> is_acyclic(edges),
    {
        let ids = nodes.map_values(|m: Node<P>| m.id);
        assert(ids.no_duplicates()) by {
            assert forall|i: int, j: int| 0 <= i < ids.len() && 0 <= j < ids.len() && i != j implies ids[i] != ids[j] by {
                if i < j {
                    assert(nodes[i].id != nodes[j].id);
                } else {
                    assert(nodes[j].id != nodes[i].id);
                }
            }
        }
        ids.unique_seq_to_set();
        order.unique_seq_to_set();
        let is = ids.to_set();
        let os = order.to_set();
        assert forall|x: NodeId| #[trigger] is.contains(x) <==> holds_node(nodes, x) by {
            if is.contains(x) {
                let k = choose|k: int| 0 <= k < ids.len() && ids[k] == x;
                assert(nodes[k].id == x);
            }
            if holds_node(nodes, x) {
                let k = choose|k: int| #![trigger nodes[k]] 0 <= k < nodes.len() && nodes[k].id == x;
                assert(ids[k] == x);
            }
        }
        assert(os.subset_of(is));
        if is_acyclic(edges) {
            assert forall|x: NodeId| #[trigger] is.contains(x) <==> os.contains(x) by {
                if is.contains(x) && fed_by_cycle(edges, x) {
                    let y = choose|y: NodeId| #[trigger] on_cycle(edges, y) && reaches(edges, y, x);
                }
            }
            assert(os =~= is);
        } else {
            let y = choose|y: NodeId| #[trigger] on_cycle(edges, y);
            let z = choose|z: NodeId| #[trigger] links(edges, y, z) && reaches(edges, z, y);
            let j = choose|j: int| #![trigger edges[j]] 0 <= j < edges.len() && edges[j].from_node == y && edges[j].to_node == z;
            assert(holds_node(nodes, edges[j].from_node));
            lemma_reaches_refl(edges, y);
            assert(fed_by_cycle(edges, y));
            assert(!os.contains(y));
            assert(os.subset_of(is.remove(y)));
            vstd::set_lib::lemma_len_subset(os, is.remove(y));
        }
    }

    /// Whether some edge joins exactly these two ports.
    fn joins(&self, from: NodeId, from_port: usize, to: NodeId, to_port: usize) -> (r: bool)
        ensures
            r == joins_ports(self@.edges, from, from_port, to, to_port),
    {
        let mut i: usize = 0;
        while i < self.edges.len()
            invariant
                0 <= i <= self@.edges.len(),
                forall|k: int| #![trigger self@.edges[k]] 0 <= k < i ==> !(self@.edges[k].from_node == from
                    && self@.edges[k].from_port == from_port && self@.edges[k].to_node == to
                    && self@.edges[k].to_port == to_port),
            decreases self@.edges.len() - i,
        {
            let e = self.edges[i];
            if e.from_node == from && e.from_port == from_port && e.to_node == to && e.to_port == to_port {
                return true;
            }
            i = i + 1;
        }
        false
    }

    /// Whether some edge already ends at this input port.
    fn occupied(&self, to: NodeId, to_port: usize) -> (r: bool)
        ensures
            r == port_taken(self@.edges, to, to_port),
    {
        let mut i: usize = 0;
        while i < self.edges.len()
            invariant
                0 <= i <= self@.edges.len(),
                forall|k: int| #![trigger self@.edges[k]] 0 <= k < i ==> !(self@.edges[k].to_node == to
                    && self@.edges[k].to_port == to_port),
            decreases self@.edges.len() - i,
        {
            let e = self.edges[i];
            if e.to_node == to && e.to_port == to_port {
                return true;
            }
            i = i + 1;
        }
        false
    }

    /// Whether `add_edge` would accept these ports: distinct existing nodes,
    /// no identical edge, a free input port, no path back from `to` to `from`.
    pub fn accepts_edge(&self, from: NodeId, from_port: usize, to: NodeId, to_port: usize) -> (r: bool)
        ensures
            r == self@.accepts_edge(from, from_port, to, to_port),
    {
        if from == to {
            return false;
        }
        if !self.has_node(from) || !self.has_node(to) {
            return false;
        }
        if self.joins(from, from_port, to, to_port) {
            return false;
        }
        if self.occupied(to, to_port) {
            return false;
        }
        !self.path_exists(to, from)
    }

    /// Whether a node id is left to hand out.
    pub fn can_add_node(&self) -> (r: bool)
        ensures
            r == (self@.next_node < u32::MAX),
    {
        self.next_node < u32::MAX
    }

    /// Whether an edge id is left to hand out.
    pub fn can_add_edge(&self) -> (r: bool)
        ensures
            r == (self@.next_edge < u32::MAX),
    {
        self.next_edge < u32::MAX
    }

    /// Connects output port `from_port` of `from` to input port `to_port` of
    /// `to`. Returns `None`, leaving the model unchanged, for a self loop, a
    /// missing node, a duplicate edge, an occupied input port, or an edge
    /// that would close a cycle.
    pub fn add_edge(&mut self, from: NodeId, from_port: usize, to: NodeId, to_port: usize) -> (r: Option<EdgeId>)
        requires
            old(self)@.accepts_edge(from, from_port, to, to_port) ==> old(self)@.next_edge < u32::MAX,
        ensures
            r is Some <==> old(self)@.accepts_edge(from, from_port, to, to_port),
            r matches Some(eid) ==> {
                &&& eid == EdgeId(old(self)@.next_edge)
                &&& final(self)@.edges == old(self)@.edges.push(
                    Edge { id: eid, from_node: from, from_port, to_node: to, to_port },
                )
                &&& final(self)@.nodes == old(self)@.nodes
                &&& final(self)@.next_node == old(self)@.next_node
                &&& final(self)@.next_edge == old(self)@.next_edge + 1
            },
            r is None ==> final(self)@ == old(self)@,
            old(self)@.wf() ==> final(self)@.wf(),
    {
        if !self.accepts_edge(from, from_port, to, to_port) {
            return None;
        }
        let id = EdgeId(self.next_edge);
        self.next_edge = self.next_edge + 1;
        let e = Edge { id, from_node: from, from_port, to_node: to, to_port };
        self.edges.push(e);
        proof {
            let old_edges = old(self)@.edges;
            let edges = self@.edges;
            assert(edges == old_edges.push(e));
            if old(self)@.wf() {
                lemma_acyclic_add_edge(old_edges, e);
                assert forall|i: int| 0 <= i < edges.len() implies holds_node(self@.nodes, #[trigger] edges[i].from_node) by {
                    if i < old_edges.len() {
                        assert(edges[i] == old_edges[i]);
                    }
                }
                assert forall|i: int| 0 <= i < edges.len() implies holds_node(self@.nodes, #[trigger] edges[i].to_node) by {
                    if i < old_edges.len() {
                        assert(edges[i] == old_edges[i]);
                    }
                }
                assert forall|i: int, j: int| 0 <= i < j < edges.len() implies edges[i].id != edges[j].id by {
                    assert(edges[i] == old_edges[i]);
                    if j < old_edges.len() {
                        assert(edges[j] == old_edges[j]);
                    }
                }
                assert forall|i: int, j: int| 0 <= i < j < edges.len() implies
                    !(edges[i].to_node == edges[j].to_node && edges[i].to_port == edges[j].to_port) by {
                    assert(edges[i] == old_edges[i]);
                    if j < old_edges.len() {
                        assert(edges[j] == old_edges[j]);
                    }
                }
                assert forall|i: int| 0 <= i < edges.len() implies (#[trigger] edges[i]).id.0 < self@.next_edge by {
                    if i < old_edges.len() {
                        assert(edges[i] == old_edges[i]);
                    }
                }
            }
        }
        Some(id)
    }

    /// Depth-first search: whether `dst` can be reached from `src`.
    fn path_exists(&self, src: NodeId, dst: NodeId) -> (r: bool)
        ensures
            r == reaches(self@.edges, src, dst),
    {
        let ghost edges = self.edges@;
        let ghost cand: Set<u32> = edges.map_values(|e: Edge| e.to_node.0).push(src.0).to_set();
        proof {
            edges.map_values(|e: Edge| e.to_node.0).push(src.0).lemma_cardinality_of_set();
            lemma_reaches_refl(edges, src);
        }
        let mut visited: HashSet<u32> = HashSet::new();
        let mut stack: Vec<NodeId> = Vec::new();
        stack.push(src);
        assert(stack@[0] == src);
        assert(edges.map_values(|e: Edge| e.to_node.0).push(src.0)[edges.len() as int] == src.0);
        loop
            invariant
                edges == self.edges@,
                cand == edges.map_values(|e: Edge| e.to_node.0).push(src.0).to_set(),
                cand.finite(),
                cand.len() <= edges.len() + 1,
                visited@.subset_of(cand),
                forall|k: int| 0 <= k < stack@.len() ==> cand.contains(#[trigger] stack@[k].0),
                forall|k: int| 0 <= k < stack@.len() ==> reaches(edges, src, #[trigger] stack@[k]),
                forall|v: u32| #[trigger] visited@.contains(v) ==> reaches(edges, src, NodeId(v)),
                visited@.contains(src.0) || stack@.contains(src),
                !visited@.contains(dst.0),
                forall|v: u32, i: int| #![trigger visited@.contains(v), edges[i]]
                    visited@.contains(v) && 0 <= i < edges.len() && edges[i].from_node.0 == v ==>
                        visited@.contains(edges[i].to_node.0) || stack@.contains(edges[i].to_node),
            decreases cand.len() - visited@.len(), stack@.len(),
        {
            let ghost before = visited@;
            let ghost pre_stack = stack@;
            proof {
                vstd::set_lib::lemma_len_subset(visited@, cand);
            }
            match stack.pop() {
                None => {
                    proof {
                        let s = Set::new(|x: NodeId| visited@.contains(x.0));
                        assert forall|x: NodeId, y: NodeId| s.contains(x) && #[trigger] links(edges, x, y) implies s.contains(y) by {
                            let i = choose|i: int| #![trigger edges[i]] 0 <= i < edges.len() && edges[i].from_node == x && edges[i].to_node == y;
                            assert(visited@.contains(x.0) && edges[i].from_node.0 == x.0);
                        }
                        if reaches(edges, src, dst) {
                            lemma_closed_set_holds_reachable(edges, s, src, dst);
                        }
                    }
                    return false;
                },
                Some(n) => {
                    if n == dst {
                        return true;
                    }
                    let fresh = visited.insert(n.0);
                    if !fresh {
                        assert forall|v: u32, i: int| #![trigger visited@.contains(v), edges[i]]
                            visited@.contains(v) && 0 <= i < edges.len() && edges[i].from_node.0 == v implies
                                visited@.contains(edges[i].to_node.0) || stack@.contains(edges[i].to_node) by {
                            if !visited@.contains(edges[i].to_node.0) {
                                assert(pre_stack =~= stack@.push(n));
                                let k = choose|k: int| 0 <= k < pre_stack.len() && pre_stack[k] == edges[i].to_node;
                                if k < stack@.len() {
                                    assert(stack@[k] == pre_stack[k]);
                                }
                            }
                        }
                        proof {
                            if !visited@.contains(src.0) {
                                assert(pre_stack =~= stack@.push(n));
                                let k = choose|k: int| 0 <= k < pre_stack.len() && pre_stack[k] == src;
                                assert(stack@[k] == pre_stack[k]);
                            }
                        }
                        continue;
                    }
                    assert(cand.contains(n.0));
                    proof {
                        vstd::set_lib::lemma_len_subset(visited@, cand);
                        assert(pre_stack =~= stack@.push(n));
                        assert forall|v: u32, i: int| #![trigger visited@.contains(v), edges[i]]
                            visited@.contains(v) && v != n.0 && 0 <= i < edges.len() && edges[i].from_node.0 == v implies
                                visited@.contains(edges[i].to_node.0) || stack@.contains(edges[i].to_node) by {
                            assert(before.contains(v));
                            if !visited@.contains(edges[i].to_node.0) {
                                let k = choose|k: int| 0 <= k < pre_stack.len() && pre_stack[k] == edges[i].to_node;
                                if k < stack@.len() {
                                    assert(stack@[k] == pre_stack[k]);
                                }
                            }
                        }
                        if !visited@.contains(src.0) {
                            let k = choose|k: int| 0 <= k < pre_stack.len() && pre_stack[k] == src;
                            assert(stack@[k] == pre_stack[k]);
                        }
                    }
                    let ghost popped = stack@;
                    let mut j: usize = 0;
                    while j < self.edges.len()
                        invariant
                            edges == self.edges@,
                            cand == edges.map_values(|e: Edge| e.to_node.0).push(src.0).to_set(),
                            0 <= j <= edges.len(),
                            visited@ == before.insert(n.0),
                            visited@.subset_of(cand),
                            visited@.len() <= cand.len(),
                            reaches(edges, src, n),
                            stack@.len() >= popped.len(),
                            forall|k: int| 0 <= k < popped.len() ==> stack@[k] == popped[k],
                            forall|k: int| 0 <= k < stack@.len() ==> cand.contains(#[trigger] stack@[k].0),
                            forall|k: int| 0 <= k < stack@.len() ==> reaches(edges, src, #[trigger] stack@[k]),
                            forall|v: u32| #[trigger] visited@.contains(v) ==> reaches(edges, src, NodeId(v)),
                            visited@.contains(src.0) || stack@.contains(src),
                            !visited@.contains(dst.0),
                            forall|v: u32, i: int| #![trigger visited@.contains(v), edges[i]]
                                visited@.contains(v) && v != n.0 && 0 <= i < edges.len() && edges[i].from_node.0 == v ==>
                                    visited@.contains(edges[i].to_node.0) || stack@.contains(edges[i].to_node),
                            forall|i: int| #![trigger edges[i]]
                                0 <= i < j && edges[i].from_node.0 == n.0 ==>
                                    visited@.contains(edges[i].to_node.0) || stack@.contains(edges[i].to_node),
                        decreases edges.len() - j,
                    {
                        let e = self.edges[j];
                        if e.from_node == n {
                            let ghost prev = stack@;
                            stack.push(e.to_node);
                            proof {
                                assert(links(edges, n, e.to_node));
                                lemma_reaches_step(edges, src, n, e.to_node);
                                assert(edges.map_values(|e: Edge| e.to_node.0)[j as int] == e.to_node.0);
                                assert(edges.map_values(|e: Edge| e.to_node.0).push(src.0)[j as int] == e.to_node.0);
                                assert(stack@[prev.len() as int] == e.to_node);
                                assert forall|x: NodeId| prev.contains(x) implies stack@.contains(x) by {
                                    let k = choose|k: int| 0 <= k < prev.len() && prev[k] == x;
                                    assert(stack@[k] == prev[k]);
                                }
                            }
                        }
                        j = j + 1;
                    }
                    proof {
                        assert forall|v: u32, i: int| #![trigger visited@.contains(v), edges[i]]
                            visited@.contains(v) && 0 <= i < edges.len() && edges[i].from_node.0 == v implies
                                visited@.contains(edges[i].to_node.0) || stack@.contains(edges[i].to_node) by {
                        }
                    }
                },
            }
        }
    }
}

/// Removing the node just added gives back the nodes and edges of a
/// well-formed model: a fresh id matches no other node, and no edge touches it.
pub proof fn law_remove_node_undoes_add_node<P>(v: DagView<P>, kind: NodeKind, data: P)
    requires
        v.wf(),
    ensures
        v.nodes.push(Node { id: NodeId(v.next_node), kind, data }).filter(node_not_id(NodeId(v.next_node))) == v.nodes,
        v.edges.filter(edge_avoids(NodeId(v.next_node))) == v.edges,
{
    let id = NodeId(v.next_node);
    let n = Node { id, kind, data };
    v.nodes.lemma_filter_push(n, node_not_id(id));
    lemma_filter_keeps_all(v.nodes, node_not_id(id));
    assert forall|i: int| 0 <= i < v.edges.len() implies #[trigger] edge_avoids(id)(v.edges[i]) by {
        let a = choose|a: int| #![trigger v.nodes[a]] 0 <= a < v.nodes.len() && v.nodes[a].id == v.edges[i].from_node;
        let b = choose|b: int| #![trigger v.nodes[b]] 0 <= b < v.nodes.len() && v.nodes[b].id == v.edges[i].to_node;
        assert(v.nodes[a].id.0 < v.next_node);
        assert(v.nodes[b].id.0 < v.next_node);
    }
    lemma_filter_keeps_all(v.edges, edge_avoids(id));
}

/// Removing the edge just added gives back the edges of a well-formed model:
/// its fresh id matches no other edge.
pub proof fn law_remove_edge_undoes_add_edge<P>(v: DagView<P>, e: Edge)
    requires
        v.wf(),
        e.id == EdgeId(v.next_edge),
    ensures
        v.edges.push(e).filter(edge_not_id(e.id)) == v.edges,
{
    v.edges.lemma_filter_push(e, edge_not_id(e.id));
    lemma_filter_keeps_all(v.edges, edge_not_id(e.id));
}

/// Removing a node leaves no node with its id and no edge touching it, and
/// keeps every other node and edge; removing an edge leaves no edge with its
/// id and keeps every other edge.
pub proof fn law_removal_removes_exactly<P>(nodes: Seq<Node<P>>, edges: Seq<Edge>, node: NodeId, edge: EdgeId)
    ensures
        forall|i: int| 0 <= i < nodes.filter(node_not_id(node)).len() ==>
            (#[trigger] nodes.filter(node_not_id(node))[i]).id != node,
        forall|i: int| 0 <= i < nodes.len() && (#[trigger] nodes[i]).id != node ==>
            nodes.filter(node_not_id(node)).contains(nodes[i]),
        forall|i: int| 0 <= i < edges.filter(edge_avoids(node)).len() ==>
            (#[trigger] edges.filter(edge_avoids(node))[i]).from_node != node
                && edges.filter(edge_avoids(node))[i].to_node != node,
        forall|i: int| 0 <= i < edges.len() && (#[trigger] edges[i]).from_node != node && edges[i].to_node != node ==>
            edges.filter(edge_avoids(node)).contains(edges[i]),
        forall|i: int| 0 <= i < edges.filter(edge_not_id(edge)).len() ==>
            (#[trigger] edges.filter(edge_not_id(edge))[i]).id != edge,
        forall|i: int| 0 <= i < edges.len() && (#[trigger] edges[i]).id != edge ==>
            edges.filter(edge_not_id(edge)).contains(edges[i]),
{
    broadcast use vstd::seq_lib::group_filter_ensures;
    assert forall|i: int| 0 <= i < nodes.filter(node_not_id(node)).len() implies
        (#[trigger] nodes.filter(node_not_id(node))[i]).id != node by {
        nodes.lemma_filter_pred(node_not_id(node), i);
    }
    assert forall|i: int| 0 <= i < nodes.len() && (#[trigger] nodes[i]).id != node implies
        nodes.filter(node_not_id(node)).contains(nodes[i]) by {
        nodes.lemma_filter_contains(node_not_id(node), i);
    }
    assert forall|i: int| 0 <= i < edges.filter(edge_avoids(node)).len() implies
        (#[trigger] edges.filter(edge_avoids(node))[i]).from_node != node
            && edges.filter(edge_avoids(node))[i].to_node != node by {
        edges.lemma_filter_pred(edge_avoids(node), i);
    }
    assert forall|i: int| 0 <= i < edges.len() && (#[trigger] edges[i]).from_node != node && edges[i].to_node != node implies
        edges.filter(edge_avoids(node)).contains(edges[i]) by {
        edges.lemma_filter_contains(edge_avoids(node), i);
    }
    assert forall|i: int| 0 <= i < edges.filter(edge_not_id(edge)).len() implies
        (#[trigger] edges.filter(edge_not_id(edge))[i]).id != edge by {
        edges.lemma_filter_pred(edge_not_id(edge), i);
    }
    assert forall|i: int| 0 <= i < edges.len() && (#[trigger] edges[i]).id != edge implies
        edges.filter(edge_not_id(edge)).contains(edges[i]) by {
        edges.lemma_filter_contains(edge_not_id(edge), i);
    }
}

/// Whether an edge is accepted depends on its two nodes, the input port and
/// the paths of the model, never on the output port: any output port of an
/// existing node may be wired to a free input port of another node from
/// which it cannot be reached.
pub proof fn law_edge_acceptance_ignores_output_port<P>(
    v: DagView<P>,
    from: NodeId,
    from_port: usize,
    to: NodeId,
    to_port: usize,
)
    ensures
        v.accepts_edge(from, from_port, to, to_port) <==> {
            &&& from != to
            &&& holds_node(v.nodes, from)
            &&& holds_node(v.nodes, to)
            &&& !port_taken(v.edges, to, to_port)
            &&& !reaches(v.edges, to, from)
        },
{
    if joins_ports(v.edges, from, from_port, to, to_port) {
        let i = choose|i: int| #![trigger v.edges[i]]
            0 <= i < v.edges.len() && v.edges[i].from_node == from && v.edges[i].from_port == from_port
                && v.edges[i].to_node == to && v.edges[i].to_port == to_port;
        assert(port_taken(v.edges, to, to_port));
    }
}

/// The id the next `add_node` hands out belongs to no node of a model whose
/// ids lie below its counters (every well-formed model), and likewise the
/// next edge id: ids are never handed out twice, not even after a removal.
pub proof fn law_next_ids_are_unused<P>(v: DagView<P>)
    requires
        v.ids_below_counters(),
    ensures
        !holds_node(v.nodes, NodeId(v.next_node)),
        forall|i: int| 0 <= i < v.edges.len() ==> (#[trigger] v.edges[i]).id != EdgeId(v.next_edge),
{
    if holds_node(v.nodes, NodeId(v.next_node)) {
        let k = choose|k: int| #![trigger v.nodes[k]] 0 <= k < v.nodes.len() && v.nodes[k].id == NodeId(v.next_node);
        assert(v.nodes[k].id.0 < v.next_node);
    }
}

pub(crate) proof fn lemma_filter_keeps_all<A>(s: Seq<A>, p: spec_fn(A) -> bool)
    requires
        forall|i: int| 0 <= i < s.len() ==> #[trigger] p(s[i]),
    ensures
        s.filter(p) == s,
    decreases s.len(),
{
    reveal(Seq::filter);
    if s.len() > 0 {
        let d = s.drop_last();
        assert forall|i: int| 0 <= i < d.len() implies #[trigger] p(d[i]) by {
            assert(p(s[i]));
        }
        lemma_filter_keeps_all(d, p);
        assert(p(s[s.len() - 1]));
        assert(d.push(s.last()) =~= s);
    }
}

} // verus!
