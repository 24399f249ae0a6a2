//! Selection and the pointer-gesture state machine. Hit testing and
//! coordinates stay with the caller: it reports what the pointer hit, and the
//! machine decides what that means for the selection, the model and the
//! gesture under way.

use vstd::prelude::*;
use crate::dag::{DagModel, DagView, Edge, EdgeId, Node, NodeId, edge_avoids, edge_not_id, holds_node, lemma_filter_keeps_all, node_not_id};
use crate::nodes::NodeKind;

verus! {

/// The selected nodes (in the order they were selected) and at most one edge.
#[derive(Clone, Debug, PartialEq, Default)]
pub struct Selection {
    pub nodes: Vec<NodeId>,
    pub edge: Option<EdgeId>,
}

/// `nodes` with the first occurrence of `id` removed, or with `id` appended
/// when it is absent.
pub open spec fn toggled(nodes: Seq<NodeId>, id: NodeId) -> Seq<NodeId> {
    if nodes.contains(id) {
        nodes.remove(nodes.index_of_first(id)->0)
    } else {
        nodes.push(id)
    }
}

/// Toggling flips the membership of exactly the toggled id: in a selection
/// without repeats, `id` is in the result exactly when it was not before, and
/// every other id is in it exactly when it was before. The result has no
/// repeats either.
pub proof fn law_toggle_flips_only_that_id(nodes: Seq<NodeId>, id: NodeId)
    requires
        nodes.no_duplicates(),
    ensures
        toggled(nodes, id).contains(id) <==> !nodes.contains(id),
        forall|m: NodeId| m != id ==> (toggled(nodes, id).contains(m) <==> nodes.contains(m)),
        toggled(nodes, id).no_duplicates(),
{
    if nodes.contains(id) {
        nodes.index_of_first_ensures(id);
        let k = nodes.index_of_first(id)->0;
        let r = nodes.remove(k);
        assert forall|m: NodeId| (r.contains(m) <==> nodes.contains(m) && m != id) by {
            if r.contains(m) {
                let q = choose|q: int| 0 <= q < r.len() && r[q] == m;
                let q0 = if q < k { q } else { q + 1 };
                assert(nodes[q0] == m);
                if m == id {
                    assert(nodes[k] == id);
                    assert(q0 != k);
                }
            }
            if nodes.contains(m) && m != id {
                let q = choose|q: int| 0 <= q < nodes.len() && nodes[q] == m;
                assert(q != k);
                if q < k {
                    assert(r[q] == m);
                } else {
                    assert(r[q - 1] == m);
                }
            }
        }
        assert forall|a: int, b: int| 0 <= a < b < r.len() implies r[a] != r[b] by {
            let a0 = if a < k { a } else { a + 1 };
            let b0 = if b < k { b } else { b + 1 };
            assert(r[a] == nodes[a0]);
            assert(r[b] == nodes[b0]);
        }
    } else {
        let r = nodes.push(id);
        assert forall|m: NodeId| (r.contains(m) <==> nodes.contains(m) || m == id) by {
            if r.contains(m) && m != id {
                let q = choose|q: int| 0 <= q < r.len() && r[q] == m;
                assert(nodes[q] == m);
            }
            if nodes.contains(m) {
                let q = choose|q: int| 0 <= q < nodes.len() && nodes[q] == m;
                assert(r[q] == m);
            }
            if m == id {
                assert(r[nodes.len() as int] == id);
            }
        }
        assert forall|a: int, b: int| 0 <= a < b < r.len() implies r[a] != r[b] by {
            if b == nodes.len() {
                assert(r[a] == nodes[a]);
            } else {
                assert(r[a] == nodes[a]);
                assert(r[b] == nodes[b]);
            }
        }
    }
}

/// `nodes` with `id` appended when it is absent.
pub open spec fn with_node(nodes: Seq<NodeId>, id: NodeId) -> Seq<NodeId> {
    if nodes.contains(id) { nodes } else { nodes.push(id) }
}

impl Selection {
    pub fn none() -> (s: Self)
        ensures
            s.nodes@ == Seq::<NodeId>::empty(),
            s.edge is None,
    {
        Selection { nodes: Vec::new(), edge: None }
    }

    pub fn of_node(id: NodeId) -> (s: Self)
        ensures
            s.nodes@ == seq![id],
            s.edge is None,
    {
        let mut nodes: Vec<NodeId> = Vec::new();
        nodes.push(id);
        assert(nodes@ =~= seq![id]);
        Selection { nodes, edge: None }
    }

    pub fn of_edge(id: EdgeId) -> (s: Self)
        ensures
            s.nodes@ == Seq::<NodeId>::empty(),
            s.edge == Some(id),
    {
        Selection { nodes: Vec::new(), edge: Some(id) }
    }

    pub fn has_node(&self, id: NodeId) -> (r: bool)
        ensures
            r == self.nodes@.contains(id),
    {
        let mut i: usize = 0;
        while i < self.nodes.len()
            invariant
                0 <= i <= self.nodes@.len(),
                forall|k: int| 0 <= k < i ==> self.nodes@[k] != id,
            decreases self.nodes@.len() - i,
        {
            if self.nodes[i] == id {
                assert(self.nodes@[i as int] == id);
                return true;
            }
            i = i + 1;
        }
        false
    }

    pub fn is_empty(&self) -> (r: bool)
        ensures
            r == (self.nodes@.len() == 0 && self.edge is None),
    {
        self.nodes.len() == 0 && self.edge.is_none()
    }

    /// The node selected first, if any.
    pub fn primary_node(&self) -> (r: Option<NodeId>)
        ensures
            r == (if self.nodes@.len() > 0 { Some(self.nodes@[0]) } else { None::<NodeId> }),
    {
        if self.nodes.len() > 0 {
            Some(self.nodes[0])
        } else {
            None
        }
    }

    pub fn node_count(&self) -> (r: usize)
        ensures
            r == self.nodes@.len(),
    {
        self.nodes.len()
    }

    /// Adds `id` to the selected nodes unless it is there, and drops the edge.
    fn add(&mut self, id: NodeId)
        ensures
            final(self).nodes@ == with_node(old(self).nodes@, id),
            final(self).edge is None,
            old(self).nodes@.no_duplicates() ==> final(self).nodes@.no_duplicates(),
    {
        if !self.has_node(id) {
            self.nodes.push(id);
        }
        self.edge = None;
    }

    /// Adds `id` to the selected nodes, or removes it when it is there, and
    /// drops the edge.
    fn toggle(&mut self, id: NodeId)
        ensures
            final(self).nodes@ == toggled(old(self).nodes@, id),
            final(self).edge is None,
            old(self).nodes@.no_duplicates() ==> final(self).nodes@.no_duplicates(),
    {
        let mut i: usize = 0;
        while i < self.nodes.len()
            invariant
                0 <= i <= self.nodes@.len(),
                self.nodes@ == old(self).nodes@,
                forall|k: int| 0 <= k < i ==> self.nodes@[k] != id,
            decreases self.nodes@.len() - i,
        {
            if self.nodes[i] == id {
                let ghost before = self.nodes@;
                proof {
                    before.index_of_first_ensures(id);
                    assert(before.contains(id));
                    assert(before.index_of_first(id) == Some(i as int));
                }
                self.nodes.remove(i);
                self.edge = None;
                proof {
                    if before.no_duplicates() {
                        assert forall|a: int, b: int| 0 <= a < b < self.nodes@.len() implies self.nodes@[a] != self.nodes@[b] by {
                            let a0 = if a < i { a } else { a + 1 };
                            let b0 = if b < i { b } else { b + 1 };
                            assert(self.nodes@[a] == before[a0]);
                            assert(self.nodes@[b] == before[b0]);
                        }
                    }
                }
                return;
            }
            i = i + 1;
        }
        self.nodes.push(id);
        self.edge = None;
    }
}

/// The gesture under way. Pointer coordinates belong to the caller.
#[derive(Clone, Debug)]
pub enum InteractionState {
    Idle,
    /// Dragging the selected nodes that exist in the model.
    DraggingNodes { nodes: Vec<NodeId> },
    DraggingFromPalette { kind: NodeKind },
    DrawingEdge { from_node: NodeId, from_port: usize },
    /// Rubber-band area selection.
    RubberBand,
    Panning,
}

pub struct Interaction {
    pub state: InteractionState,
    pub selection: Selection,
}

/// The ids in `ids` of nodes that exist in `nodes`.
pub open spec fn existing_ids<P>(nodes: Seq<crate::dag::Node<P>>, ids: Seq<NodeId>) -> Seq<NodeId> {
    ids.filter(|id: NodeId| holds_node(nodes, id))
}

/// The nodes of the model whose ids are not among `ids`.
pub open spec fn node_outside<P>(ids: Seq<NodeId>) -> spec_fn(crate::dag::Node<P>) -> bool {
    |n: crate::dag::Node<P>| !ids.contains(n.id)
}

/// The edges that touch none of `ids` and, when `edge` is given, are not it.
pub open spec fn edge_survives(ids: Seq<NodeId>, edge: Option<EdgeId>) -> spec_fn(crate::dag::Edge) -> bool {
    |e: crate::dag::Edge| !ids.contains(e.from_node) && !ids.contains(e.to_node)
        && (edge matches Some(x) ==> e.id != x)
}

/// Deleting a selection removes the selected edge (whatever nodes are
/// selected with it), every selected node and every edge that touches a
/// selected node, and keeps every other node and edge.
pub proof fn law_delete_removes_exactly_the_selection<P>(
    nodes: Seq<Node<P>>,
    edges: Seq<Edge>,
    ids: Seq<NodeId>,
    edge: Option<EdgeId>,
)
    ensures
        forall|i: int| 0 <= i < nodes.filter(node_outside(ids)).len() ==>
            !ids.contains(#[trigger] nodes.filter(node_outside(ids))[i].id),
        forall|i: int| 0 <= i < nodes.len() && !ids.contains(#[trigger] nodes[i].id) ==>
            nodes.filter(node_outside(ids)).contains(nodes[i]),
        forall|i: int| 0 <= i < edges.filter(edge_survives(ids, edge)).len() ==> {
            let e = #[trigger] edges.filter(edge_survives(ids, edge))[i];
            &&& !ids.contains(e.from_node)
            &&& !ids.contains(e.to_node)
            &&& (edge matches Some(x) ==> e.id != x)
        },
        forall|i: int| 0 <= i < edges.len() && !ids.contains(#[trigger] edges[i].from_node)
            && !ids.contains(edges[i].to_node) && !(edge matches Some(x) && edges[i].id == x) ==>
            edges.filter(edge_survives(ids, edge)).contains(edges[i]),
{
    broadcast use vstd::seq_lib::group_filter_ensures;
    assert forall|i: int| 0 <= i < nodes.filter(node_outside(ids)).len() implies
        !ids.contains(#[trigger] nodes.filter(node_outside(ids))[i].id) by {
        nodes.lemma_filter_pred(node_outside(ids), i);
    }
    assert forall|i: int| 0 <= i < nodes.len() && !ids.contains(#[trigger] nodes[i].id) implies
        nodes.filter(node_outside(ids)).contains(nodes[i]) by {
        nodes.lemma_filter_contains(node_outside(ids), i);
    }
    assert forall|i: int| 0 <= i < edges.filter(edge_survives(ids, edge)).len() implies {
        let e = #[trigger] edges.filter(edge_survives(ids, edge))[i];
        &&& !ids.contains(e.from_node)
        &&& !ids.contains(e.to_node)
        &&& (edge matches Some(x) ==> e.id != x)
    } by {
        edges.lemma_filter_pred(edge_survives(ids, edge), i);
    }
    assert forall|i: int| 0 <= i < edges.len() && !ids.contains(#[trigger] edges[i].from_node)
        && !ids.contains(edges[i].to_node) && !(edge matches Some(x) && edges[i].id == x) implies
        edges.filter(edge_survives(ids, edge)).contains(edges[i]) by {
        edges.lemma_filter_contains(edge_survives(ids, edge), i);
    }
}

/// `nodes` extended, in order, by each id of `added` that it lacks.
pub open spec fn with_nodes(nodes: Seq<NodeId>, added: Seq<NodeId>) -> Seq<NodeId>
    decreases added.len(),
{
    if added.len() == 0 {
        nodes
    } else {
        with_node(with_nodes(nodes, added.drop_last()), added.last())
    }
}

/// Adding a band's nodes to a selection gives exactly the ids of the
/// selection and of the band, and brings in no repeat.
pub proof fn law_band_adds_exactly_its_nodes(nodes: Seq<NodeId>, added: Seq<NodeId>)
    ensures
        forall|m: NodeId| #[trigger] with_nodes(nodes, added).contains(m) <==> nodes.contains(m) || added.contains(m),
        nodes.no_duplicates() ==> with_nodes(nodes, added).no_duplicates(),
        with_nodes(nodes, added).len() >= nodes.len(),
        forall|i: int| 0 <= i < nodes.len() ==> with_nodes(nodes, added)[i] == nodes[i],
    decreases added.len(),
{
    if added.len() > 0 {
        let rest = added.drop_last();
        let x = added.last();
        law_band_adds_exactly_its_nodes(nodes, rest);
        let w = with_nodes(nodes, rest);
        assert forall|m: NodeId| #[trigger] added.contains(m) <==> rest.contains(m) || m == x by {
            if added.contains(m) && m != x {
                let q = choose|q: int| 0 <= q < added.len() && added[q] == m;
                assert(rest[q] == m);
            }
            if rest.contains(m) {
                let q = choose|q: int| 0 <= q < rest.len() && rest[q] == m;
                assert(added[q] == m);
            }
            if m == x {
                assert(added[added.len() - 1] == x);
            }
        }
        if !w.contains(x) {
            let r = w.push(x);
            assert forall|m: NodeId| #[trigger] r.contains(m) <==> w.contains(m) || m == x by {
                if r.contains(m) && m != x {
                    let q = choose|q: int| 0 <= q < r.len() && r[q] == m;
                    assert(w[q] == m);
                }
                if w.contains(m) {
                    let q = choose|q: int| 0 <= q < w.len() && w[q] == m;
                    assert(r[q] == m);
                }
                if m == x {
                    assert(r[w.len() as int] == x);
                }
            }
            if w.no_duplicates() {
                assert forall|a: int, b: int| 0 <= a < b < r.len() implies r[a] != r[b] by {
                    assert(r[a] == w[a]);
                    if b < w.len() {
                        assert(r[b] == w[b]);
                    }
                }
            }
            assert forall|i: int| 0 <= i < nodes.len() implies r[i] == nodes[i] by {
                assert(r[i] == w[i]);
            }
        }
    }
}

/// What releasing the pointer does to the model, given the gesture under
/// way, the input port under the pointer and the payload for a dropped node.
pub open spec fn release_effect<P>(
    state: InteractionState,
    before: DagView<P>,
    after: DagView<P>,
    input_port_hit: Option<(NodeId, usize)>,
    placed: P,
) -> bool {
    match state {
        InteractionState::DrawingEdge { from_node, from_port } => match input_port_hit {
            Some((to, to_port)) => if before.accepts_edge(from_node, from_port, to, to_port) {
                &&& after.edges == before.edges.push(Edge {
                    id: crate::dag::EdgeId(before.next_edge),
                    from_node,
                    from_port,
                    to_node: to,
                    to_port,
                })
                &&& after.nodes == before.nodes
                &&& after.next_node == before.next_node
                &&& after.next_edge == before.next_edge + 1
            } else {
                after == before
            },
            None => after == before,
        },
        InteractionState::DraggingFromPalette { kind } => {
            &&& after.nodes == before.nodes.push(Node { id: NodeId(before.next_node), kind, data: placed })
            &&& after.edges == before.edges
            &&& after.next_node == before.next_node + 1
            &&& after.next_edge == before.next_edge
        },
        _ => after == before,
    }
}

/// Whether releasing the pointer in this gesture changes the structure of
/// the model: an accepted edge or a dropped node. Moving nodes is no
/// structural change.
pub open spec fn release_mutates<P>(
    state: InteractionState,
    before: DagView<P>,
    input_port_hit: Option<(NodeId, usize)>,
) -> bool {
    match state {
        InteractionState::DrawingEdge { from_node, from_port } => match input_port_hit {
            Some((to, to_port)) => before.accepts_edge(from_node, from_port, to, to_port),
            None => false,
        },
        InteractionState::DraggingFromPalette { .. } => true,
        _ => false,
    }
}

/// Releasing the pointer in this gesture needs a fresh id: the model must
/// have one to give.
pub open spec fn release_has_ids<P>(state: InteractionState, before: DagView<P>, input_port_hit: Option<(NodeId, usize)>) -> bool {
    &&& state is DraggingFromPalette ==> before.next_node < u32::MAX
    &&& match (state, input_port_hit) {
        (InteractionState::DrawingEdge { from_node, from_port }, Some((to, to_port))) =>
            before.accepts_edge(from_node, from_port, to, to_port) ==> before.next_edge < u32::MAX,
        _ => true,
    }
}

proof fn lemma_filter_filter<A>(s: Seq<A>, p: spec_fn(A) -> bool, q: spec_fn(A) -> bool, pq: spec_fn(A) -> bool)
    requires
        forall|x: A| #[trigger] pq(x) == (p(x) && q(x)),
    ensures
        s.filter(p).filter(q) == s.filter(pq),
    decreases s.len(),
{
    reveal(Seq::filter);
    if s.len() > 0 {
        lemma_filter_filter(s.drop_last(), p, q, pq);
        let x = s.last();
        if p(x) {
            s.drop_last().filter(p).lemma_filter_push(x, q);
            assert(s.filter(p) == s.drop_last().filter(p).push(x));
        }
    }
}

/// Whether pressing `key` deletes the selection.
pub fn is_delete_key(key: &str) -> (r: bool)
    ensures
        r == (key@ == "Delete"@ || key@ == "Backspace"@),
{
    key.to_owned() == "Delete".to_owned() || key.to_owned() == "Backspace".to_owned()
}

impl Interaction {
    pub fn new() -> (i: Self)
        ensures
            i.state is Idle,
            i.selection.nodes@ == Seq::<NodeId>::empty(),
            i.selection.edge is None,
    {
        Interaction { state: InteractionState::Idle, selection: Selection::none() }
    }

    /// Pointer press. `button` is 0 for the left, 1 for the middle and 2 for
    /// the right button; `shift` makes selection additive. The caller reports
    /// what lies under the pointer: an output port, a node body, an edge.
    /// Middle and right buttons start panning; an output port starts an edge;
    /// a node body selects (toggles with shift, keeps a selection that holds
    /// it, otherwise selects it alone) and starts dragging the selection; an
    /// edge selects it; empty canvas starts a rubber band, clearing the
    /// selection without shift.
    pub fn mouse_down<P>(
        &mut self,
        button: u16,
        shift: bool,
        output_port_hit: Option<(NodeId, usize)>,
        node_hit: Option<NodeId>,
        edge_hit: Option<EdgeId>,
        dag: &DagModel<P>,
    )
        ensures
            button == 1 || button == 2 ==> final(self).state is Panning && final(self).selection == old(self).selection,
            output_port_hit matches Some((n, p)) ==> !(button == 1 || button == 2) ==> {
                &&& final(self).state == (InteractionState::DrawingEdge { from_node: n, from_port: p })
                &&& final(self).selection == old(self).selection
            },
            node_hit matches Some(n) ==> !(button == 1 || button == 2) && output_port_hit is None ==> {
                &&& final(self).selection.nodes@ == if shift {
                        toggled(old(self).selection.nodes@, n)
                    } else if old(self).selection.nodes@.contains(n) {
                        old(self).selection.nodes@
                    } else {
                        seq![n]
                    }
                &&& final(self).selection.edge == if !shift && old(self).selection.nodes@.contains(n) {
                        old(self).selection.edge
                    } else {
                        None
                    }
                &&& final(self).state matches InteractionState::DraggingNodes { nodes }
                    && nodes@ == existing_ids(dag@.nodes, final(self).selection.nodes@)
                &&& shift && old(self).selection.nodes@.no_duplicates() ==> {
                    &&& (final(self).selection.nodes@.contains(n) <==> !old(self).selection.nodes@.contains(n))
                    &&& forall|m: NodeId| m != n ==>
                        (#[trigger] final(self).selection.nodes@.contains(m) <==> old(self).selection.nodes@.contains(m))
                }
            },
            edge_hit matches Some(e) ==> !(button == 1 || button == 2) && output_port_hit is None && node_hit is None ==> {
                &&& final(self).state is Idle
                &&& final(self).selection.edge == Some(e)
                &&& final(self).selection.nodes@ == if shift { old(self).selection.nodes@ } else { Seq::empty() }
            },
            !(button == 1 || button == 2) && output_port_hit is None && node_hit is None && edge_hit is None ==> {
                &&& final(self).state is RubberBand
                &&& final(self).selection.nodes@ == if shift { old(self).selection.nodes@ } else { Seq::empty() }
                &&& final(self).selection.edge == if shift { old(self).selection.edge } else { None }
            },
            old(self).selection.nodes@.no_duplicates() ==> final(self).selection.nodes@.no_duplicates(),
    {
        if button == 1 || button == 2 {
            self.state = InteractionState::Panning;
            return;
        }
        if let Some((node_id, port_idx)) = output_port_hit {
            self.state = InteractionState::DrawingEdge { from_node: node_id, from_port: port_idx };
            return;
        }
        if let Some(node_id) = node_hit {
            if shift {
                proof {
                    if self.selection.nodes@.no_duplicates() {
                        law_toggle_flips_only_that_id(self.selection.nodes@, node_id);
                    }
                }
                self.selection.toggle(node_id);
            } else if !self.selection.has_node(node_id) {
                self.selection = Selection::of_node(node_id);
            }
            let mut nodes: Vec<NodeId> = Vec::new();
            let mut i: usize = 0;
            while i < self.selection.nodes.len()
                invariant
                    0 <= i <= self.selection.nodes@.len(),
                    nodes@ == existing_ids(dag@.nodes, self.selection.nodes@.take(i as int)),
                decreases self.selection.nodes@.len() - i,
            {
                let nid = self.selection.nodes[i];
                proof {
                    let sel = self.selection.nodes@;
                    assert(sel.take(i + 1) =~= sel.take(i as int).push(nid));
                    sel.take(i as int).lemma_filter_push(nid, |id: NodeId| holds_node(dag@.nodes, id));
                }
                if dag.has_node(nid) {
                    nodes.push(nid);
                }
                i = i + 1;
            }
            assert(self.selection.nodes@.take(self.selection.nodes@.len() as int) =~= self.selection.nodes@);
            self.state = InteractionState::DraggingNodes { nodes };
            return;
        }
        if let Some(edge_id) = edge_hit {
            if shift {
                self.selection.edge = Some(edge_id);
            } else {
                self.selection = Selection::of_edge(edge_id);
            }
            self.state = InteractionState::Idle;
            return;
        }
        if !shift {
            self.selection = Selection::none();
        }
        self.state = InteractionState::RubberBand;
    }

    /// Pointer release. The caller reports the input port under the pointer,
    /// the nodes inside the rubber band (empty when the band is too small to
    /// count), and the payload a node dropped from the palette would carry.
    /// A drawn edge is added when the model accepts it; a palette drop adds a
    /// node and selects it alone; a rubber band adds the nodes inside it to
    /// the selection. Returns whether the model changed structurally; the end
    /// of a node drag is no structural change (see `History::record_release`
    /// for the undo step of a drag).
    pub fn mouse_up<P>(
        &mut self,
        dag: &mut DagModel<P>,
        input_port_hit: Option<(NodeId, usize)>,
        in_band: &Vec<NodeId>,
        placed: P,
    ) -> (mutated: bool)
        requires
            release_has_ids(old(self).state, old(dag)@, input_port_hit),
        ensures
            final(self).state is Idle,
            mutated == release_mutates(old(self).state, old(dag)@, input_port_hit),
            release_effect(old(self).state, old(dag)@, final(dag)@, input_port_hit, placed),
            old(self).state is DraggingFromPalette ==> {
                &&& final(self).selection.nodes@ == seq![NodeId(old(dag)@.next_node)]
                &&& final(self).selection.edge is None
            },
            old(self).state is RubberBand ==> {
                &&& final(self).selection.nodes@ == with_nodes(old(self).selection.nodes@, in_band@)
                &&& forall|m: NodeId| #[trigger] final(self).selection.nodes@.contains(m)
                    <==> old(self).selection.nodes@.contains(m) || in_band@.contains(m)
                &&& final(self).selection.edge == if in_band@.len() == 0 { old(self).selection.edge } else { None }
            },
            !(old(self).state is DraggingFromPalette) && !(old(self).state is RubberBand) ==> final(self).selection == old(self).selection,
            old(dag)@.wf() ==> final(dag)@.wf(),
            old(self).selection.nodes@.no_duplicates() ==> final(self).selection.nodes@.no_duplicates(),
    {
        let mut prev = InteractionState::Idle;
        std::mem::swap(&mut prev, &mut self.state);
        let mut mutated = false;
        match prev {
            InteractionState::DrawingEdge { from_node, from_port } => {
                if let Some((to_node, to_port)) = input_port_hit {
                    if dag.add_edge(from_node, from_port, to_node, to_port).is_some() {
                        mutated = true;
                    }
                }
            },
            InteractionState::DraggingFromPalette { kind } => {
                let id = dag.add_node(kind, placed);
                self.selection = Selection::of_node(id);
                mutated = true;
            },
            InteractionState::RubberBand => {
                let ghost start = self.selection.nodes@;
                let ghost start_edge = self.selection.edge;
                let mut i: usize = 0;
                while i < in_band.len()
                    invariant
                        0 <= i <= in_band@.len(),
                        self.state is Idle,
                        self.selection.nodes@ == with_nodes(start, in_band@.take(i as int)),
                        self.selection.edge == if i == 0 { start_edge } else { None },
                        start.no_duplicates() ==> self.selection.nodes@.no_duplicates(),
                    decreases in_band@.len() - i,
                {
                    assert(in_band@.take(i + 1).drop_last() =~= in_band@.take(i as int));
                    self.selection.add(in_band[i]);
                    i = i + 1;
                }
                assert(in_band@.take(in_band@.len() as int) =~= in_band@);
                proof {
                    law_band_adds_exactly_its_nodes(start, in_band@);
                }
            },
            _ => {},
        }
        mutated
    }

    /// Deletes the selected edge and the selected nodes (with their edges)
    /// and clears the selection. Returns whether anything was removed.
    pub fn delete_selected<P>(&mut self, dag: &mut DagModel<P>) -> (mutated: bool)
        ensures
            mutated == (final(dag)@.nodes.len() < old(dag)@.nodes.len()
                || final(dag)@.edges.len() < old(dag)@.edges.len()),
            old(self).selection.edge matches Some(x) ==>
                forall|i: int| 0 <= i < final(dag)@.edges.len() ==> (#[trigger] final(dag)@.edges[i]).id != x,
            forall|i: int| 0 <= i < final(dag)@.nodes.len() ==>
                !old(self).selection.nodes@.contains((#[trigger] final(dag)@.nodes[i]).id),
            forall|i: int| 0 <= i < final(dag)@.edges.len() ==>
                !old(self).selection.nodes@.contains((#[trigger] final(dag)@.edges[i]).from_node)
                && !old(self).selection.nodes@.contains(final(dag)@.edges[i].to_node),
            final(dag)@.nodes == old(dag)@.nodes.filter(node_outside(old(self).selection.nodes@)),
            final(dag)@.edges == old(dag)@.edges.filter(edge_survives(old(self).selection.nodes@, old(self).selection.edge)),
            final(dag)@.next_node == old(dag)@.next_node,
            final(dag)@.next_edge == old(dag)@.next_edge,
            old(dag)@.wf() ==> final(dag)@.wf(),
            final(self).selection.nodes@ == Seq::<NodeId>::empty(),
            final(self).selection.edge is None,
            final(self).state == old(self).state,
    {
        let ghost sel = self.selection.nodes@;
        let ghost old_edge = self.selection.edge;
        let n0 = dag.nodes().len();
        let e0 = dag.edges().len();
        let taken = self.selection.edge.take();
        if let Some(eid) = taken {
            dag.remove_edge(eid);
        }
        let ghost e1 = dag@.edges;
        proof {
            lemma_filter_keeps_all(old(dag)@.nodes, node_outside::<P>(sel.take(0)));
            lemma_filter_keeps_all(e1, edge_survives(sel.take(0), None));
        }
        let mut nodes: Vec<NodeId> = Vec::new();
        std::mem::swap(&mut nodes, &mut self.selection.nodes);
        let mut i: usize = 0;
        while i < nodes.len()
            invariant
                0 <= i <= nodes@.len(),
                nodes@ == sel,
                dag@.nodes == old(dag)@.nodes.filter(node_outside(sel.take(i as int))),
                dag@.edges == e1.filter(edge_survives(sel.take(i as int), None)),
                dag@.next_node == old(dag)@.next_node,
                dag@.next_edge == old(dag)@.next_edge,
                old(dag)@.wf() ==> dag@.wf(),
            decreases nodes@.len() - i,
        {
            let nid = nodes[i];
            dag.remove_node(nid);
            proof {
                assert(sel.take(i + 1) =~= sel.take(i as int).push(nid));
                assert forall|n: Node<P>| #[trigger] node_outside::<P>(sel.take(i + 1))(n)
                    == (node_outside::<P>(sel.take(i as int))(n) && node_not_id::<P>(nid)(n)) by {
                    let t = sel.take(i as int);
                    if t.push(nid).contains(n.id) && !t.contains(n.id) {
                        let k = choose|k: int| 0 <= k < t.push(nid).len() && t.push(nid)[k] == n.id;
                        if k < t.len() { assert(t[k] == t.push(nid)[k]); }
                    }
                    if t.contains(n.id) {
                        let k = choose|k: int| 0 <= k < t.len() && t[k] == n.id;
                        assert(t.push(nid)[k] == t[k]);
                    }
                    if n.id == nid {
                        assert(t.push(nid)[t.len() as int] == nid);
                    }
                }
                lemma_filter_filter(old(dag)@.nodes, node_outside::<P>(sel.take(i as int)), node_not_id::<P>(nid),
                    node_outside::<P>(sel.take(i + 1)));
                assert forall|e: Edge| #[trigger] edge_survives(sel.take(i + 1), None)(e)
                    == (edge_survives(sel.take(i as int), None)(e) && edge_avoids(nid)(e)) by {
                    let t = sel.take(i as int);
                    assert forall|x: NodeId| t.push(nid).contains(x) <==> t.contains(x) || x == nid by {
                        if t.push(nid).contains(x) && !t.contains(x) {
                            let k = choose|k: int| 0 <= k < t.push(nid).len() && t.push(nid)[k] == x;
                            if k < t.len() { assert(t[k] == t.push(nid)[k]); }
                        }
                        if t.contains(x) {
                            let k = choose|k: int| 0 <= k < t.len() && t[k] == x;
                            assert(t.push(nid)[k] == t[k]);
                        }
                        if x == nid {
                            assert(t.push(nid)[t.len() as int] == nid);
                        }
                    }
                }
                lemma_filter_filter(e1, edge_survives(sel.take(i as int), None), edge_avoids(nid),
                    edge_survives(sel.take(i + 1), None));
            }
            i = i + 1;
        }
        proof {
            assert(sel.take(sel.len() as int) =~= sel);
            if let Some(eid) = old_edge {
                lemma_filter_filter(old(dag)@.edges, edge_not_id(eid), edge_survives(sel, None), edge_survives(sel, old_edge));
            } else {
                assert(e1 == old(dag)@.edges);
                assert(edge_survives(sel, None) =~= edge_survives(sel, old_edge));
            }
        }
        proof {
            law_delete_removes_exactly_the_selection(old(dag)@.nodes, old(dag)@.edges, sel, old_edge);
            assert forall|i: int| 0 <= i < dag@.edges.len() implies
                !sel.contains((#[trigger] dag@.edges[i]).from_node) && !sel.contains(dag@.edges[i].to_node)
                && (old_edge matches Some(x) ==> dag@.edges[i].id != x) by {
                assert(dag@.edges[i] == old(dag)@.edges.filter(edge_survives(sel, old_edge))[i]);
            }
            assert forall|i: int| 0 <= i < dag@.nodes.len() implies !sel.contains((#[trigger] dag@.nodes[i]).id) by {
                assert(dag@.nodes[i] == old(dag)@.nodes.filter(node_outside::<P>(sel))[i]);
            }
        }
        self.selection = Selection::none();
        dag.nodes().len() < n0 || dag.edges().len() < e0
    }

    /// Starts dragging a new node of `kind` from the palette.
    pub fn palette_drag_start(&mut self, kind: NodeKind)
        ensures
            final(self).state == (InteractionState::DraggingFromPalette { kind }),
            final(self).selection == old(self).selection,
    {
        self.state = InteractionState::DraggingFromPalette { kind };
    }

    /// Selects every node of the model and no edge.
    pub fn select_all<P>(&mut self, dag: &DagModel<P>)
        ensures
            final(self).selection.nodes@ == dag@.nodes.map_values(|n: crate::dag::Node<P>| n.id),
            final(self).selection.edge is None,
            final(self).state == old(self).state,
    {
        let ids = dag.node_ids();
        self.selection.nodes = ids;
        self.selection.edge = None;
    }
}

} // verus!
