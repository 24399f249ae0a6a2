//! Pre-built model templates for common stormwater design workflows: which
//! kinds of node they hold and how they are wired. The caller supplies each
//! node's payload (position, label, configuration).

use vstd::prelude::*;
use crate::dag::{DagModel, DagView, Edge, EdgeId, Node, NodeId, holds_node, joins_ports, port_taken};
use crate::graph::{is_walk, links, reaches, walk_between};
use crate::nodes::NodeKind;

verus! {

/// A wire of a template: output port `from_port` of the template's node
/// number `from` to input port `to_port` of node number `to`.
#[derive(Clone, Copy, PartialEq, Eq, Structural, Debug)]
pub struct TemplateLink {
    pub from: usize,
    pub from_port: usize,
    pub to: usize,
    pub to_port: usize,
}

/// The node kinds of a template, in the order their nodes are added, and its wires.
pub struct Template {
    pub kinds: Vec<NodeKind>,
    pub links: Vec<TemplateLink>,
}

#[verifier::ext_equal]
pub struct TemplateView {
    pub kinds: Seq<NodeKind>,
    pub links: Seq<TemplateLink>,
}

impl View for Template {
    type V = TemplateView;

    open spec fn view(&self) -> TemplateView {
        TemplateView { kinds: self.kinds@, links: self.links@ }
    }
}

/// A menu entry: the name `get` knows the template by, its title and summary.
#[derive(Clone, Copy, Debug)]
pub struct TemplateInfo {
    pub id: &'static str,
    pub label: &'static str,
    pub description: &'static str,
}

fn link(from: usize, from_port: usize, to: usize, to_port: usize) -> (l: TemplateLink)
    ensures
        l == (TemplateLink { from, from_port, to, to_port }),
{
    TemplateLink { from, from_port, to, to_port }
}

fn same_text(a: &str, b: &str) -> (r: bool)
    ensures
        r == (a@ == b@),
{
    a.to_owned() == b.to_owned()
}

/// The nodes of a template with their payloads; node number `i` gets id `i`.
pub open spec fn placed_nodes<P>(kinds: Seq<NodeKind>, data: Seq<P>) -> Seq<Node<P>> {
    Seq::new(kinds.len(), |i: int| Node { id: NodeId(i as u32), kind: kinds[i], data: data[i] })
}

/// Wiring one link: the edge is added when the model accepts it.
pub open spec fn connect<P>(v: DagView<P>, l: TemplateLink) -> DagView<P> {
    let from = NodeId(l.from as u32);
    let to = NodeId(l.to as u32);
    if v.accepts_edge(from, l.from_port, to, l.to_port) {
        DagView {
            nodes: v.nodes,
            edges: v.edges.push(Edge { id: EdgeId(v.next_edge), from_node: from, from_port: l.from_port, to_node: to, to_port: l.to_port }),
            next_node: v.next_node,
            next_edge: (v.next_edge + 1) as u32,
        }
    } else {
        v
    }
}

/// Wiring the links in order.
pub open spec fn connect_all<P>(v: DagView<P>, links: Seq<TemplateLink>) -> DagView<P>
    decreases links.len(),
{
    if links.len() == 0 {
        v
    } else {
        connect(connect_all(v, links.drop_last()), links.last())
    }
}

/// The model a template builds into with the given payloads.
pub open spec fn built<P>(t: TemplateView, data: Seq<P>) -> DagView<P> {
    connect_all(
        DagView { nodes: placed_nodes(t.kinds, data), edges: Seq::empty(), next_node: t.kinds.len() as u32, next_edge: 0 },
        t.links,
    )
}

/// Builds a fresh model from a template: adds its nodes in order, carrying
/// the payloads in order, then wires its links in order, leaving out any
/// link the model refuses.
pub fn build<P>(t: &Template, payloads: Vec<P>) -> (m: DagModel<P>)
    requires
        payloads@.len() == t.kinds@.len(),
        t.kinds@.len() < u32::MAX,
        t.links@.len() < u32::MAX,
    ensures
        m@ == built(t@, payloads@),
        m@.wf(),
{
    let ghost data = payloads@;
    let ghost kinds = t.kinds@;
    let mut rest = payloads;
    let mut m: DagModel<P> = DagModel::new();
    let mut i: usize = 0;
    while i < t.kinds.len()
        invariant
            0 <= i <= kinds.len(),
            kinds == t.kinds@,
            kinds.len() < u32::MAX,
            data.len() == kinds.len(),
            rest@ == data.skip(i as int),
            m@.nodes == placed_nodes(kinds.take(i as int), data.take(i as int)),
            m@.edges == Seq::<Edge>::empty(),
            m@.next_node == i,
            m@.next_edge == 0,
            m@.wf(),
        decreases kinds.len() - i,
    {
        let ghost before = rest@;
        let p = rest.remove(0);
        proof {
            assert(p == data[i as int]);
            assert(rest@ =~= data.skip(i + 1));
        }
        let id = m.add_node(t.kinds[i], p);
        proof {
            assert(placed_nodes(kinds.take(i + 1), data.take(i + 1))
                =~= placed_nodes(kinds.take(i as int), data.take(i as int)).push(Node { id, kind: kinds[i as int], data: p }));
        }
        i = i + 1;
    }
    proof {
        assert(kinds.take(kinds.len() as int) =~= kinds);
        assert(data.take(data.len() as int) =~= data);
    }
    let ghost start = m@;
    let mut k: usize = 0;
    while k < t.links.len()
        invariant
            0 <= k <= t.links@.len(),
            t.links@.len() < u32::MAX,
            m@ == connect_all(start, t.links@.take(k as int)),
            m@.next_edge <= k,
            m@.wf(),
        decreases t.links@.len() - k,
    {
        let l = t.links[k];
        proof {
            assert(t.links@.take(k + 1).drop_last() =~= t.links@.take(k as int));
        }
        let _ = m.add_edge(NodeId(l.from as u32), l.from_port, NodeId(l.to as u32), l.to_port);
        k = k + 1;
    }
    proof {
        assert(t.links@.take(t.links@.len() as int) =~= t.links@);
    }
    m
}

/// Detention pond sizing: rainfall, SCS runoff, unit hydrograph, detention pond, outfall.
pub open spec fn detention_design_view() -> TemplateView {
    TemplateView {
        kinds: seq![NodeKind::RainfallEvent, NodeKind::Catchment, NodeKind::ScsRunoff, NodeKind::UnitHydrograph, NodeKind::DetentionPond, NodeKind::Outfall],
        links: seq![TemplateLink { from: 0, from_port: 0, to: 2, to_port: 1 }, TemplateLink { from: 1, from_port: 0, to: 2, to_port: 0 }, TemplateLink { from: 2, from_port: 0, to: 3, to_port: 0 }, TemplateLink { from: 3, from_port: 0, to: 4, to_port: 0 }, TemplateLink { from: 4, from_port: 0, to: 5, to_port: 0 }],
    }
}

/// Detention pond sizing: rainfall, SCS runoff, unit hydrograph, detention pond, outfall.
pub fn detention_design() -> (t: Template)
    ensures
        t@ == detention_design_view(),
{
    let t = Template {
        kinds: vec![NodeKind::RainfallEvent, NodeKind::Catchment, NodeKind::ScsRunoff, NodeKind::UnitHydrograph, NodeKind::DetentionPond, NodeKind::Outfall],
        links: vec![link(0, 0, 2, 1), link(1, 0, 2, 0), link(2, 0, 3, 0), link(3, 0, 4, 0), link(4, 0, 5, 0)],
    };
    assert(t@ =~~= detention_design_view());
    t
}

/// Water quality design: catchment, water-quality volume, BMP sizing, treatment train, outfall.
pub open spec fn wq_design_view() -> TemplateView {
    TemplateView {
        kinds: seq![NodeKind::Catchment, NodeKind::RainfallEvent, NodeKind::WaterQualityVolume, NodeKind::BmpSizing, NodeKind::TreatmentTrain, NodeKind::Outfall],
        links: seq![TemplateLink { from: 0, from_port: 0, to: 2, to_port: 0 }, TemplateLink { from: 1, from_port: 0, to: 2, to_port: 1 }, TemplateLink { from: 2, from_port: 0, to: 3, to_port: 0 }, TemplateLink { from: 3, from_port: 0, to: 4, to_port: 0 }, TemplateLink { from: 4, from_port: 0, to: 5, to_port: 0 }],
    }
}

/// Water quality design: catchment, water-quality volume, BMP sizing, treatment train, outfall.
pub fn wq_design() -> (t: Template)
    ensures
        t@ == wq_design_view(),
{
    let t = Template {
        kinds: vec![NodeKind::Catchment, NodeKind::RainfallEvent, NodeKind::WaterQualityVolume, NodeKind::BmpSizing, NodeKind::TreatmentTrain, NodeKind::Outfall],
        links: vec![link(0, 0, 2, 0), link(1, 0, 2, 1), link(2, 0, 3, 0), link(3, 0, 4, 0), link(4, 0, 5, 0)],
    };
    assert(t@ =~~= wq_design_view());
    t
}

/// Erosion and sediment control: catchment, rational method and RUSLE, sediment basin, outfall.
pub open spec fn erosion_control_view() -> TemplateView {
    TemplateView {
        kinds: seq![NodeKind::Catchment, NodeKind::RationalMethod, NodeKind::RusleErosion, NodeKind::SedimentBasin, NodeKind::Outfall],
        links: seq![TemplateLink { from: 0, from_port: 0, to: 1, to_port: 0 }, TemplateLink { from: 0, from_port: 0, to: 2, to_port: 0 }, TemplateLink { from: 1, from_port: 0, to: 3, to_port: 0 }, TemplateLink { from: 2, from_port: 0, to: 3, to_port: 1 }, TemplateLink { from: 3, from_port: 0, to: 4, to_port: 0 }],
    }
}

/// Erosion and sediment control: catchment, rational method and RUSLE, sediment basin, outfall.
pub fn erosion_control() -> (t: Template)
    ensures
        t@ == erosion_control_view(),
{
    let t = Template {
        kinds: vec![NodeKind::Catchment, NodeKind::RationalMethod, NodeKind::RusleErosion, NodeKind::SedimentBasin, NodeKind::Outfall],
        links: vec![link(0, 0, 1, 0), link(0, 0, 2, 0), link(1, 0, 3, 0), link(2, 0, 3, 1), link(3, 0, 4, 0)],
    };
    assert(t@ =~~= erosion_control_view());
    t
}

/// Full stormwater chain: hydrology, hydraulics and water quality together. Its last link
/// targets an occupied outfall port and is left out when the template is built.
pub open spec fn full_stormwater_view() -> TemplateView {
    TemplateView {
        kinds: seq![NodeKind::Catchment, NodeKind::RainfallEvent, NodeKind::ScsRunoff, NodeKind::TimeOfConcentration, NodeKind::UnitHydrograph, NodeKind::ManningPipe, NodeKind::DetentionPond, NodeKind::WaterQualityVolume, NodeKind::TreatmentBmp, NodeKind::Outfall],
        links: seq![TemplateLink { from: 1, from_port: 0, to: 2, to_port: 1 }, TemplateLink { from: 0, from_port: 0, to: 2, to_port: 0 }, TemplateLink { from: 0, from_port: 0, to: 3, to_port: 0 }, TemplateLink { from: 2, from_port: 0, to: 4, to_port: 0 }, TemplateLink { from: 3, from_port: 0, to: 4, to_port: 1 }, TemplateLink { from: 4, from_port: 0, to: 6, to_port: 0 }, TemplateLink { from: 2, from_port: 0, to: 5, to_port: 0 }, TemplateLink { from: 6, from_port: 0, to: 9, to_port: 0 }, TemplateLink { from: 0, from_port: 0, to: 7, to_port: 0 }, TemplateLink { from: 1, from_port: 0, to: 7, to_port: 1 }, TemplateLink { from: 7, from_port: 0, to: 8, to_port: 0 }, TemplateLink { from: 8, from_port: 0, to: 9, to_port: 0 }],
    }
}

/// Full stormwater chain: hydrology, hydraulics and water quality together. Its last link
/// targets an occupied outfall port and is left out when the template is built.
pub fn full_stormwater() -> (t: Template)
    ensures
        t@ == full_stormwater_view(),
{
    let t = Template {
        kinds: vec![NodeKind::Catchment, NodeKind::RainfallEvent, NodeKind::ScsRunoff, NodeKind::TimeOfConcentration, NodeKind::UnitHydrograph, NodeKind::ManningPipe, NodeKind::DetentionPond, NodeKind::WaterQualityVolume, NodeKind::TreatmentBmp, NodeKind::Outfall],
        links: vec![link(1, 0, 2, 1), link(0, 0, 2, 0), link(0, 0, 3, 0), link(2, 0, 4, 0), link(3, 0, 4, 1), link(4, 0, 6, 0), link(2, 0, 5, 0), link(6, 0, 9, 0), link(0, 0, 7, 0), link(1, 0, 7, 1), link(7, 0, 8, 0), link(8, 0, 9, 0)],
    };
    assert(t@ =~~= full_stormwater_view());
    t
}

/// Continuous simulation: site, multi-year simulation, treatment train, outfall.
pub open spec fn continuous_sim_view() -> TemplateView {
    TemplateView {
        kinds: seq![NodeKind::Catchment, NodeKind::ContinuousSim, NodeKind::TreatmentTrain, NodeKind::Outfall],
        links: seq![TemplateLink { from: 0, from_port: 0, to: 1, to_port: 0 }, TemplateLink { from: 1, from_port: 0, to: 2, to_port: 0 }, TemplateLink { from: 2, from_port: 0, to: 3, to_port: 0 }],
    }
}

/// Continuous simulation: site, multi-year simulation, treatment train, outfall.
pub fn continuous_sim() -> (t: Template)
    ensures
        t@ == continuous_sim_view(),
{
    let t = Template {
        kinds: vec![NodeKind::Catchment, NodeKind::ContinuousSim, NodeKind::TreatmentTrain, NodeKind::Outfall],
        links: vec![link(0, 0, 1, 0), link(1, 0, 2, 0), link(2, 0, 3, 0)],
    };
    assert(t@ =~~= continuous_sim_view());
    t
}

/// Some edge of `m` leads from a node of kind `a` to a node of kind `b`.
pub open spec fn wires<P>(m: DagView<P>, a: NodeKind, b: NodeKind) -> bool {
    exists|k: int, i: int, j: int| #![trigger m.edges[k], m.nodes[i], m.nodes[j]]
        0 <= k < m.edges.len() && 0 <= i < m.nodes.len() && 0 <= j < m.nodes.len()
            && m.nodes[i].id == m.edges[k].from_node && m.nodes[j].id == m.edges[k].to_node
            && m.nodes[i].kind == a && m.nodes[j].kind == b
}

/// The edge `e` is what link `l` becomes when node number `n` has id `n`.
spec fn link_matches(e: Edge, l: TemplateLink) -> bool {
    &&& e.from_node == NodeId(l.from as u32)
    &&& e.from_port == l.from_port
    &&& e.to_node == NodeId(l.to as u32)
    &&& e.to_port == l.to_port
}

/// Every link goes from a node to one added after it, within the template.
spec fn forward_template(t: TemplateView) -> bool {
    &&& t.kinds.len() < u32::MAX
    &&& forall|i: int| 0 <= i < t.links.len() ==> (#[trigger] t.links[i]).from < t.links[i].to < t.kinds.len()
}

/// Every edge goes from a smaller id to a larger one.
spec fn forward_edges(edges: Seq<Edge>) -> bool {
    forall|i: int| 0 <= i < edges.len() ==> (#[trigger] edges[i]).from_node.0 < edges[i].to_node.0
}

/// Along edges that go from smaller to larger ids, ids never decrease.
proof fn lemma_forward_reaches(edges: Seq<Edge>, w: Seq<NodeId>, k: int)
    requires
        forward_edges(edges),
        is_walk(edges, w),
        0 <= k < w.len(),
    ensures
        w[0].0 <= w[k].0,
    decreases k,
{
    if k > 0 {
        lemma_forward_reaches(edges, w, k - 1);
        assert(links(edges, w[k - 1], w[(k - 1) + 1]));
        let j = choose|j: int| #![trigger edges[j]] 0 <= j < edges.len() && edges[j].from_node == w[k - 1] && edges[j].to_node == w[k];
    }
}

/// The model before any link is wired.
spec fn unwired<P>(t: TemplateView, data: Seq<P>) -> DagView<P> {
    DagView { nodes: placed_nodes(t.kinds, data), edges: Seq::empty(), next_node: t.kinds.len() as u32, next_edge: 0 }
}

/// Wiring keeps the nodes, only ever appends edges, and every edge it holds
/// comes from an earlier link.
proof fn lemma_wiring<P>(t: TemplateView, data: Seq<P>, k: int)
    requires
        forward_template(t),
        0 <= k <= t.links.len(),
    ensures
        connect_all(unwired(t, data), t.links.take(k)).nodes == placed_nodes(t.kinds, data),
        forward_edges(connect_all(unwired(t, data), t.links.take(k)).edges),
        forall|i: int| 0 <= i < connect_all(unwired(t, data), t.links.take(k)).edges.len() ==>
            exists|j: int| 0 <= j < k && link_matches(#[trigger] connect_all(unwired(t, data), t.links.take(k)).edges[i], t.links[j]),
    decreases k,
{
    let v0 = unwired(t, data);
    if k == 0 {
        assert(t.links.take(0) =~= Seq::<TemplateLink>::empty());
    } else {
        lemma_wiring(t, data, k - 1);
        let prev = connect_all(v0, t.links.take(k - 1));
        let l = t.links[k - 1];
        assert(t.links.take(k).drop_last() =~= t.links.take(k - 1));
        assert(t.links.take(k).last() == l);
        let cur = connect_all(v0, t.links.take(k));
        assert(cur == connect(prev, l));
        assert(l.from < l.to < t.kinds.len());
        assert forall|i: int| 0 <= i < cur.edges.len() implies
            exists|j: int| 0 <= j < k && link_matches(#[trigger] cur.edges[i], t.links[j]) by {
            if i < prev.edges.len() {
                assert(cur.edges[i] == prev.edges[i]);
                let j = choose|j: int| 0 <= j < k - 1 && link_matches(prev.edges[i], t.links[j]);
            } else {
                assert(link_matches(cur.edges[i], t.links[k - 1]));
            }
        }
        assert forall|i: int| 0 <= i < cur.edges.len() implies (#[trigger] cur.edges[i]).from_node.0 < cur.edges[i].to_node.0 by {
            if i < prev.edges.len() {
                assert(cur.edges[i] == prev.edges[i]);
            }
        }
    }
}

/// Wiring later links keeps every edge already there, at its place.
proof fn lemma_wiring_keeps<P>(t: TemplateView, data: Seq<P>, k: int, m: int)
    requires
        0 <= k <= m <= t.links.len(),
    ensures
        connect_all(unwired(t, data), t.links.take(k)).edges.len() <= connect_all(unwired(t, data), t.links.take(m)).edges.len(),
        forall|i: int| 0 <= i < connect_all(unwired(t, data), t.links.take(k)).edges.len() ==>
            connect_all(unwired(t, data), t.links.take(m)).edges[i] == connect_all(unwired(t, data), t.links.take(k)).edges[i],
    decreases m - k,
{
    if k < m {
        lemma_wiring_keeps(t, data, k, m - 1);
        assert(t.links.take(m).drop_last() =~= t.links.take(m - 1));
    }
}

/// A link of a template whose links all go forward is wired into the built
/// model when no earlier link ends at the same input port.
proof fn lemma_link_wired<P>(t: TemplateView, data: Seq<P>, k: int)
    requires
        forward_template(t),
        data.len() == t.kinds.len(),
        0 <= k < t.links.len(),
        forall|j: int| 0 <= j < k ==> !((#[trigger] t.links[j]).to == t.links[k].to && t.links[j].to_port == t.links[k].to_port),
    ensures
        wires(built(t, data), t.kinds[t.links[k].from as int], t.kinds[t.links[k].to as int]),
{
    let v0 = unwired(t, data);
    let l = t.links[k];
    lemma_wiring(t, data, k);
    let prev = connect_all(v0, t.links.take(k));
    let nodes = placed_nodes(t.kinds, data);
    let from = NodeId(l.from as u32);
    let to = NodeId(l.to as u32);
    assert(l.from < l.to < t.kinds.len());
    assert(nodes[l.from as int].id == from);
    assert(nodes[l.to as int].id == to);
    assert(holds_node(prev.nodes, from));
    assert(holds_node(prev.nodes, to));
    assert(!port_taken(prev.edges, to, l.to_port)) by {
        if port_taken(prev.edges, to, l.to_port) {
            let i = choose|i: int| #![trigger prev.edges[i]] 0 <= i < prev.edges.len() && prev.edges[i].to_node == to && prev.edges[i].to_port == l.to_port;
            let j = choose|j: int| 0 <= j < k && link_matches(prev.edges[i], t.links[j]);
            assert(t.links[j].from < t.links[j].to < t.kinds.len());
        }
    }
    assert(!joins_ports(prev.edges, from, l.from_port, to, l.to_port)) by {
        if joins_ports(prev.edges, from, l.from_port, to, l.to_port) {
            let i = choose|i: int| #![trigger prev.edges[i]] 0 <= i < prev.edges.len() && prev.edges[i].from_node == from
                && prev.edges[i].from_port == l.from_port && prev.edges[i].to_node == to && prev.edges[i].to_port == l.to_port;
        }
    }
    assert(!reaches(prev.edges, to, from)) by {
        if reaches(prev.edges, to, from) {
            let w = choose|w: Seq<NodeId>| walk_between(prev.edges, w, to, from);
            lemma_forward_reaches(prev.edges, w, w.len() - 1);
        }
    }
    assert(prev.accepts_edge(from, l.from_port, to, l.to_port));
    assert(t.links.take(k + 1).drop_last() =~= t.links.take(k));
    let cur = connect_all(v0, t.links.take(k + 1));
    assert(cur == connect(prev, l));
    let e = prev.edges.len() as int;
    lemma_wiring_keeps(t, data, k + 1, t.links.len() as int);
    assert(t.links.take(t.links.len() as int) =~= t.links);
    lemma_wiring(t, data, t.links.len() as int);
    let m = built(t, data);
    assert(m == connect_all(v0, t.links.take(t.links.len() as int)));
    assert(m.edges[e] == cur.edges[e]);
    assert(m.nodes[l.from as int].id == m.edges[e].from_node);
    assert(m.nodes[l.to as int].id == m.edges[e].to_node);
}

/// The detention template wires rainfall and catchment into SCS runoff, which
/// feeds the unit hydrograph, which feeds the detention pond, which feeds the
/// outfall.
pub proof fn law_detention_design_chain<P>(data: Seq<P>)
    requires
        data.len() == detention_design_view().kinds.len(),
    ensures
        wires(built(detention_design_view(), data), NodeKind::RainfallEvent, NodeKind::ScsRunoff),
        wires(built(detention_design_view(), data), NodeKind::Catchment, NodeKind::ScsRunoff),
        wires(built(detention_design_view(), data), NodeKind::ScsRunoff, NodeKind::UnitHydrograph),
        wires(built(detention_design_view(), data), NodeKind::UnitHydrograph, NodeKind::DetentionPond),
        wires(built(detention_design_view(), data), NodeKind::DetentionPond, NodeKind::Outfall),
{
    let t = detention_design_view();
    assert(forward_template(t));
    lemma_link_wired(t, data, 0);
    lemma_link_wired(t, data, 1);
    lemma_link_wired(t, data, 2);
    lemma_link_wired(t, data, 3);
    lemma_link_wired(t, data, 4);
}

/// The water-quality template wires the catchment and the design storm into
/// the water-quality volume, which feeds BMP sizing, which feeds the treatment
/// train, which feeds the outfall.
pub proof fn law_wq_design_chain<P>(data: Seq<P>)
    requires
        data.len() == wq_design_view().kinds.len(),
    ensures
        wires(built(wq_design_view(), data), NodeKind::Catchment, NodeKind::WaterQualityVolume),
        wires(built(wq_design_view(), data), NodeKind::RainfallEvent, NodeKind::WaterQualityVolume),
        wires(built(wq_design_view(), data), NodeKind::WaterQualityVolume, NodeKind::BmpSizing),
        wires(built(wq_design_view(), data), NodeKind::BmpSizing, NodeKind::TreatmentTrain),
        wires(built(wq_design_view(), data), NodeKind::TreatmentTrain, NodeKind::Outfall),
{
    let t = wq_design_view();
    assert(forward_template(t));
    lemma_link_wired(t, data, 0);
    lemma_link_wired(t, data, 1);
    lemma_link_wired(t, data, 2);
    lemma_link_wired(t, data, 3);
    lemma_link_wired(t, data, 4);
}

/// The erosion template wires the catchment into both the rational method
/// and RUSLE, which both feed the sediment basin, which feeds the outfall.
pub proof fn law_erosion_control_chain<P>(data: Seq<P>)
    requires
        data.len() == erosion_control_view().kinds.len(),
    ensures
        wires(built(erosion_control_view(), data), NodeKind::Catchment, NodeKind::RationalMethod),
        wires(built(erosion_control_view(), data), NodeKind::Catchment, NodeKind::RusleErosion),
        wires(built(erosion_control_view(), data), NodeKind::RationalMethod, NodeKind::SedimentBasin),
        wires(built(erosion_control_view(), data), NodeKind::RusleErosion, NodeKind::SedimentBasin),
        wires(built(erosion_control_view(), data), NodeKind::SedimentBasin, NodeKind::Outfall),
{
    let t = erosion_control_view();
    assert(forward_template(t));
    lemma_link_wired(t, data, 0);
    lemma_link_wired(t, data, 1);
    lemma_link_wired(t, data, 2);
    lemma_link_wired(t, data, 3);
    lemma_link_wired(t, data, 4);
}

/// The continuous-simulation template wires the site into the simulation,
/// which feeds the treatment train, which feeds the outfall.
pub proof fn law_continuous_sim_chain<P>(data: Seq<P>)
    requires
        data.len() == continuous_sim_view().kinds.len(),
    ensures
        wires(built(continuous_sim_view(), data), NodeKind::Catchment, NodeKind::ContinuousSim),
        wires(built(continuous_sim_view(), data), NodeKind::ContinuousSim, NodeKind::TreatmentTrain),
        wires(built(continuous_sim_view(), data), NodeKind::TreatmentTrain, NodeKind::Outfall),
{
    let t = continuous_sim_view();
    assert(forward_template(t));
    lemma_link_wired(t, data, 0);
    lemma_link_wired(t, data, 1);
    lemma_link_wired(t, data, 2);
}

/// The full template wires hydrology (catchment, rainfall, SCS runoff, time
/// of concentration, unit hydrograph) into the detention pond and the outlet
/// pipe, and water quality (volume, treatment BMP) beside it; the pond feeds
/// the outfall.
pub proof fn law_full_stormwater_chain<P>(data: Seq<P>)
    requires
        data.len() == full_stormwater_view().kinds.len(),
    ensures
        wires(built(full_stormwater_view(), data), NodeKind::RainfallEvent, NodeKind::ScsRunoff),
        wires(built(full_stormwater_view(), data), NodeKind::Catchment, NodeKind::ScsRunoff),
        wires(built(full_stormwater_view(), data), NodeKind::Catchment, NodeKind::TimeOfConcentration),
        wires(built(full_stormwater_view(), data), NodeKind::ScsRunoff, NodeKind::UnitHydrograph),
        wires(built(full_stormwater_view(), data), NodeKind::TimeOfConcentration, NodeKind::UnitHydrograph),
        wires(built(full_stormwater_view(), data), NodeKind::UnitHydrograph, NodeKind::DetentionPond),
        wires(built(full_stormwater_view(), data), NodeKind::ScsRunoff, NodeKind::ManningPipe),
        wires(built(full_stormwater_view(), data), NodeKind::DetentionPond, NodeKind::Outfall),
        wires(built(full_stormwater_view(), data), NodeKind::Catchment, NodeKind::WaterQualityVolume),
        wires(built(full_stormwater_view(), data), NodeKind::RainfallEvent, NodeKind::WaterQualityVolume),
        wires(built(full_stormwater_view(), data), NodeKind::WaterQualityVolume, NodeKind::TreatmentBmp),
{
    let t = full_stormwater_view();
    assert(forward_template(t));
    lemma_link_wired(t, data, 0);
    lemma_link_wired(t, data, 1);
    lemma_link_wired(t, data, 2);
    lemma_link_wired(t, data, 3);
    lemma_link_wired(t, data, 4);
    lemma_link_wired(t, data, 5);
    lemma_link_wired(t, data, 6);
    lemma_link_wired(t, data, 7);
    lemma_link_wired(t, data, 8);
    lemma_link_wired(t, data, 9);
    lemma_link_wired(t, data, 10);
}

/// The templates offered in the editor's menu, in menu order.
pub open spec fn catalog_view() -> Seq<TemplateInfo> {
    seq![
        TemplateInfo { id: "detention", label: "Detention Sizing", description: "Rainfall → SCS → Unit Hydrograph → Detention Pond → Outfall" },
        TemplateInfo { id: "wq", label: "Water Quality Design", description: "Catchment → WQV → BMP Sizing → Treatment Train → Outfall" },
        TemplateInfo { id: "erosion", label: "Erosion & Sediment", description: "Catchment → Rational + RUSLE → Sediment Basin → Outfall" },
        TemplateInfo { id: "continuous", label: "Continuous Simulation", description: "Site → 5-yr Hargreaves ET → Treatment Train → Outfall" },
        TemplateInfo { id: "full", label: "Full Stormwater Chain", description: "Complete hydrology → hydraulics → WQ design workflow" },
    ]
}

/// The templates offered in the editor's menu, in menu order.
pub fn catalog() -> (r: Vec<TemplateInfo>)
    ensures
        r@ == catalog_view(),
{
    let r = vec![
        TemplateInfo { id: "detention", label: "Detention Sizing", description: "Rainfall → SCS → Unit Hydrograph → Detention Pond → Outfall" },
        TemplateInfo { id: "wq", label: "Water Quality Design", description: "Catchment → WQV → BMP Sizing → Treatment Train → Outfall" },
        TemplateInfo { id: "erosion", label: "Erosion & Sediment", description: "Catchment → Rational + RUSLE → Sediment Basin → Outfall" },
        TemplateInfo { id: "continuous", label: "Continuous Simulation", description: "Site → 5-yr Hargreaves ET → Treatment Train → Outfall" },
        TemplateInfo { id: "full", label: "Full Stormwater Chain", description: "Complete hydrology → hydraulics → WQ design workflow" },
    ];
    assert(r@ =~= catalog_view());
    r
}

/// The template called `name`, if there is one.
pub fn get(name: &str) -> (r: Option<Template>)
    ensures
        name@ == "detention"@ ==> (r matches Some(t) && t@ == detention_design_view()),
        name@ == "wq"@ ==> (r matches Some(t) && t@ == wq_design_view()),
        name@ == "erosion"@ ==> (r matches Some(t) && t@ == erosion_control_view()),
        name@ == "full"@ ==> (r matches Some(t) && t@ == full_stormwater_view()),
        name@ == "continuous"@ ==> (r matches Some(t) && t@ == continuous_sim_view()),
        r is Some <==> !(name@ != "detention"@ && name@ != "wq"@ && name@ != "erosion"@ && name@ != "full"@ && name@ != "continuous"@),
{
    proof {
        reveal_strlit("detention");
        reveal_strlit("wq");
        reveal_strlit("erosion");
        reveal_strlit("full");
        reveal_strlit("continuous");
        assert("detention"@.len() == 9);
        assert("wq"@.len() == 2);
        assert("erosion"@.len() == 7);
        assert("full"@.len() == 4);
        assert("continuous"@.len() == 10);
    }
    if same_text(name, "detention") {
        Some(detention_design())
    } else if same_text(name, "wq") {
        Some(wq_design())
    } else if same_text(name, "erosion") {
        Some(erosion_control())
    } else if same_text(name, "full") {
        Some(full_stormwater())
    } else if same_text(name, "continuous") {
        Some(continuous_sim())
    } else {
        None
    }
}

} // verus!
