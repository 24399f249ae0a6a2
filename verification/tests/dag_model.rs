use hydrocomplete_dag::dag::{DagModel, Edge, EdgeId, Node, NodeId};
use hydrocomplete_dag::nodes::NodeKind;

/// Payload the tests attach to nodes: a canvas position.
type Pos = (f64, f64);

fn mk() -> DagModel<Pos> {
    DagModel::new()
}

#[test]
fn add_nodes_assigns_sequential_ids() {
    let mut dag = mk();
    let a = dag.add_node(NodeKind::Catchment, (0.0, 0.0));
    let b = dag.add_node(NodeKind::RationalMethod, (100.0, 0.0));
    assert_eq!(a.0, 0);
    assert_eq!(b.0, 1);
    assert_eq!(dag.nodes().len(), 2);
}

#[test]
fn add_edge_basic() {
    let mut dag = mk();
    let a = dag.add_node(NodeKind::Catchment, (0.0, 0.0));
    let b = dag.add_node(NodeKind::RationalMethod, (100.0, 0.0));
    let e = dag.add_edge(a, 0, b, 0);
    assert!(e.is_some());
    assert_eq!(dag.edges().len(), 1);
}

#[test]
fn reject_self_loop() {
    let mut dag = mk();
    let a = dag.add_node(NodeKind::Catchment, (0.0, 0.0));
    assert!(dag.add_edge(a, 0, a, 0).is_none());
}

#[test]
fn reject_duplicate_edge() {
    let mut dag = mk();
    let a = dag.add_node(NodeKind::Catchment, (0.0, 0.0));
    let b = dag.add_node(NodeKind::RationalMethod, (100.0, 0.0));
    assert!(dag.add_edge(a, 0, b, 0).is_some());
    assert!(dag.add_edge(a, 0, b, 0).is_none()); // duplicate
}

#[test]
fn reject_port_already_occupied() {
    let mut dag = mk();
    let a = dag.add_node(NodeKind::Catchment, (0.0, 0.0));
    let b = dag.add_node(NodeKind::Catchment, (50.0, 0.0));
    let c = dag.add_node(NodeKind::RationalMethod, (200.0, 0.0));
    assert!(dag.add_edge(a, 0, c, 0).is_some());
    // second edge into same input port must be rejected
    assert!(dag.add_edge(b, 0, c, 0).is_none());
}

#[test]
fn reject_cycle_direct() {
    let mut dag = mk();
    let a = dag.add_node(NodeKind::Catchment, (0.0, 0.0));
    let b = dag.add_node(NodeKind::RationalMethod, (100.0, 0.0));
    assert!(dag.add_edge(a, 0, b, 0).is_some());
    // reverse would create a cycle
    assert!(dag.add_edge(b, 0, a, 0).is_none());
}

#[test]
fn reject_cycle_transitive() {
    let mut dag = mk();
    let a = dag.add_node(NodeKind::Catchment, (0.0, 0.0));
    let b = dag.add_node(NodeKind::ScsRunoff, (100.0, 0.0));
    let c = dag.add_node(NodeKind::DetentionPond, (200.0, 0.0));
    dag.add_edge(a, 0, b, 0).unwrap();
    dag.add_edge(b, 0, c, 0).unwrap();
    // c -> a would create cycle a -> b -> c -> a
    assert!(dag.add_edge(c, 0, a, 0).is_none());
}

#[test]
fn topological_order_linear_chain() {
    let mut dag = mk();
    let a = dag.add_node(NodeKind::Catchment, (0.0, 0.0));
    let b = dag.add_node(NodeKind::ScsRunoff, (100.0, 0.0));
    let c = dag.add_node(NodeKind::DetentionPond, (200.0, 0.0));
    let d = dag.add_node(NodeKind::Outfall, (300.0, 0.0));
    dag.add_edge(a, 0, b, 0).unwrap();
    dag.add_edge(b, 0, c, 0).unwrap();
    dag.add_edge(c, 0, d, 0).unwrap();
    let order = dag.topological_order();
    assert_eq!(order.len(), 4);
    let pos = |id: NodeId| order.iter().position(|&x| x == id).unwrap();
    assert!(pos(a) < pos(b));
    assert!(pos(b) < pos(c));
    assert!(pos(c) < pos(d));
}

#[test]
fn topological_order_diamond() {
    // a -> b, a -> c, b -> d, c -> d
    let mut dag = mk();
    let a = dag.add_node(NodeKind::Catchment, (0.0, 0.0));
    let b = dag.add_node(NodeKind::RationalMethod, (100.0, 0.0));
    let c = dag.add_node(NodeKind::ScsRunoff, (100.0, 80.0));
    let d = dag.add_node(NodeKind::Outfall, (200.0, 40.0));
    dag.add_edge(a, 0, b, 0).unwrap();
    dag.add_edge(a, 0, c, 0).unwrap();
    dag.add_edge(b, 0, d, 0).unwrap();
    let _ = dag.add_edge(c, 0, d, 0).is_none(); // port 0 already occupied on d
    // partial: a < b, a < c; b < d or c < d
    let order = dag.topological_order();
    let pos = |id| order.iter().position(|&x| x == id).unwrap();
    assert!(pos(a) < pos(b));
    assert!(pos(a) < pos(c));
}

#[test]
fn remove_node_cleans_edges() {
    let mut dag = mk();
    let a = dag.add_node(NodeKind::Catchment, (0.0, 0.0));
    let b = dag.add_node(NodeKind::RationalMethod, (100.0, 0.0));
    dag.add_edge(a, 0, b, 0).unwrap();
    dag.remove_node(a);
    assert_eq!(dag.nodes().len(), 1);
    assert_eq!(dag.edges().len(), 0); // edge referencing 'a' removed
}

// ── Further cases ────────────────────────────────────────────────────────────

#[test]
fn reject_edge_to_missing_node() {
    let mut dag = mk();
    let a = dag.add_node(NodeKind::Catchment, (0.0, 0.0));
    assert!(dag.add_edge(a, 0, NodeId(7), 0).is_none());
    assert!(dag.add_edge(NodeId(7), 0, a, 0).is_none());
    assert!(dag.edges().is_empty());
}

#[test]
fn edge_ids_are_sequential_and_survive_rejections() {
    let mut dag = mk();
    let a = dag.add_node(NodeKind::Catchment, (0.0, 0.0));
    let b = dag.add_node(NodeKind::ScsRunoff, (0.0, 0.0));
    let c = dag.add_node(NodeKind::Outfall, (0.0, 0.0));
    assert_eq!(dag.add_edge(a, 0, b, 0), Some(EdgeId(0)));
    assert_eq!(dag.add_edge(b, 0, a, 0), None);
    assert_eq!(dag.add_edge(b, 0, c, 0), Some(EdgeId(1)));
}

#[test]
fn same_nodes_on_other_port_is_accepted() {
    let mut dag = mk();
    let a = dag.add_node(NodeKind::RainfallEvent, (0.0, 0.0));
    let b = dag.add_node(NodeKind::ScsRunoff, (0.0, 0.0));
    assert!(dag.add_edge(a, 0, b, 0).is_some());
    assert!(dag.add_edge(a, 0, b, 1).is_some());
    assert_eq!(dag.edges().len(), 2);
}

#[test]
fn remove_edge_keeps_nodes() {
    let mut dag = mk();
    let a = dag.add_node(NodeKind::Catchment, (0.0, 0.0));
    let b = dag.add_node(NodeKind::Outfall, (0.0, 0.0));
    let e = dag.add_edge(a, 0, b, 0).unwrap();
    dag.remove_edge(e);
    assert_eq!(dag.edges().len(), 0);
    assert_eq!(dag.nodes().len(), 2);
    // the freed input port can be wired again, with a fresh id
    assert_eq!(dag.add_edge(a, 0, b, 0), Some(EdgeId(1)));
}

#[test]
fn remove_node_then_add_node_gives_fresh_id() {
    let mut dag = mk();
    let a = dag.add_node(NodeKind::Catchment, (0.0, 0.0));
    dag.remove_node(a);
    assert!(!dag.has_node(a));
    let b = dag.add_node(NodeKind::Catchment, (0.0, 0.0));
    assert_eq!(b, NodeId(1));
}

#[test]
fn get_node_and_get_node_mut() {
    let mut dag = mk();
    let a = dag.add_node(NodeKind::Catchment, (10.0, 20.0));
    assert_eq!(dag.get_node(a).unwrap().data, (10.0, 20.0));
    assert!(dag.get_node(NodeId(5)).is_none());
    dag.get_node_mut(a).unwrap().data = (1.0, 2.0);
    assert_eq!(dag.get_node(a).unwrap().data, (1.0, 2.0));
    assert_eq!(dag.node_index(a), Some(0));
    assert!(dag.get_node_mut(NodeId(5)).is_none());
}

#[test]
fn edges_from_and_to() {
    let mut dag = mk();
    let a = dag.add_node(NodeKind::Catchment, (0.0, 0.0));
    let b = dag.add_node(NodeKind::ScsRunoff, (0.0, 0.0));
    let c = dag.add_node(NodeKind::TimeOfConcentration, (0.0, 0.0));
    dag.add_edge(a, 0, b, 0).unwrap();
    dag.add_edge(a, 0, c, 0).unwrap();
    // port numbers are not checked against the catalog: a second input works
    dag.add_edge(b, 0, c, 1).unwrap();
    let from_a: Vec<NodeId> = dag.edges_from(a).iter().map(|e| e.to_node).collect();
    assert_eq!(from_a, vec![b, c]);
    assert_eq!(dag.edges_to(c).len(), 2);
    assert_eq!(dag.edges_to(a).len(), 0);
}

#[test]
fn topological_order_lists_every_node_once() {
    let mut dag = mk();
    let ids: Vec<NodeId> = (0..6).map(|i| dag.add_node(NodeKind::ScsRunoff, (i as f64, 0.0))).collect();
    dag.add_edge(ids[5], 0, ids[0], 0).unwrap();
    dag.add_edge(ids[0], 0, ids[3], 0).unwrap();
    dag.add_edge(ids[3], 0, ids[1], 1).unwrap();
    dag.add_edge(ids[5], 0, ids[1], 0).unwrap();
    let order = dag.topological_order();
    assert_eq!(order.len(), 6);
    for id in &ids {
        assert_eq!(order.iter().filter(|&&x| x == *id).count(), 1);
    }
    for e in dag.edges() {
        let p = |id: NodeId| order.iter().position(|&x| x == id).unwrap();
        assert!(p(e.from_node) < p(e.to_node));
    }
}

#[test]
fn topological_order_of_empty_model() {
    let dag = mk();
    assert!(dag.topological_order().is_empty());
}

#[test]
fn from_parts_resumes_id_counters() {
    let nodes = vec![
        Node { id: NodeId(4), kind: NodeKind::Catchment, data: (0.0, 0.0) },
        Node { id: NodeId(9), kind: NodeKind::Outfall, data: (0.0, 0.0) },
    ];
    let mut dag = DagModel::from_parts(nodes, Vec::new());
    let e = dag.add_edge(NodeId(4), 0, NodeId(9), 0);
    assert_eq!(e, Some(EdgeId(0)));
    assert_eq!(dag.add_node(NodeKind::Catchment, (0.0, 0.0)), NodeId(10));
    let mut dag2: DagModel<Pos> = DagModel::from_parts(dag.nodes().clone(), dag.edges().clone());
    assert_eq!(dag2.add_edge(NodeId(10), 0, NodeId(9), 0), None); // port taken
    assert_eq!(dag2.add_node(NodeKind::Outfall, (0.0, 0.0)), NodeId(11));
    assert_eq!(dag2.add_edge(NodeId(10), 0, NodeId(11), 0), Some(EdgeId(1)));
}

#[test]
fn node_ids_in_order() {
    let mut dag = mk();
    let a = dag.add_node(NodeKind::Catchment, (0.0, 0.0));
    let b = dag.add_node(NodeKind::Outfall, (0.0, 0.0));
    assert_eq!(dag.node_ids(), vec![a, b]);
}

#[test]
fn removing_what_was_just_added_restores_the_model() {
    let mut dag = mk();
    let a = dag.add_node(NodeKind::Catchment, (0.0, 0.0));
    let b = dag.add_node(NodeKind::ScsRunoff, (100.0, 0.0));
    dag.add_edge(a, 0, b, 0).unwrap();
    let ids = dag.node_ids();
    let edges = dag.edges().clone();
    let c = dag.add_node(NodeKind::Outfall, (200.0, 0.0));
    dag.remove_node(c);
    assert_eq!(dag.node_ids(), ids);
    assert_eq!(*dag.edges(), edges);
    let e = dag.add_edge(a, 0, b, 1).unwrap();
    dag.remove_edge(e);
    assert_eq!(*dag.edges(), edges);
    assert_eq!(dag.node_ids(), ids);
}

#[test]
fn from_parts_of_nothing_starts_ids_at_zero() {
    let mut dag: DagModel<Pos> = DagModel::from_parts(Vec::new(), Vec::new());
    assert_eq!(dag.add_node(NodeKind::Catchment, (0.0, 0.0)), NodeId(0));
}

#[test]
fn topological_order_lists_only_nodes() {
    // an edge into an id that no node has
    let nodes = vec![
        Node { id: NodeId(0), kind: NodeKind::Catchment, data: (0.0, 0.0) },
        Node { id: NodeId(1), kind: NodeKind::Outfall, data: (0.0, 0.0) },
    ];
    let edges = vec![
        Edge { id: EdgeId(0), from_node: NodeId(0), from_port: 0, to_node: NodeId(1), to_port: 0 },
        Edge { id: EdgeId(1), from_node: NodeId(0), from_port: 0, to_node: NodeId(7), to_port: 0 },
    ];
    let dag = DagModel::from_parts(nodes, edges);
    assert_eq!(dag.topological_order(), vec![NodeId(0), NodeId(1)]);
}

#[test]
fn topological_order_leaves_out_what_a_cycle_leads_to() {
    // 0 -> 1 -> 2 -> 1, 2 -> 3; 4 stands alone
    let nodes: Vec<Node<Pos>> = (0..5)
        .map(|i| Node { id: NodeId(i), kind: NodeKind::ScsRunoff, data: (0.0, 0.0) })
        .collect();
    let e = |id: u32, from: u32, to: u32, port: usize| Edge {
        id: EdgeId(id),
        from_node: NodeId(from),
        from_port: 0,
        to_node: NodeId(to),
        to_port: port,
    };
    let edges = vec![e(0, 0, 1, 0), e(1, 1, 2, 0), e(2, 2, 1, 1), e(3, 2, 3, 0)];
    let dag = DagModel::from_parts(nodes, edges);
    let mut order = dag.topological_order();
    order.sort_by_key(|n| n.0);
    assert_eq!(order, vec![NodeId(0), NodeId(4)]);
}
