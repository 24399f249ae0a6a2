use hydrocomplete_dag::dag::{DagModel, EdgeId, NodeId};
use hydrocomplete_dag::interaction::{Interaction, InteractionState, Selection};
use hydrocomplete_dag::nodes::NodeKind;

type Pos = (f64, f64);

fn three_nodes() -> (DagModel<Pos>, NodeId, NodeId, NodeId) {
    let mut dag = DagModel::new();
    let a = dag.add_node(NodeKind::Catchment, (0.0, 0.0));
    let b = dag.add_node(NodeKind::ScsRunoff, (200.0, 0.0));
    let c = dag.add_node(NodeKind::Outfall, (400.0, 0.0));
    (dag, a, b, c)
}

#[test]
fn selection_constructors_and_queries() {
    let s = Selection::none();
    assert!(s.is_empty());
    assert_eq!(s.primary_node(), None);
    let s = Selection::of_node(NodeId(3));
    assert!(s.has_node(NodeId(3)));
    assert!(!s.has_node(NodeId(4)));
    assert_eq!(s.primary_node(), Some(NodeId(3)));
    assert_eq!(s.node_count(), 1);
    let s = Selection::of_edge(EdgeId(2));
    assert!(!s.is_empty());
    assert_eq!(s.node_count(), 0);
    assert_eq!(s.edge, Some(EdgeId(2)));
}

#[test]
fn middle_and_right_buttons_pan() {
    let (dag, a, _, _) = three_nodes();
    let mut it = Interaction::new();
    it.mouse_down(1, false, None, Some(a), None, &dag);
    assert!(matches!(it.state, InteractionState::Panning));
    assert!(it.selection.is_empty());
    it.mouse_down(2, false, None, Some(a), None, &dag);
    assert!(matches!(it.state, InteractionState::Panning));
}

#[test]
fn output_port_starts_edge_and_release_on_input_connects() {
    let (mut dag, a, b, _) = three_nodes();
    let mut it = Interaction::new();
    it.mouse_down(0, false, Some((a, 0)), Some(a), None, &dag);
    assert!(matches!(it.state, InteractionState::DrawingEdge { from_node, from_port: 0 } if from_node == a));
    let mutated = it.mouse_up(&mut dag, Some((b, 0)), &Vec::new(), (0.0, 0.0));
    assert!(mutated);
    assert_eq!(dag.edges().len(), 1);
    assert!(matches!(it.state, InteractionState::Idle));
}

#[test]
fn release_of_a_refused_edge_changes_nothing() {
    let (mut dag, a, b, _) = three_nodes();
    dag.add_edge(a, 0, b, 0).unwrap();
    let mut it = Interaction::new();
    it.mouse_down(0, false, Some((b, 0)), None, None, &dag);
    // b -> a would close a cycle
    let mutated = it.mouse_up(&mut dag, Some((a, 0)), &Vec::new(), (0.0, 0.0));
    assert!(!mutated);
    assert_eq!(dag.edges().len(), 1);
    it.mouse_down(0, false, Some((b, 0)), None, None, &dag);
    assert!(!it.mouse_up(&mut dag, None, &Vec::new(), (0.0, 0.0)));
}

#[test]
fn clicking_nodes_selects_and_drags() {
    let (dag, a, b, _) = three_nodes();
    let mut it = Interaction::new();
    it.mouse_down(0, false, None, Some(a), None, &dag);
    assert_eq!(it.selection.nodes, vec![a]);
    assert!(matches!(&it.state, InteractionState::DraggingNodes { nodes } if *nodes == vec![a]));
    // shift adds
    it.mouse_down(0, true, None, Some(b), None, &dag);
    assert_eq!(it.selection.nodes, vec![a, b]);
    // clicking a selected node keeps the group and drags all of it
    it.mouse_down(0, false, None, Some(a), None, &dag);
    assert_eq!(it.selection.nodes, vec![a, b]);
    assert!(matches!(&it.state, InteractionState::DraggingNodes { nodes } if *nodes == vec![a, b]));
    // shift on a selected node removes it
    it.mouse_down(0, true, None, Some(a), None, &dag);
    assert_eq!(it.selection.nodes, vec![b]);
    // clicking an unselected node replaces the selection
    it.mouse_down(0, false, None, Some(a), None, &dag);
    assert_eq!(it.selection.nodes, vec![a]);
}

#[test]
fn dragging_lists_only_existing_nodes() {
    let (dag, a, _, _) = three_nodes();
    let mut it = Interaction::new();
    it.selection.nodes = vec![NodeId(42)];
    it.mouse_down(0, true, None, Some(a), None, &dag);
    assert_eq!(it.selection.nodes, vec![NodeId(42), a]);
    assert!(matches!(&it.state, InteractionState::DraggingNodes { nodes } if *nodes == vec![a]));
    let mut dag2 = dag.clone();
    assert!(!it.mouse_up(&mut dag2, None, &Vec::new(), (0.0, 0.0)));
}

#[test]
fn drag_release_is_no_structural_change() {
    let (mut dag, a, _, _) = three_nodes();
    let mut it = Interaction::new();
    it.mouse_down(0, false, None, Some(a), None, &dag);
    assert!(!it.mouse_up(&mut dag, None, &Vec::new(), (0.0, 0.0)));
    assert!(matches!(it.state, InteractionState::Idle));
    assert_eq!(it.selection.nodes, vec![a]);
    assert_eq!(dag.nodes().len(), 3);
}

#[test]
fn clicking_an_edge_selects_it() {
    let (mut dag, a, b, _) = three_nodes();
    let e = dag.add_edge(a, 0, b, 0).unwrap();
    let mut it = Interaction::new();
    it.mouse_down(0, false, None, Some(a), None, &dag);
    it.mouse_down(0, true, None, None, Some(e), &dag);
    assert_eq!(it.selection.nodes, vec![a]);
    assert_eq!(it.selection.edge, Some(e));
    it.mouse_down(0, false, None, None, Some(e), &dag);
    assert!(it.selection.nodes.is_empty());
    assert_eq!(it.selection.edge, Some(e));
    assert!(matches!(it.state, InteractionState::Idle));
}

#[test]
fn empty_canvas_starts_rubber_band() {
    let (mut dag, a, b, c) = three_nodes();
    let mut it = Interaction::new();
    it.mouse_down(0, false, None, Some(a), None, &dag);
    it.mouse_down(0, false, None, None, None, &dag);
    assert!(it.selection.is_empty());
    assert!(matches!(it.state, InteractionState::RubberBand));
    assert!(!it.mouse_up(&mut dag, None, &vec![b, c, b], (0.0, 0.0)));
    assert_eq!(it.selection.nodes, vec![b, c]);
    // shift keeps the selection and adds to it
    it.mouse_down(0, true, None, None, None, &dag);
    it.mouse_up(&mut dag, None, &vec![a, c], (0.0, 0.0));
    assert_eq!(it.selection.nodes, vec![b, c, a]);
}

#[test]
fn palette_drop_adds_and_selects_node() {
    let (mut dag, _, _, _) = three_nodes();
    let mut it = Interaction::new();
    it.palette_drag_start(NodeKind::BmpSizing);
    assert!(matches!(it.state, InteractionState::DraggingFromPalette { kind: NodeKind::BmpSizing }));
    assert!(it.mouse_up(&mut dag, None, &Vec::new(), (15.0, 25.0)));
    assert_eq!(dag.nodes().len(), 4);
    assert_eq!(it.selection.nodes, vec![NodeId(3)]);
    let n = dag.get_node(NodeId(3)).unwrap();
    assert_eq!(n.kind, NodeKind::BmpSizing);
    assert_eq!(n.data, (15.0, 25.0));
}

#[test]
fn delete_selected_removes_nodes_and_edges() {
    let (mut dag, a, b, c) = three_nodes();
    let e1 = dag.add_edge(a, 0, b, 0).unwrap();
    dag.add_edge(b, 0, c, 0).unwrap();
    let mut it = Interaction::new();
    assert!(!it.delete_selected(&mut dag));
    it.selection = Selection::of_edge(e1);
    assert!(it.delete_selected(&mut dag));
    assert_eq!(dag.edges().len(), 1);
    it.select_all(&dag);
    assert_eq!(it.selection.nodes, vec![a, b, c]);
    it.selection.nodes = vec![b];
    assert!(it.delete_selected(&mut dag));
    assert_eq!(dag.nodes().len(), 2);
    assert!(dag.edges().is_empty());
    assert!(it.selection.is_empty());
    // a selection of ids the model does not hold removes nothing
    it.selection.nodes = vec![NodeId(42)];
    it.selection.edge = Some(EdgeId(17));
    assert!(!it.delete_selected(&mut dag));
    assert!(it.selection.is_empty());
    assert_eq!(dag.nodes().len(), 2);
}
