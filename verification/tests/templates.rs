use hydrocomplete_dag::dag::NodeId;
use hydrocomplete_dag::nodes::NodeKind;
use hydrocomplete_dag::templates::{build, catalog, get};

#[test]
fn every_catalog_entry_names_a_template() {
    let cat = catalog();
    assert_eq!(cat.len(), 5);
    for info in &cat {
        assert!(get(info.id).is_some(), "{}", info.id);
    }
    assert!(get("nope").is_none());
    assert!(get("").is_none());
}

#[test]
fn detention_template_builds_a_chain() {
    let t = get("detention").unwrap();
    let payloads: Vec<usize> = (0..t.kinds.len()).collect();
    let dag = build(&t, payloads);
    assert_eq!(dag.nodes().len(), 6);
    assert_eq!(dag.edges().len(), 5);
    assert_eq!(dag.nodes()[4].kind, NodeKind::DetentionPond);
    assert_eq!(dag.nodes()[4].data, 4);
    let order = dag.topological_order();
    assert_eq!(order.len(), 6);
    assert_eq!(*order.last().unwrap(), NodeId(5));
}

#[test]
fn full_template_drops_link_into_occupied_port() {
    let t = get("full").unwrap();
    assert_eq!(t.links.len(), 12);
    let dag = build(&t, vec![(); 10]);
    assert_eq!(dag.nodes().len(), 10);
    assert_eq!(dag.edges().len(), 11);
    assert!(dag.edges().iter().all(|e| e.from_node != NodeId(8)));
}

#[test]
fn all_templates_build_every_link_but_refused_ones() {
    for (name, n_nodes, n_edges) in [("wq", 6, 5), ("erosion", 5, 5), ("continuous", 4, 3)] {
        let t = get(name).unwrap();
        let dag = build(&t, vec![0u8; t.kinds.len()]);
        assert_eq!(dag.nodes().len(), n_nodes, "{}", name);
        assert_eq!(dag.edges().len(), n_edges, "{}", name);
    }
}
