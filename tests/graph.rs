use pixel_labs::catalog::{create_graph, NodeKind};
use pixel_labs::node::{disconnect_pin, Graph, Node, NodeWidget, PinDirection, PinId};

fn out_pin(node_index: usize, pin_index: usize) -> PinId {
    PinId { node_index, pin_index, direction: PinDirection::Output }
}

fn in_pin(node_index: usize, pin_index: usize) -> PinId {
    PinId { node_index, pin_index, direction: PinDirection::Input }
}

fn graph_of(kinds: Vec<NodeKind>) -> Graph<NodeKind> {
    let mut g = Graph::new();
    for k in kinds {
        g.add_node(k);
    }
    g
}

#[test]
fn opposite_swaps_direction() {
    assert_eq!(PinDirection::Input.opposite(), PinDirection::Output);
    assert_eq!(PinDirection::Output.opposite(), PinDirection::Input);
}

#[test]
fn link_puts_output_first() {
    assert_eq!(in_pin(1, 0).link(out_pin(0, 0)), (out_pin(0, 0), in_pin(1, 0)));
    assert_eq!(out_pin(0, 0).link(in_pin(1, 0)), (out_pin(0, 0), in_pin(1, 0)));
}

#[test]
fn add_link_canonicalizes_and_refuses_bad_pairs() {
    let mut g = graph_of(vec![NodeKind::Float(0), NodeKind::Lerp]);
    assert!(g.add_link(in_pin(1, 2), out_pin(0, 0)));
    assert_eq!(g.links, vec![(out_pin(0, 0), in_pin(1, 2))]);
    // same direction on both ends
    assert!(!g.add_link(out_pin(0, 0), out_pin(1, 0)));
    // pin index past the node's inputs
    assert!(!g.add_link(in_pin(1, 3), out_pin(0, 0)));
    // node index past the graph
    assert!(!g.add_link(in_pin(2, 0), out_pin(0, 0)));
    assert_eq!(g.links.len(), 1);
    // duplicates are kept
    assert!(g.add_link(out_pin(0, 0), in_pin(1, 2)));
    assert_eq!(g.links.len(), 2);
}

#[test]
fn inputs_for_orders_by_target_pin_then_link_order() {
    let mut g = graph_of(vec![
        NodeKind::Float(1),
        NodeKind::Float(2),
        NodeKind::Float(3),
        NodeKind::Lerp,
    ]);
    assert!(g.add_link(out_pin(0, 0), in_pin(3, 2)));
    assert!(g.add_link(out_pin(1, 0), in_pin(3, 0)));
    assert!(g.add_link(out_pin(2, 0), in_pin(3, 2)));
    assert_eq!(g.inputs_for(3), vec![out_pin(1, 0), out_pin(0, 0), out_pin(2, 0)]);
    assert_eq!(g.inputs_for(0), vec![]);
}

#[test]
fn remove_node_drops_and_renumbers_links() {
    let mut g = graph_of(vec![NodeKind::Float(1), NodeKind::Revolution, NodeKind::Lerp, NodeKind::Output]);
    assert!(g.add_link(out_pin(0, 0), in_pin(1, 0)));
    assert!(g.add_link(out_pin(1, 0), in_pin(2, 1)));
    assert!(g.add_link(out_pin(0, 0), in_pin(2, 0)));
    assert!(g.add_link(out_pin(2, 0), in_pin(3, 0)));
    g.remove_node(1);
    assert_eq!(g.nodes.len(), 3);
    assert_eq!(g.links, vec![(out_pin(0, 0), in_pin(1, 0)), (out_pin(1, 0), in_pin(2, 0))]);
    for (from, to) in &g.links {
        assert!(from.node_index < 3 && to.node_index < 3);
    }
}

#[test]
fn remove_only_node_leaves_empty_graph() {
    let mut g = create_graph();
    g.remove_node(0);
    assert!(g.nodes.is_empty());
    assert!(g.links.is_empty());
}

#[test]
fn disconnect_pin_reports_removal() {
    let mut links = vec![(out_pin(0, 0), in_pin(1, 0)), (out_pin(2, 0), in_pin(1, 1))];
    assert!(disconnect_pin(&mut links, &in_pin(1, 0)));
    assert_eq!(links, vec![(out_pin(2, 0), in_pin(1, 1))]);
    assert!(!disconnect_pin(&mut links, &in_pin(1, 0)));
    assert_eq!(links.len(), 1);
}

#[test]
fn from_parts_drops_invalid_links() {
    let nodes = vec![Node::new(NodeKind::Time), Node::new(NodeKind::Output)];
    let links = vec![
        (out_pin(0, 0), in_pin(1, 0)),
        (out_pin(0, 0), in_pin(5, 0)),
        (out_pin(1, 0), in_pin(0, 0)),
        (in_pin(1, 0), out_pin(0, 0)),
    ];
    let g = Graph::from_parts(nodes, links);
    assert_eq!(g.links, vec![(out_pin(0, 0), in_pin(1, 0))]);
}

#[test]
fn create_graph_holds_one_output() {
    let g = create_graph();
    assert_eq!(g.nodes.len(), 1);
    assert_eq!(g.nodes[0].widget, NodeKind::Output);
    assert!(g.links.is_empty());
}

#[test]
fn catalog_pins_and_titles() {
    assert_eq!(NodeKind::Hex.in_pins().len(), 4);
    assert_eq!(NodeKind::Lerp.in_pins().len(), 3);
    assert_eq!(NodeKind::Scale.in_pins().len(), 2);
    assert_eq!(NodeKind::Time.in_pins().len(), 0);
    assert_eq!(NodeKind::Output.out_pins().len(), 0);
    assert_eq!(NodeKind::Rotate.out_pins().len(), 1);
    assert_eq!(NodeKind::TransformColorField.title(), "transform color field");
    assert_eq!(NodeKind::Text(String::from("a")).title(), "text");
}
