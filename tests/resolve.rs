use pixel_labs::catalog::NodeKind;
use pixel_labs::fields::ConstantField;
use pixel_labs::node::{Graph, PinDirection, PinId};
use pixel_labs::resolve::{resolve_plan, Step};

fn out_pin(node_index: usize, pin_index: usize) -> PinId {
    PinId { node_index, pin_index, direction: PinDirection::Output }
}

fn in_pin(node_index: usize, pin_index: usize) -> PinId {
    PinId { node_index, pin_index, direction: PinDirection::Input }
}

fn step(node_index: usize, pin_index: usize, arity: usize) -> Step {
    Step { node_index, pin_index, arity }
}

#[test]
fn unlinked_node_is_evaluated_alone() {
    let mut g = Graph::new();
    g.add_node(NodeKind::Lerp);
    assert_eq!(resolve_plan(&g, 0, 0), Some(vec![step(0, 0, 0)]));
}

#[test]
fn chain_is_planned_inputs_first() {
    let mut g = Graph::new();
    g.add_node(NodeKind::Output);
    g.add_node(NodeKind::Lerp);
    g.add_node(NodeKind::Float(0x3f000000));
    g.add_node(NodeKind::Time);
    assert!(g.add_link(out_pin(1, 0), in_pin(0, 0)));
    assert!(g.add_link(out_pin(3, 0), in_pin(1, 2)));
    assert!(g.add_link(out_pin(2, 0), in_pin(1, 0)));
    let plan = resolve_plan(&g, 0, 0);
    assert_eq!(plan, Some(vec![step(2, 0, 0), step(3, 0, 0), step(1, 0, 2), step(0, 0, 1)]));
    assert_eq!(plan, resolve_plan(&g, 0, 0));
}

#[test]
fn shared_input_is_planned_once_per_path() {
    let mut g = Graph::new();
    g.add_node(NodeKind::Scale);
    g.add_node(NodeKind::Time);
    assert!(g.add_link(out_pin(1, 0), in_pin(0, 0)));
    assert!(g.add_link(out_pin(1, 0), in_pin(0, 1)));
    assert_eq!(resolve_plan(&g, 0, 0), Some(vec![step(1, 0, 0), step(1, 0, 0), step(0, 0, 2)]));
}

#[test]
fn cycle_gives_no_plan() {
    let mut g = Graph::new();
    g.add_node(NodeKind::Revolution);
    g.add_node(NodeKind::Revolution);
    assert!(g.add_link(out_pin(0, 0), in_pin(1, 0)));
    assert!(g.add_link(out_pin(1, 0), in_pin(0, 0)));
    assert_eq!(resolve_plan(&g, 0, 0), None);
}

#[test]
fn constant_field_keeps_value() {
    assert_eq!(ConstantField::new(7u8).value, 7);
}
