use radiantkit_core::components::Color32;
use radiantkit_core::document::{listeners_to_notify, RadiantDocumentNode};
use radiantkit_core::group::RadiantGroupNode;
use radiantkit_core::node::{BaseNode, KeyCode, RadiantNode};

fn doc() -> RadiantDocumentNode<BaseNode> {
    RadiantDocumentNode::new()
}

#[test]
fn new_document_has_one_active_artboard() {
    let d = doc();
    assert_eq!(d.counter, 1);
    assert_eq!(d.artboards.len(), 1);
    assert!(d.artboards.contains_key(&d.active_artboard_id));
    assert_eq!(d.selected_node_id, None);
    let a = d.get_active_artboard().unwrap();
    assert_eq!(a.base.id, d.active_artboard_id);
    assert!(a.nodes.is_empty());
}

#[test]
fn artboard_ids_are_random_version_4_uuids() {
    let d1 = doc();
    let d2 = doc();
    assert_ne!(d1.active_artboard_id, d2.active_artboard_id);
    assert_eq!((d1.active_artboard_id >> 76) & 0xf, 4);
    assert_eq!((d1.active_artboard_id >> 62) & 0x3, 2);
}

#[test]
fn add_artboard_keeps_active_and_counts() {
    let mut d = doc();
    let active = d.active_artboard_id;
    d.add_artboard();
    d.add_artboard();
    assert_eq!(d.artboards.len(), 3);
    assert_eq!(d.counter, 3);
    assert_eq!(d.active_artboard_id, active);
}

#[test]
fn added_node_is_found() {
    let mut d = doc();
    assert!(d.add(BaseNode::new(42)));
    assert_eq!(d.counter, 2);
    let n = d.get_node(42).unwrap();
    assert_eq!(n.id, 42);
    assert!(d.get_node(43).is_none());
}

#[test]
fn add_without_active_artboard_does_nothing() {
    let mut d = doc();
    d.set_active_artboard(5);
    assert!(d.get_active_artboard().is_none());
    assert!(!d.add(BaseNode::new(42)));
    assert_eq!(d.counter, 1);
    assert!(d.get_node(42).is_none());
}

#[test]
fn nodes_go_to_the_active_artboard() {
    let mut d = doc();
    let first = d.active_artboard_id;
    d.add_artboard();
    let second = *d.artboards.keys().find(|k| **k != first).unwrap();
    d.set_active_artboard(second);
    d.add(BaseNode::new(7));
    assert!(d.artboards[&second].nodes.contains_key(&7));
    assert!(!d.artboards[&first].nodes.contains_key(&7));
}

#[test]
fn lookup_prefers_the_smallest_artboard() {
    let mut d = doc();
    let first = d.active_artboard_id;
    d.add_artboard();
    let second = *d.artboards.keys().find(|k| **k != first).unwrap();
    let (low, high) = if first < second { (first, second) } else { (second, first) };
    let mut in_low = BaseNode::new(9);
    in_low.color.set_fill_color(Color32::blue());
    let in_high = BaseNode::new(9);
    d.set_active_artboard(high);
    d.add(in_high);
    d.set_active_artboard(low);
    d.add(in_low);
    assert_eq!(d.get_node(9).unwrap().color.fill_color(), Color32::blue());
}

#[test]
fn select_marks_node_and_asks_for_redraw() {
    let mut d = doc();
    let mut n = BaseNode::new(1);
    n.needs_tessellation = false;
    d.add(n);
    d.select(Some(1));
    assert_eq!(d.selected_node_id, Some(1));
    let n = d.get_node(1).unwrap();
    assert!(n.selection.is_selected());
    assert!(n.needs_tessellation);
}

#[test]
fn select_moves_selection() {
    let mut d = doc();
    d.add(BaseNode::new(1));
    d.add(BaseNode::new(2));
    d.select(Some(1));
    d.select(Some(2));
    assert!(!d.get_node(1).unwrap().selection.is_selected());
    assert!(d.get_node(2).unwrap().selection.is_selected());
    d.select(None);
    assert_eq!(d.selected_node_id, None);
    assert!(!d.get_node(2).unwrap().selection.is_selected());
}

#[test]
fn select_same_node_again_changes_nothing() {
    let mut d = doc();
    d.add(BaseNode::new(1));
    d.select(Some(1));
    d.get_node_mut(1).unwrap().needs_tessellation = false;
    d.select(Some(1));
    assert!(!d.get_node(1).unwrap().needs_tessellation);
    assert!(d.get_node(1).unwrap().selection.is_selected());
}

#[test]
fn select_unknown_node_records_it() {
    let mut d = doc();
    d.add(BaseNode::new(1));
    d.select(Some(99));
    assert_eq!(d.selected_node_id, Some(99));
    assert!(!d.get_node(1).unwrap().selection.is_selected());
}

#[test]
fn node_can_be_changed_in_place() {
    let mut d = doc();
    d.add(BaseNode::new(3));
    d.get_node_mut(3).unwrap().color.set_fill_color(Color32::white());
    assert_eq!(d.get_node(3).unwrap().color.fill_color(), Color32::white());
    assert!(d.get_node_mut(4).is_none());
}

#[test]
fn replace_node_swaps_the_found_node() {
    let mut d = doc();
    d.add(BaseNode::new(3));
    let mut other = BaseNode::new(3);
    other.color.set_stroke_color(Color32::blue());
    d.replace_node(3, other);
    assert_eq!(d.get_node(3).unwrap().color.stroke_color(), Color32::blue());
    d.replace_node(4, BaseNode::new(4));
    assert!(d.get_node(4).is_none());
}

#[test]
fn group_key_handling_with_plain_nodes() {
    let mut g: RadiantGroupNode<BaseNode> = RadiantGroupNode::new(1);
    g.add(BaseNode::new(2));
    assert!(!g.handle_key_down(KeyCode::Enter));
    assert!(!g.handle_key_down(KeyCode::Char("a".to_string())));
    assert_eq!(g.get_id(), 1);
}

#[test]
fn key_code_clone_is_equal_in_content() {
    let k = KeyCode::Char("x".to_string());
    match k.clone() {
        KeyCode::Char(s) => assert_eq!(s, "x"),
        _ => panic!("wrong key"),
    }
}

#[test]
fn listeners_except_the_excluded_one() {
    assert_eq!(listeners_to_notify(&vec![5, 6, 7], Some(6)), vec![0, 2]);
    assert_eq!(listeners_to_notify(&vec![5, 6, 7], None), vec![0, 1, 2]);
    assert_eq!(listeners_to_notify(&vec![6, 6], Some(6)), Vec::<usize>::new());
    assert_eq!(listeners_to_notify(&vec![], Some(6)), Vec::<usize>::new());
}

#[test]
fn add_without_active_artboard_at_full_counter() {
    let mut d = doc();
    d.counter = u64::MAX;
    d.set_active_artboard(5);
    assert!(!d.add(BaseNode::new(42)));
    assert_eq!(d.counter, u64::MAX);
}

#[test]
fn key_stops_at_first_handling_child() {
    let mut g: RadiantGroupNode<BaseNode> = RadiantGroupNode::new(1);
    g.add(BaseNode::new(3));
    g.add(BaseNode::new(2));
    assert!(!g.handle_key_down(KeyCode::Delete));
    assert_eq!(g.nodes.len(), 2);
}
