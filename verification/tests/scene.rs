use radiantkit_core::components::Color32;
use radiantkit_core::document::RadiantDocumentNode;
use radiantkit_core::node::{BaseNode, KeyCode};
use radiantkit_core::scene::{handle_scene_command, InteractionUpdate, SceneCommand};
use radiantkit_core::tools::RadiantToolManager;

fn setup() -> (RadiantDocumentNode<BaseNode>, RadiantToolManager<&'static str>) {
    let mut d = RadiantDocumentNode::new();
    d.add(BaseNode::new(1));
    d.add(BaseNode::new(2));
    let mut t = RadiantToolManager::new(0, "select");
    t.register_tool(1, "rectangle");
    (d, t)
}

#[test]
fn select_node_enables_interaction() {
    let (mut d, mut t) = setup();
    let u = handle_scene_command(&mut d, &mut t, &vec![100, 101], SceneCommand::SelectNode { id: Some(1) });
    assert_eq!(u, InteractionUpdate::Enable { id: 1 });
    assert_eq!(d.selected_node_id, Some(1));
    assert!(d.get_node(1).unwrap().selection.is_selected());
}

#[test]
fn select_nothing_disables_interaction() {
    let (mut d, mut t) = setup();
    let u = handle_scene_command(&mut d, &mut t, &vec![100], SceneCommand::SelectNode { id: None });
    assert_eq!(u, InteractionUpdate::Disable);
    assert_eq!(d.selected_node_id, None);
}

#[test]
fn select_missing_node_disables_interaction() {
    let (mut d, mut t) = setup();
    let u = handle_scene_command(&mut d, &mut t, &vec![100], SceneCommand::SelectNode { id: Some(7) });
    assert_eq!(u, InteractionUpdate::Disable);
    assert_eq!(d.selected_node_id, Some(7));
}

#[test]
fn select_interaction_handle_keeps_interaction() {
    let (mut d, mut t) = setup();
    let u = handle_scene_command(&mut d, &mut t, &vec![100, 2], SceneCommand::SelectNode { id: Some(2) });
    assert_eq!(u, InteractionUpdate::Keep);
    assert_eq!(d.selected_node_id, Some(2));
}

#[test]
fn add_and_select_artboard() {
    let (mut d, mut t) = setup();
    let before = d.active_artboard_id;
    assert_eq!(handle_scene_command(&mut d, &mut t, &vec![], SceneCommand::AddArtboard), InteractionUpdate::Keep);
    assert_eq!(d.artboards.len(), 2);
    assert_eq!(d.active_artboard_id, before);
    let other = *d.artboards.keys().find(|k| **k != before).unwrap();
    handle_scene_command(&mut d, &mut t, &vec![], SceneCommand::SelectArtboard { id: other });
    assert_eq!(d.active_artboard_id, other);
}

#[test]
fn set_fill_and_stroke_colors() {
    let (mut d, mut t) = setup();
    d.get_node_mut(1).unwrap().needs_tessellation = false;
    handle_scene_command(&mut d, &mut t, &vec![], SceneCommand::SetFillColor { id: 1, fill_color: Color32::blue() });
    let n = d.get_node(1).unwrap();
    assert_eq!(n.color.fill_color(), Color32::blue());
    assert_eq!(n.color.stroke_color(), Color32::transparent());
    assert!(n.needs_tessellation);
    handle_scene_command(&mut d, &mut t, &vec![], SceneCommand::SetStrokeColor { id: 1, stroke_color: Color32::white() });
    let n = d.get_node(1).unwrap();
    assert_eq!(n.color.fill_color(), Color32::blue());
    assert_eq!(n.color.stroke_color(), Color32::white());
    assert_eq!(d.get_node(2).unwrap().color.fill_color(), Color32::light_red());
}

#[test]
fn select_tool_by_count() {
    let (mut d, mut t) = setup();
    handle_scene_command(&mut d, &mut t, &vec![], SceneCommand::SelectTool { id: 1 });
    assert_eq!(t.active_tool_id, 1);
    handle_scene_command(&mut d, &mut t, &vec![], SceneCommand::SelectTool { id: 2 });
    assert_eq!(t.active_tool_id, 1);
}

#[test]
fn key_goes_to_selected_node() {
    let (mut d, mut t) = setup();
    handle_scene_command(&mut d, &mut t, &vec![], SceneCommand::SelectNode { id: Some(2) });
    let u = handle_scene_command(&mut d, &mut t, &vec![], SceneCommand::HandleKey { id: None, key: KeyCode::Delete });
    assert_eq!(u, InteractionUpdate::Keep);
    let u = handle_scene_command(&mut d, &mut t, &vec![], SceneCommand::HandleKey { id: Some(9), key: KeyCode::Delete });
    assert_eq!(u, InteractionUpdate::Keep);
}
