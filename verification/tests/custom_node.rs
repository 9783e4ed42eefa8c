use radiantkit_core::components::{Color32, ColorComponent, SelectionComponent};
use radiantkit_core::scene::{handle_scene_command, InteractionUpdate, SceneCommand};
use radiantkit_core::tools::RadiantToolManager;
use radiantkit_core::document::RadiantDocumentNode;
use radiantkit_core::node::{KeyCode, RadiantNode};

/// A node that reacts to the Delete key and has no color.
#[derive(Clone, Debug)]
struct Marker {
    id: u128,
    selection: SelectionComponent,
    deletes: u32,
}

impl RadiantNode for Marker {
    fn spec_id(&self) -> u128 {
        self.id
    }
    fn spec_selection(&self) -> Option<SelectionComponent> {
        Some(self.selection)
    }
    fn spec_color(&self) -> Option<ColorComponent> {
        None
    }
    fn spec_needs_tessellation(&self) -> bool {
        true
    }
    fn spec_handles_key(&self, key: KeyCode) -> bool {
        matches!(key, KeyCode::Delete)
    }
    fn get_id(&self) -> u128 {
        self.id
    }
    fn set_id(&mut self, id: u128) {
        self.id = id;
    }
    fn get_selection(&self) -> Option<SelectionComponent> {
        Some(self.selection)
    }
    fn set_selection(&mut self, c: SelectionComponent) {
        self.selection = c;
    }
    fn get_color(&self) -> Option<ColorComponent> {
        None
    }
    fn set_color(&mut self, _c: ColorComponent) {}
    fn set_needs_tessellation(&mut self, _notify: bool) {}
    fn handle_key_down(&mut self, key: KeyCode) -> bool {
        match key {
            KeyCode::Delete => {
                self.deletes += 1;
                true
            }
            _ => false,
        }
    }
}

#[test]
fn own_node_type_in_a_document() {
    let mut d: RadiantDocumentNode<Marker> = RadiantDocumentNode::new();
    d.add(Marker { id: 5, selection: SelectionComponent::new(), deletes: 0 });
    d.select(Some(5));
    assert!(d.get_node(5).unwrap().selection.is_selected());
    let g = d.artboards.get_mut(&d.active_artboard_id).unwrap();
    assert!(g.handle_key_down(KeyCode::Delete));
    assert!(!g.handle_key_down(KeyCode::Enter));
    assert_eq!(d.get_node(5).unwrap().deletes, 1);
}

#[test]
fn handled_key_asks_to_refit_interaction() {
    let mut d: RadiantDocumentNode<Marker> = RadiantDocumentNode::new();
    d.add(Marker { id: 5, selection: SelectionComponent::new(), deletes: 0 });
    let mut t = RadiantToolManager::new(0, ());
    handle_scene_command(&mut d, &mut t, &vec![], SceneCommand::SelectNode { id: Some(5) });
    let u = handle_scene_command(&mut d, &mut t, &vec![], SceneCommand::HandleKey { id: None, key: KeyCode::Delete });
    assert_eq!(u, InteractionUpdate::Update { id: 5 });
    assert_eq!(d.get_node(5).unwrap().deletes, 1);
    let u = handle_scene_command(&mut d, &mut t, &vec![], SceneCommand::HandleKey { id: Some(5), key: KeyCode::Enter });
    assert_eq!(u, InteractionUpdate::Keep);
}

#[test]
fn node_without_color_keeps_its_state() {
    let mut d: RadiantDocumentNode<Marker> = RadiantDocumentNode::new();
    d.add(Marker { id: 5, selection: SelectionComponent::new(), deletes: 3 });
    let mut t = RadiantToolManager::new(0, ());
    handle_scene_command(&mut d, &mut t, &vec![], SceneCommand::SetFillColor { id: 5, fill_color: Color32::blue() });
    assert_eq!(d.get_node(5).unwrap().deletes, 3);
    assert!(d.get_node(5).unwrap().get_color().is_none());
}

#[test]
fn key_stops_at_first_reacting_child() {
    let mut d: RadiantDocumentNode<Marker> = RadiantDocumentNode::new();
    d.add(Marker { id: 9, selection: SelectionComponent::new(), deletes: 0 });
    d.add(Marker { id: 4, selection: SelectionComponent::new(), deletes: 0 });
    let g = d.artboards.get_mut(&d.active_artboard_id).unwrap();
    assert!(g.handle_key_down(KeyCode::Delete));
    assert_eq!(g.nodes[&4].deletes, 1);
    assert_eq!(g.nodes[&9].deletes, 0);
}
