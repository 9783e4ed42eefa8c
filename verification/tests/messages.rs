use radiantkit_core::document::RadiantDocumentNode;
use radiantkit_core::node::BaseNode;
use radiantkit_core::scene::{handle_scene_command, SceneCommand};
use radiantkit_core::tools::RadiantToolManager;

#[test]
fn test_add_artboard() {
    let mut document: RadiantDocumentNode<BaseNode> = RadiantDocumentNode::new();
    document.add_artboard();

    assert_eq!(document.artboards.len(), 2);
}

#[test]
fn test_messages() {
    let mut document: RadiantDocumentNode<BaseNode> = RadiantDocumentNode::new();
    let mut tools = RadiantToolManager::new(0, ());
    handle_scene_command(&mut document, &mut tools, &vec![], SceneCommand::AddArtboard);

    assert_eq!(document.artboards.len(), 2);
}
