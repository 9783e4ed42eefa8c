use radiantkit_core::components::{
    Color32, ColorComponent, RadiantMessageHandler, RadiantSelectable, SelectionComponent,
    SelectionMessage,
};

#[test]
fn selection_starts_unselected() {
    let c = SelectionComponent::new();
    assert!(!c.is_selected());
}

#[test]
fn selection_set_and_clear() {
    let mut c = SelectionComponent::new();
    c.set_selected(true);
    assert!(c.is_selected());
    c.set_selected(false);
    assert!(!c.is_selected());
}

#[test]
fn selection_through_trait() {
    let mut c = SelectionComponent::new();
    RadiantSelectable::set_selected(&mut c, true);
    assert!(c.is_selected());
}

#[test]
fn selection_handles_message() {
    let mut c = SelectionComponent::new();
    c.handle_message(SelectionMessage::SetSelected(true));
    assert!(c.is_selected());
    c.handle_message(SelectionMessage::SetSelected(false));
    assert!(!c.is_selected());
}

#[test]
fn named_colors() {
    assert_eq!(Color32::light_red().to_array(), [255, 128, 128, 255]);
    assert_eq!(Color32::transparent().to_array(), [0, 0, 0, 0]);
    assert_eq!(Color32::blue().to_array(), [0, 0, 255, 255]);
    assert_eq!(Color32::white().to_array(), [255, 255, 255, 255]);
    assert_eq!(Color32::from_rgb(1, 2, 3).to_array(), [1, 2, 3, 255]);
}

#[test]
fn color_component_new_and_default() {
    let c = ColorComponent::new();
    assert_eq!(c.fill_color(), Color32::light_red());
    assert_eq!(c.stroke_color(), Color32::transparent());
    let d = ColorComponent::default();
    assert_eq!(d.fill_color(), Color32::transparent());
    assert_eq!(d.stroke_color(), Color32::transparent());
}

#[test]
fn color_component_setters() {
    let mut c = ColorComponent::new();
    c.set_fill_color(Color32::blue());
    assert_eq!(c.fill_color(), Color32::blue());
    assert_eq!(c.stroke_color(), Color32::transparent());
    c.set_stroke_color(Color32::white());
    assert_eq!(c.stroke_color(), Color32::white());
    assert_eq!(c.fill_color(), Color32::blue());
}
