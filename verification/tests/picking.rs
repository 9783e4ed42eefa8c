use radiantkit_core::components::Color32;
use radiantkit_core::picking::NodeColorRegistry;

#[test]
fn first_colors_count_up() {
    let mut r = NodeColorRegistry::new();
    assert_eq!(r.get_color_for_node(10), Color32::from_rgb(1, 0, 0));
    assert_eq!(r.get_color_for_node(20), Color32::from_rgb(2, 0, 0));
}

#[test]
fn same_node_same_color() {
    let mut r = NodeColorRegistry::new();
    let a = r.get_color_for_node(7);
    let _ = r.get_color_for_node(8);
    assert_eq!(r.get_color_for_node(7), a);
    assert_eq!(r.get_color_for_node(9), Color32::from_rgb(3, 0, 0));
}

#[test]
fn color_uses_three_bytes_of_the_count() {
    let mut r = NodeColorRegistry::new();
    let mut last = Color32::transparent();
    for id in 0..256u128 {
        last = r.get_color_for_node(id);
    }
    assert_eq!(last, Color32::from_rgb(0, 1, 0));
    assert_eq!(r.get_color_for_node(1000), Color32::from_rgb(1, 1, 0));
}

#[test]
fn color_leads_back_to_node() {
    let mut r = NodeColorRegistry::new();
    let a = r.get_color_for_node(0xabc);
    let b = r.get_color_for_node(0xdef);
    assert_eq!(r.get_node_for_color(a), Some(0xabc));
    assert_eq!(r.get_node_for_color(b), Some(0xdef));
}

#[test]
fn unknown_color_finds_nothing() {
    let mut r = NodeColorRegistry::new();
    let _ = r.get_color_for_node(1);
    assert_eq!(r.get_node_for_color(Color32::from_rgb(9, 9, 9)), None);
    assert_eq!(r.get_node_for_color(Color32::transparent()), None);
}

#[test]
fn black_finds_no_node() {
    let mut r = NodeColorRegistry::new();
    for id in 0..300u128 {
        let _ = r.get_color_for_node(id);
    }
    assert_eq!(r.get_node_for_color(Color32::from_rgb(0, 0, 0)), None);
    assert_eq!(r.counter(), 300);
    assert_eq!(r.color_of(299), Some(Color32::from_rgb(44, 1, 0)));
    assert_eq!(r.color_of(300), None);
}
