use radiantkit_core::tools::RadiantToolManager;

#[test]
fn manager_starts_with_one_active_tool() {
    let mut m = RadiantToolManager::new(0, "select");
    assert_eq!(m.active_tool_id, 0);
    assert_eq!(m.tools.len(), 1);
    assert_eq!(*m.active_tool(), "select");
}

#[test]
fn activate_registered_tool() {
    let mut m = RadiantToolManager::new(0, "select");
    m.register_tool(1, "rectangle");
    m.activate_tool(1);
    assert_eq!(m.active_tool_id, 1);
    assert_eq!(*m.active_tool(), "rectangle");
}

#[test]
fn activate_beyond_count_is_ignored() {
    let mut m = RadiantToolManager::new(0, "select");
    m.register_tool(1, "rectangle");
    m.activate_tool(2);
    assert_eq!(m.active_tool_id, 0);
    m.activate_tool(7);
    assert_eq!(m.active_tool_id, 0);
}

#[test]
fn activation_goes_by_count_not_by_key() {
    let mut m = RadiantToolManager::new(0, "select");
    m.register_tool(5, "path");
    m.activate_tool(1);
    assert_eq!(m.active_tool_id, 1);
    assert!(m.tools.get(&1).is_none());
}

#[test]
fn register_replaces_tool() {
    let mut m = RadiantToolManager::new(0, "select");
    m.register_tool(0, "other");
    assert_eq!(m.tools.len(), 1);
    assert_eq!(*m.active_tool(), "other");
}

#[test]
fn active_tool_can_be_changed_in_place() {
    let mut m = RadiantToolManager::new(3, 10u32);
    *m.active_tool() += 5;
    assert_eq!(m.tools.get(&3), Some(&15));
}
