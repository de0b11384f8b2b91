use ntb::editor::{
    connection_is_selected, connection_mode_hint, counter_next, editor_key, export_canvas_size,
    export_image_filename, export_image_mime, export_json_filename, is_json_export, is_text_entry_tag,
    mode_after_connection_attempt, node_is_selected, palette_grid_position, palette_node_name,
    startup_topology, toggle_connection_mode, topology_name_accepted, viewport_click, ClickOutcome,
    ClickedConnection, ConnectionMode, CounterAction, KeyOutcome, SelectedItem, Selection,
};
use ntb::models::{LinkStatus, LinkType};

fn select_node(n: i64) -> Option<Selection> {
    Some(Selection { node: Some(n), item: Some(SelectedItem::Node(n)) })
}

#[test]
fn clicks_outside_connection_mode_select() {
    let o = viewport_click(None, Some(5), Some(9));
    assert_eq!(o, ClickOutcome { selection: select_node(5), mode: None, create_connection: None });
    let o = viewport_click(Some(ConnectionMode::Disabled), None, Some(9));
    assert_eq!(o.selection, Some(Selection { node: None, item: Some(SelectedItem::Connection(9)) }));
    let o = viewport_click(Some(ConnectionMode::Disabled), None, None);
    assert_eq!(o.selection, Some(Selection { node: None, item: None }));
    assert_eq!(o.mode, None);
}

#[test]
fn two_clicks_create_a_connection() {
    let first = viewport_click(Some(ConnectionMode::SelectingFirstNode), Some(1), None);
    assert_eq!(first.selection, select_node(1));
    assert_eq!(first.mode, Some(ConnectionMode::SelectingSecondNode { first_node_id: 1 }));
    let second = viewport_click(first.mode, Some(2), Some(7));
    assert_eq!(second, ClickOutcome {
        selection: None,
        mode: None,
        create_connection: Some(ClickedConnection {
            source_node_id: 1,
            target_node_id: 2,
            connection_type: LinkType::Ethernet,
            bandwidth_mbps: 1000,
            status: LinkStatus::Active,
        }),
    });
    let made = second.create_connection.unwrap();
    assert_eq!(made.connection_type.name(), "ethernet");
    assert_eq!(made.status.name(), "active");
    assert_eq!(mode_after_connection_attempt(true), ConnectionMode::SelectingFirstNode);
    assert_eq!(mode_after_connection_attempt(false), ConnectionMode::SelectingFirstNode);
}

#[test]
fn empty_clicks_in_connection_mode() {
    let o = viewport_click(Some(ConnectionMode::SelectingFirstNode), None, Some(3));
    assert_eq!(o, ClickOutcome { selection: Some(Selection { node: None, item: None }), mode: None, create_connection: None });
    let o = viewport_click(Some(ConnectionMode::SelectingSecondNode { first_node_id: 4 }), None, None);
    assert_eq!(o.mode, Some(ConnectionMode::SelectingFirstNode));
    assert_eq!(o.selection, Some(Selection { node: None, item: None }));
}

#[test]
fn connection_mode_button() {
    assert_eq!(toggle_connection_mode(ConnectionMode::Disabled), ConnectionMode::SelectingFirstNode);
    assert_eq!(toggle_connection_mode(ConnectionMode::SelectingFirstNode), ConnectionMode::Disabled);
    assert_eq!(toggle_connection_mode(ConnectionMode::SelectingSecondNode { first_node_id: 2 }), ConnectionMode::Disabled);
    assert_eq!(connection_mode_hint(ConnectionMode::Disabled), "Click to activate");
    assert_eq!(connection_mode_hint(ConnectionMode::SelectingFirstNode), "Select first node");
    assert_eq!(connection_mode_hint(ConnectionMode::SelectingSecondNode { first_node_id: 2 }), "Select second node");
}

#[test]
fn selection_highlighting() {
    assert!(connection_is_selected(Some(SelectedItem::Connection(3)), 3));
    assert!(!connection_is_selected(Some(SelectedItem::Node(3)), 3));
    assert!(!connection_is_selected(None, 3));
    assert!(node_is_selected(Some(8), 8));
    assert!(!node_is_selected(Some(8), 9));
}

#[test]
fn keyboard_shortcuts() {
    let k = |key: &str, typing, fullscreen, selected| editor_key(key, typing, false, false, fullscreen, selected);
    assert_eq!(k("f", false, false, false), KeyOutcome { prevent_default: true, fullscreen: true, clear_selection: false });
    assert_eq!(k("F", false, true, false), KeyOutcome { prevent_default: true, fullscreen: false, clear_selection: false });
    assert_eq!(k("f", true, false, false), KeyOutcome { prevent_default: false, fullscreen: false, clear_selection: false });
    assert_eq!(k("Escape", false, true, true), KeyOutcome { prevent_default: true, fullscreen: false, clear_selection: false });
    assert_eq!(k("Escape", false, false, true), KeyOutcome { prevent_default: true, fullscreen: false, clear_selection: true });
    assert_eq!(k("Delete", false, false, true), KeyOutcome { prevent_default: true, fullscreen: false, clear_selection: false });
    assert_eq!(k("Backspace", false, false, false), KeyOutcome { prevent_default: false, fullscreen: false, clear_selection: false });
    assert_eq!(editor_key("Delete", false, true, false, false, true), KeyOutcome { prevent_default: false, fullscreen: false, clear_selection: false });
    assert_eq!(k("x", false, true, true), KeyOutcome { prevent_default: false, fullscreen: true, clear_selection: false });
}

#[test]
fn text_entry_tags() {
    assert!(is_text_entry_tag("INPUT"));
    assert!(is_text_entry_tag("textarea"));
    assert!(!is_text_entry_tag("DIV"));
}

#[test]
fn palette_placement() {
    assert_eq!(palette_node_name("Router", 0), "Router-1");
    assert_eq!(palette_node_name("LoadBalancer", 41), "LoadBalancer-42");
    assert_eq!(palette_grid_position(0), (-6, -3));
    assert_eq!(palette_grid_position(4), (6, -3));
    assert_eq!(palette_grid_position(7), (0, 0));
}

#[test]
fn topology_names_must_not_be_blank() {
    assert!(topology_name_accepted("Lab"));
    assert!(!topology_name_accepted("  \t"));
    assert!(!topology_name_accepted(""));
}

#[test]
fn export_choices() {
    assert!(is_json_export("json"));
    assert!(!is_json_export("png"));
    assert_eq!(export_image_mime("jpeg"), "image/jpeg");
    assert_eq!(export_image_mime("png"), "image/png");
    assert_eq!(export_image_filename("jpeg"), "topology-export.jpg");
    assert_eq!(export_image_filename("png"), "topology-export.png");
    assert_eq!(export_canvas_size(800, 600, 1), None);
    assert_eq!(export_canvas_size(800, 600, 4), Some((3200, 2400)));
    assert_eq!(export_json_filename("My Core Net", 1700000000000), "topology-my_core_net-1700000000000.json");
}

#[test]
fn startup_and_counter() {
    assert_eq!(startup_topology(Some(3), Some(1)), Some(3));
    assert_eq!(startup_topology(None, Some(1)), Some(1));
    assert_eq!(startup_topology(None, None), None);
    assert_eq!(counter_next(5, 2, CounterAction::Increment), 6);
    assert_eq!(counter_next(5, 2, CounterAction::Decrement), 4);
    assert_eq!(counter_next(5, 2, CounterAction::Reset), 2);
}

#[test]
fn link_names() {
    assert_eq!(LinkType::Fiber.name(), "fiber");
    assert_eq!(LinkType::Wireless.name(), "wireless");
    assert_eq!(LinkType::Vpn.name(), "vpn");
    assert_eq!(LinkType::Wan.name(), "wan");
    assert_eq!(LinkStatus::Inactive.name(), "inactive");
    assert_eq!(LinkStatus::Degraded.name(), "degraded");
}
