use ntb::sql::{
    basic_connection_update_plan, basic_node_update_plan, build_update_sql, connection_form_changes,
    connection_update_plan, lighting_settings_changes, node_form_changes, node_update_plan,
    settings_update_plan, sql_flag, topology_update_plan, visibility_settings_changes,
    ConnectionChanges, ConnectionColumn, NodeChanges, NodeColumn, SettingsChanges, SettingsColumn,
    TopologyColumn, UpdateError,
};

fn no_node_changes() -> NodeChanges {
    NodeChanges {
        name: false,
        node_type: false,
        vendor: false,
        model_name: false,
        ip_address: false,
        position_x: false,
        position_y: false,
        position_z: false,
        rotation_x: false,
        rotation_y: false,
        rotation_z: false,
        scale: false,
        color: false,
        metadata: false,
    }
}

fn no_connection_changes() -> ConnectionChanges {
    ConnectionChanges { connection_type: false, bandwidth_mbps: false, latency_ms: false, status: false, color: false, metadata: false }
}

fn no_settings_changes() -> SettingsChanges {
    SettingsChanges {
        show_grid: false,
        show_x_axis: false,
        show_y_axis: false,
        show_z_axis: false,
        ambient_intensity: false,
        key_light_intensity: false,
        fill_light_intensity: false,
        rim_light_intensity: false,
        use_environment_lighting: false,
        environment_map: false,
    }
}

#[test]
fn generic_update_builder() {
    assert_eq!(build_update_sql("t", false, &vec!["a", "b"], "id = ?"), "UPDATE t SET a = ?, b = ? WHERE id = ?");
    assert_eq!(build_update_sql("t", true, &vec!["a"], "id = 1"), "UPDATE t SET updated_at = CURRENT_TIMESTAMP, a = ? WHERE id = 1");
    assert_eq!(build_update_sql("t", true, &vec![], "id = ?"), "UPDATE t SET updated_at = CURRENT_TIMESTAMP WHERE id = ?");
}

#[test]
fn topology_updates() {
    let p = topology_update_plan(true, true);
    assert_eq!(p.sql, "UPDATE topologies SET updated_at = CURRENT_TIMESTAMP, name = ?, description = ? WHERE id = ?");
    assert_eq!(p.columns, vec![TopologyColumn::Name, TopologyColumn::Description]);
    let p = topology_update_plan(false, true);
    assert_eq!(p.sql, "UPDATE topologies SET updated_at = CURRENT_TIMESTAMP, description = ? WHERE id = ?");
    let p = topology_update_plan(false, false);
    assert_eq!(p.sql, "UPDATE topologies SET updated_at = CURRENT_TIMESTAMP WHERE id = ?");
    assert!(p.columns.is_empty());
}

#[test]
fn node_updates() {
    let mut c = no_node_changes();
    assert_eq!(node_update_plan(c).err(), Some(UpdateError::NoFieldsToUpdate));
    c.scale = true;
    c.color = true;
    c.rotation_y = true;
    assert_eq!(node_update_plan(c).err(), Some(UpdateError::NoFieldsToUpdate));
    let mut v = no_node_changes();
    v.vendor = true;
    let p = node_update_plan(v).ok().unwrap();
    assert_eq!(p.sql, "UPDATE nodes SET updated_at = CURRENT_TIMESTAMP, vendor = ? WHERE id = ?");
    assert_eq!(p.columns, vec![NodeColumn::Vendor]);
    let mut m = no_node_changes();
    m.model_name = true;
    assert_eq!(node_update_plan(m).ok().unwrap().columns, vec![NodeColumn::ModelName]);
    c = no_node_changes();
    c.vendor = true;
    c.scale = true;
    c.ip_address = true;
    let p = node_update_plan(c).ok().unwrap();
    assert_eq!(p.sql, "UPDATE nodes SET updated_at = CURRENT_TIMESTAMP, vendor = ?, ip_address = ?, scale = ? WHERE id = ?");
    assert_eq!(p.columns, vec![NodeColumn::Vendor, NodeColumn::IpAddress, NodeColumn::Scale]);
    let p = node_update_plan(node_form_changes("10.0.0.1")).ok().unwrap();
    assert_eq!(p.columns.len(), 13);
    assert_eq!(
        p.sql,
        "UPDATE nodes SET updated_at = CURRENT_TIMESTAMP, name = ?, node_type = ?, vendor = ?, model_name = ?, ip_address = ?, position_x = ?, position_y = ?, position_z = ?, rotation_x = ?, rotation_y = ?, rotation_z = ?, scale = ?, color = ? WHERE id = ?"
    );
    assert!(!node_form_changes("").ip_address);
}

#[test]
fn basic_node_updates() {
    let mut c = no_node_changes();
    c.vendor = true;
    assert_eq!(basic_node_update_plan(c).err(), Some(UpdateError::NoFieldsToUpdate));
    c.name = true;
    c.position_z = true;
    let p = basic_node_update_plan(c).ok().unwrap();
    assert_eq!(p.sql, "UPDATE nodes SET name = ?, position_z = ? WHERE id = ?");
    assert_eq!(p.columns, vec![NodeColumn::Name, NodeColumn::PositionZ]);
}

#[test]
fn connection_updates() {
    let p = connection_update_plan(no_connection_changes());
    assert_eq!(p.sql, "UPDATE connections SET updated_at = CURRENT_TIMESTAMP WHERE id = ?");
    let p = connection_update_plan(connection_form_changes(0, true));
    assert_eq!(p.sql, "UPDATE connections SET updated_at = CURRENT_TIMESTAMP, connection_type = ?, latency_ms = ?, status = ?, color = ? WHERE id = ?");
    assert_eq!(p.columns, vec![ConnectionColumn::ConnectionType, ConnectionColumn::LatencyMs, ConnectionColumn::Status, ConnectionColumn::Color]);
    assert!(connection_form_changes(1000, false).bandwidth_mbps);
}

#[test]
fn basic_connection_updates() {
    let mut c = no_connection_changes();
    c.color = true;
    assert_eq!(basic_connection_update_plan(c).err(), Some(UpdateError::NoFieldsToUpdate));
    c.status = true;
    let p = basic_connection_update_plan(c).ok().unwrap();
    assert_eq!(p.sql, "UPDATE connections SET status = ? WHERE id = ?");
}

#[test]
fn settings_updates() {
    assert_eq!(settings_update_plan(no_settings_changes()).err(), Some(UpdateError::NoFieldsToUpdate));
    let p = settings_update_plan(visibility_settings_changes()).ok().unwrap();
    assert_eq!(p.sql, "UPDATE ui_settings SET show_grid = ?, show_x_axis = ?, show_y_axis = ?, show_z_axis = ?, use_environment_lighting = ?, environment_map = ? WHERE id = 1");
    let p = settings_update_plan(lighting_settings_changes()).ok().unwrap();
    assert_eq!(p.columns, vec![SettingsColumn::AmbientIntensity, SettingsColumn::KeyLightIntensity, SettingsColumn::FillLightIntensity, SettingsColumn::RimLightIntensity]);
    assert_eq!(p.sql, "UPDATE ui_settings SET ambient_intensity = ?, key_light_intensity = ?, fill_light_intensity = ?, rim_light_intensity = ? WHERE id = 1");
}

#[test]
fn placeholders_match_columns() {
    let mut c = no_node_changes();
    c.name = true;
    c.color = true;
    c.metadata = true;
    let p = node_update_plan(c).ok().unwrap();
    assert_eq!(p.sql.matches('?').count(), p.columns.len() + 1);
}

#[test]
fn flags_and_messages() {
    assert_eq!(sql_flag(true), "1");
    assert_eq!(sql_flag(false), "0");
    assert_eq!(UpdateError::NoFieldsToUpdate.message(), "No fields to update");
}
