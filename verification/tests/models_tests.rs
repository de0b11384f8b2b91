use ntb::models::{check_connection_endpoints, imported_topology, new_connection_text_fields, new_node_text_fields, update_topology_plan, NewConnectionError, Topology, UpdateTopology};

#[test]
fn update_topology_statement() {
    let p = update_topology_plan(&UpdateTopology { name: Some("Lab".to_string()), description: None });
    assert_eq!(p.sql, "UPDATE topologies SET updated_at = CURRENT_TIMESTAMP, name = ? WHERE id = ?");
    assert_eq!(p.columns.len(), 1);
}

#[test]
fn imported_topology_gets_prefix() {
    let t = Topology { id: 4, name: "Core".to_string(), description: Some("dc".to_string()), created_at: 0, updated_at: 0 };
    let c = imported_topology(&t);
    assert_eq!(c.name, "Imported Core");
    assert_eq!(c.description, Some("dc".to_string()));
}

#[test]
fn node_defaults() {
    let f = new_node_text_fields(None, None, None, "router");
    assert_eq!(f.vendor, "generic");
    assert_eq!(f.model_name, "blob-router");
    assert_eq!(f.color, "100,150,255");
    let f = new_node_text_fields(Some("cisco".to_string()), Some("asr9000".to_string()), Some("1,2,3".to_string()), "router");
    assert_eq!(f.vendor, "cisco");
    assert_eq!(f.model_name, "asr9000");
    assert_eq!(f.color, "1,2,3");
}

#[test]
fn connection_defaults() {
    let f = new_connection_text_fields(None, None, None);
    assert_eq!(f.connection_type, "ethernet");
    assert_eq!(f.status, "active");
    assert_eq!(f.color, "128,128,128");
    let f = new_connection_text_fields(Some("fiber".to_string()), Some("degraded".to_string()), None);
    assert_eq!(f.connection_type, "fiber");
    assert_eq!(f.status, "degraded");
}

#[test]
fn connection_endpoints_must_differ() {
    assert!(check_connection_endpoints(1, 2).is_ok());
    assert_eq!(check_connection_endpoints(3, 3), Err(NewConnectionError::SameEndpoints));
    assert_eq!(NewConnectionError::SameEndpoints.message(), "Source and target nodes must be different");
}
