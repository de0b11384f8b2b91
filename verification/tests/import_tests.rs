use std::collections::HashMap;
use ntb::editor::ConnectionRequest;
use ntb::import::{check_import_nodes, import_summary, record_imported_node, remap_connection, ImportError};

#[test]
fn imports_need_nodes() {
    assert_eq!(check_import_nodes(0), Err(ImportError::NoNodes));
    assert!(check_import_nodes(3).is_ok());
    assert_eq!(ImportError::NoNodes.message(), "Topology must contain at least one node");
}

#[test]
fn connections_follow_created_nodes() {
    let mut map = HashMap::new();
    record_imported_node(&mut map, 10, 100);
    record_imported_node(&mut map, 11, 101);
    record_imported_node(&mut map, 10, 200);
    assert_eq!(remap_connection(&map, 10, 11), Ok(ConnectionRequest { source_node_id: 200, target_node_id: 101 }));
    assert_eq!(remap_connection(&map, 12, 99), Err(ImportError::SourceNotMapped(12)));
    assert_eq!(remap_connection(&map, 11, -5), Err(ImportError::TargetNotMapped(-5)));
    assert_eq!(ImportError::SourceNotMapped(12).message(), "Source node ID 12 not found in mapping");
    assert_eq!(ImportError::TargetNotMapped(-5).message(), "Target node ID -5 not found in mapping");
}

#[test]
fn import_message() {
    assert_eq!(import_summary("Imported Core", 3, 2), "Successfully imported 'Imported Core' with 3 nodes and 2 connections");
}

#[test]
fn importing_an_export_carries_every_connection() {
    let nodes = [(7, 101), (3, 102), (9, 103)];
    let connections = [(7, 3), (3, 9), (9, 7)];
    let mut map = HashMap::new();
    for (old, new) in nodes {
        record_imported_node(&mut map, old, new);
    }
    let carried: Vec<ConnectionRequest> =
        connections.iter().map(|&(s, t)| remap_connection(&map, s, t).unwrap()).collect();
    assert_eq!(carried, vec![
        ConnectionRequest { source_node_id: 101, target_node_id: 102 },
        ConnectionRequest { source_node_id: 102, target_node_id: 103 },
        ConnectionRequest { source_node_id: 103, target_node_id: 101 },
    ]);
}
