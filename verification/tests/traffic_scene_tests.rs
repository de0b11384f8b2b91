use ntb::scene::{
    drawn_connection_ids, environment_url, light_setup, model_cache_key, model_url, topology_caption,
    ConnectionEnds, LightSetup,
};
use ntb::traffic::{retention_cutoff, traffic_level, traffic_targets, ConnectionLink, TrafficLevel, TrafficTarget};

#[test]
fn traffic_levels() {
    assert_eq!(traffic_level("low"), TrafficLevel::Low);
    assert_eq!(traffic_level("medium"), TrafficLevel::Medium);
    assert_eq!(traffic_level("high"), TrafficLevel::High);
    assert_eq!(traffic_level("HIGH"), TrafficLevel::Medium);
}

#[test]
fn only_active_connections_get_traffic() {
    let links = vec![
        ConnectionLink { id: 1, status: "active".to_string(), bandwidth_mbps: Some(10000) },
        ConnectionLink { id: 2, status: "inactive".to_string(), bandwidth_mbps: Some(100) },
        ConnectionLink { id: 3, status: "active".to_string(), bandwidth_mbps: None },
        ConnectionLink { id: 4, status: "degraded".to_string(), bandwidth_mbps: None },
    ];
    assert_eq!(traffic_targets(&links), vec![
        TrafficTarget { connection_id: 1, bandwidth_mbps: 10000 },
        TrafficTarget { connection_id: 3, bandwidth_mbps: 1000 },
    ]);
    assert!(traffic_targets(&vec![]).is_empty());
}

#[test]
fn retention_is_one_hour() {
    assert_eq!(retention_cutoff(1_700_003_600), 1_700_000_000);
}

#[test]
fn scene_locations() {
    assert_eq!(model_cache_key("router", "cisco", "asr9000"), "router:cisco:asr9000");
    assert_eq!(model_url("http://h:3000", "router", "generic", "blob-router"), "http://h:3000/models/router/generic/blob-router.glb");
    assert_eq!(environment_url("http://h", "studio_small_09_2k.hdr"), "http://h/environments/studio_small_09_2k.hdr");
    assert_eq!(topology_caption(Some(7)), " • Topology #7");
    assert_eq!(topology_caption(None), "");
}

#[test]
fn connections_with_unknown_ends_are_not_drawn() {
    let nodes = vec![1, 2, 3];
    let ends = |id, source_node_id, target_node_id| ConnectionEnds { id, source_node_id, target_node_id };
    let connections = vec![ends(10, 1, 2), ends(11, 2, 99), ends(12, 98, 3), ends(13, 3, 1)];
    assert_eq!(drawn_connection_ids(&nodes, &connections), vec![10, 13]);
    assert!(drawn_connection_ids(&vec![], &connections).is_empty());
}

#[test]
fn lighting_choice() {
    assert_eq!(light_setup(true, true, true), LightSetup { ambient_from_environment: true, three_point_lights: false });
    assert_eq!(light_setup(true, false, true), LightSetup { ambient_from_environment: false, three_point_lights: false });
    assert_eq!(light_setup(false, false, false), LightSetup { ambient_from_environment: false, three_point_lights: true });
    assert_eq!(light_setup(true, true, false), LightSetup { ambient_from_environment: true, three_point_lights: true });
}
