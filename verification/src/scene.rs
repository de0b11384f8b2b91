use vstd::prelude::*;
use crate::text::{push_str, signed_decimal, i64_to_decimal};

verus! {

/// Key under which a loaded model is cached: `{node_type}:{vendor}:{model_name}`.
pub fn model_cache_key(node_type: &str, vendor: &str, model_name: &str) -> (s: String)
    ensures
        s@ == node_type@ + ":"@ + vendor@ + ":"@ + model_name@,
{
    let mut s = node_type.to_owned();
    push_str(&mut s, ":");
    push_str(&mut s, vendor);
    push_str(&mut s, ":");
    push_str(&mut s, model_name);
    s
}

/// URL of a node's model file: `{origin}/models/{node_type}/{vendor}/{model_name}.glb`.
pub fn model_url(origin: &str, node_type: &str, vendor: &str, model_name: &str) -> (s: String)
    ensures
        s@ == origin@ + "/models/"@ + node_type@ + "/"@ + vendor@ + "/"@ + model_name@ + ".glb"@,
{
    let mut s = origin.to_owned();
    push_str(&mut s, "/models/");
    push_str(&mut s, node_type);
    push_str(&mut s, "/");
    push_str(&mut s, vendor);
    push_str(&mut s, "/");
    push_str(&mut s, model_name);
    push_str(&mut s, ".glb");
    s
}

/// URL of an HDR environment map: `{origin}/environments/{file}`.
pub fn environment_url(origin: &str, file: &str) -> (s: String)
    ensures
        s@ == origin@ + "/environments/"@ + file@,
{
    let mut s = origin.to_owned();
    push_str(&mut s, "/environments/");
    push_str(&mut s, file);
    s
}

/// The part of the viewport's status line naming the topology:
/// ` • Topology #{id}`, or nothing when no topology is shown.
pub fn topology_caption(topology_id: Option<i64>) -> (s: String)
    ensures
        s@ == match topology_id {
            Some(id) => " • Topology #"@ + signed_decimal(id as int),
            None => Seq::<char>::empty(),
        },
{
    match topology_id {
        Some(id) => {
            let mut s = " • Topology #".to_owned();
            let n = i64_to_decimal(id);
            push_str(&mut s, n.as_str());
            s
        },
        None => String::new(),
    }
}


/// A connection as the view draws it: its id and the ids of its two end nodes.
#[derive(Clone, Copy, Debug, PartialEq, Eq, Structural)]
pub struct ConnectionEnds {
    pub id: i64,
    pub source_node_id: i64,
    pub target_node_id: i64,
}

/// The ids of the connections that are drawn, in order: those whose two ends
/// are among the topology's nodes (the others are left out).
pub open spec fn drawn_ids_spec(node_ids: Seq<i64>, connections: Seq<ConnectionEnds>) -> Seq<i64>
    decreases connections.len(),
{
    if connections.len() == 0 {
        seq![]
    } else {
        let prev = drawn_ids_spec(node_ids, connections.drop_last());
        let c = connections.last();
        if node_ids.contains(c.source_node_id) && node_ids.contains(c.target_node_id) {
            prev.push(c.id)
        } else {
            prev
        }
    }
}

/// Law: the view draws the connections whose two ends are nodes of the
/// topology, in their order, and no other: adding a connection to the list adds
/// its id exactly when both its ends are among the nodes.
pub proof fn law_drawn_connections(node_ids: Seq<i64>, connections: Seq<ConnectionEnds>, c: ConnectionEnds)
    ensures
        drawn_ids_spec(node_ids, Seq::<ConnectionEnds>::empty()) == Seq::<i64>::empty(),
        node_ids.contains(c.source_node_id) && node_ids.contains(c.target_node_id) ==> drawn_ids_spec(
            node_ids,
            connections.push(c),
        ) == drawn_ids_spec(node_ids, connections).push(c.id),
        !(node_ids.contains(c.source_node_id) && node_ids.contains(c.target_node_id)) ==> drawn_ids_spec(
            node_ids,
            connections.push(c),
        ) == drawn_ids_spec(node_ids, connections),
{
    assert(connections.push(c).drop_last() =~= connections);
}

fn contains_id(ids: &Vec<i64>, id: i64) -> (b: bool)
    ensures
        b == ids@.contains(id),
{
    let mut i: usize = 0;
    while i < ids.len()
        invariant
            i <= ids.len(),
            forall|k: int| 0 <= k < i ==> ids@[k] != id,
        decreases ids.len() - i,
    {
        if ids[i] == id {
            return true;
        }
        i = i + 1;
    }
    false
}

/// The connections the view draws: those whose two ends are nodes of the
/// topology, in their order.
pub fn drawn_connection_ids(node_ids: &Vec<i64>, connections: &Vec<ConnectionEnds>) -> (r: Vec<i64>)
    ensures
        r@ == drawn_ids_spec(node_ids@, connections@),
{
    let mut r: Vec<i64> = Vec::new();
    let mut i: usize = 0;
    while i < connections.len()
        invariant
            i <= connections.len(),
            r@ == drawn_ids_spec(node_ids@, connections@.take(i as int)),
        decreases connections.len() - i,
    {
        let c = connections[i];
        proof {
            assert(connections@.take(i + 1).drop_last() =~= connections@.take(i as int));
            assert(connections@.take(i + 1).last() == c);
        }
        if contains_id(node_ids, c.source_node_id) && contains_id(node_ids, c.target_node_id) {
            r.push(c.id);
        }
        i = i + 1;
    }
    proof { assert(connections@.take(connections.len() as int) =~= connections@); }
    r
}

/// Which lights the view uses.
#[derive(Clone, Copy, Debug, PartialEq, Eq, Structural)]
pub struct LightSetup {
    /// The ambient light takes its light from the HDR environment map.
    pub ambient_from_environment: bool,
    /// The key, fill and rim lights shine besides the ambient light.
    pub three_point_lights: bool,
}

/// The lights of the view: the ambient light uses the environment map when
/// environment lighting was on when the scene was built and the map loaded;
/// the three directional lights shine only while environment lighting is off.
pub fn light_setup(initially_on: bool, environment_loaded: bool, now_on: bool) -> (l: LightSetup)
    ensures
        l.ambient_from_environment == (initially_on && environment_loaded),
        l.three_point_lights == !now_on,
{
    LightSetup { ambient_from_environment: initially_on && environment_loaded, three_point_lights: !now_on }
}

} // verus!
