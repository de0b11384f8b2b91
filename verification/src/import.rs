use vstd::prelude::*;
use std::collections::HashMap;
use crate::editor::ConnectionRequest;
use crate::text::{decimal, push_str, signed_decimal, i64_to_decimal, u64_to_decimal};

verus! {

broadcast use vstd::std_specs::hash::group_hash_axioms;

/// Why an imported topology is refused.
#[derive(Clone, Copy, Debug, PartialEq, Eq, Structural)]
pub enum ImportError {
    /// The topology has no node.
    NoNodes,
    /// A connection starts at a node id that is not among the imported nodes.
    SourceNotMapped(i64),
    /// A connection ends at a node id that is not among the imported nodes.
    TargetNotMapped(i64),
}

pub open spec fn import_error_message(e: ImportError) -> Seq<char> {
    match e {
        ImportError::NoNodes => "Topology must contain at least one node"@,
        ImportError::SourceNotMapped(id) => "Source node ID "@ + signed_decimal(id as int)
            + " not found in mapping"@,
        ImportError::TargetNotMapped(id) => "Target node ID "@ + signed_decimal(id as int)
            + " not found in mapping"@,
    }
}

impl ImportError {
    /// The message shown to the user.
    pub fn message(&self) -> (s: String)
        ensures
            s@ == import_error_message(*self),
    {
        match self {
            ImportError::NoNodes => "Topology must contain at least one node".to_owned(),
            ImportError::SourceNotMapped(id) => {
                let mut s = "Source node ID ".to_owned();
                let n = i64_to_decimal(*id);
                push_str(&mut s, n.as_str());
                push_str(&mut s, " not found in mapping");
                s
            },
            ImportError::TargetNotMapped(id) => {
                let mut s = "Target node ID ".to_owned();
                let n = i64_to_decimal(*id);
                push_str(&mut s, n.as_str());
                push_str(&mut s, " not found in mapping");
                s
            },
        }
    }
}

/// An imported topology must hold at least one node.
pub fn check_import_nodes(node_count: usize) -> (r: Result<(), ImportError>)
    ensures
        r is Ok <==> node_count > 0,
        r is Err ==> r == Err::<(), ImportError>(ImportError::NoNodes),
{
    if node_count == 0 {
        Err(ImportError::NoNodes)
    } else {
        Ok(())
    }
}

/// Records that the imported node `old_id` was created as `new_id`.
pub fn record_imported_node(map: &mut HashMap<i64, i64>, old_id: i64, new_id: i64)
    ensures
        final(map)@ == old(map)@.insert(old_id, new_id),
{
    map.insert(old_id, new_id);
}

/// A connection of the imported topology carried over to the created nodes.
pub open spec fn remap_spec(m: Map<i64, i64>, source: i64, target: i64) -> Result<ConnectionRequest, ImportError> {
    if !m.contains_key(source) {
        Err(ImportError::SourceNotMapped(source))
    } else if !m.contains_key(target) {
        Err(ImportError::TargetNotMapped(target))
    } else {
        Ok(ConnectionRequest { source_node_id: m[source], target_node_id: m[target] })
    }
}

/// Carries a connection between imported nodes over to the nodes created for
/// them; an end that names no imported node is an error (the source is checked
/// first).
pub fn remap_connection(map: &HashMap<i64, i64>, source: i64, target: i64) -> (r: Result<ConnectionRequest, ImportError>)
    ensures
        r == remap_spec(map@, source, target),
{
    let s = match map.get(&source) {
        Some(v) => *v,
        None => {
            return Err(ImportError::SourceNotMapped(source));
        },
    };
    let t = match map.get(&target) {
        Some(v) => *v,
        None => {
            return Err(ImportError::TargetNotMapped(target));
        },
    };
    Ok(ConnectionRequest { source_node_id: s, target_node_id: t })
}

/// The message after a successful import:
/// `Successfully imported '{name}' with {nodes} nodes and {connections} connections`.
pub fn import_summary(name: &str, nodes: usize, connections: usize) -> (s: String)
    ensures
        s@ == "Successfully imported '"@ + name@ + "' with "@ + decimal(nodes as nat) + " nodes and "@
            + decimal(connections as nat) + " connections"@,
{
    let mut s = "Successfully imported '".to_owned();
    push_str(&mut s, name);
    push_str(&mut s, "' with ");
    let n = u64_to_decimal(nodes as u64);
    push_str(&mut s, n.as_str());
    push_str(&mut s, " nodes and ");
    let c = u64_to_decimal(connections as u64);
    push_str(&mut s, c.as_str());
    push_str(&mut s, " connections");
    s
}

/// Law: once every node of the imported topology has been recorded, a
/// connection between two of them is carried over to the nodes created for its
/// ends; the last record of a node id counts.
pub proof fn law_import_carries_connections(m: Map<i64, i64>, a: i64, new_a: i64, b: i64, new_b: i64)
    requires
        a != b,
    ensures
        remap_spec(m.insert(a, new_a).insert(b, new_b), a, b) == Ok::<ConnectionRequest, ImportError>(
            ConnectionRequest { source_node_id: new_a, target_node_id: new_b },
        ),
        remap_spec(m.insert(a, new_a).insert(a, new_b), a, a) == Ok::<ConnectionRequest, ImportError>(
            ConnectionRequest { source_node_id: new_b, target_node_id: new_b },
        ),
{
}

/// Law: a connection whose source was not recorded is refused with that id,
/// whatever its target.
pub proof fn law_import_unknown_source(m: Map<i64, i64>, source: i64, target: i64)
    requires
        !m.contains_key(source),
    ensures
        remap_spec(m, source, target) == Err::<ConnectionRequest, ImportError>(ImportError::SourceNotMapped(source)),
{
}


/// The id map after recording, in order, each imported node (old id) with the
/// node created for it (new id).
pub open spec fn recorded_ids(pairs: Seq<(i64, i64)>) -> Map<i64, i64>
    decreases pairs.len(),
{
    if pairs.len() == 0 {
        Map::empty()
    } else {
        recorded_ids(pairs.drop_last()).insert(pairs.last().0, pairs.last().1)
    }
}

/// Distinct old ids, as the nodes of one exported topology have.
pub open spec fn distinct_old_ids(pairs: Seq<(i64, i64)>) -> bool {
    forall|i: int, j: int| 0 <= i < j < pairs.len() ==> #[trigger] pairs[i].0 != #[trigger] pairs[j].0
}

proof fn lemma_recorded_ids(pairs: Seq<(i64, i64)>, i: int)
    requires
        distinct_old_ids(pairs),
        0 <= i < pairs.len(),
    ensures
        recorded_ids(pairs).contains_key(pairs[i].0),
        recorded_ids(pairs)[pairs[i].0] == pairs[i].1,
    decreases pairs.len(),
{
    if i < pairs.len() - 1 {
        let p = pairs.drop_last();
        assert(p[i] == pairs[i]);
        assert(distinct_old_ids(p)) by {
            assert forall|a: int, b: int| 0 <= a < b < p.len() implies #[trigger] p[a].0 != #[trigger] p[b].0 by {
                assert(p[a] == pairs[a] && p[b] == pairs[b]);
            }
        }
        lemma_recorded_ids(p, i);
        assert(pairs[i].0 != pairs.last().0);
    }
}

/// Law: importing a topology whose nodes have distinct ids carries every
/// connection between two of its nodes over to the nodes created for them.
pub proof fn law_import_recreates_connections(pairs: Seq<(i64, i64)>, i: int, j: int)
    requires
        distinct_old_ids(pairs),
        0 <= i < pairs.len(),
        0 <= j < pairs.len(),
    ensures
        remap_spec(recorded_ids(pairs), pairs[i].0, pairs[j].0) == Ok::<ConnectionRequest, ImportError>(
            ConnectionRequest { source_node_id: pairs[i].1, target_node_id: pairs[j].1 },
        ),
{
    lemma_recorded_ids(pairs, i);
    lemma_recorded_ids(pairs, j);
}

} // verus!
