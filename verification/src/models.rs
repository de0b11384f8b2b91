use vstd::prelude::*;
use crate::sql::{topology_update_columns, topology_update_plan, update_sql_spec, column_names_spec, TopologyColumn, UpdatePlan};
use crate::text::push_str;

verus! {

// ---------------------------------------------------------------------------
// Topologies
// ---------------------------------------------------------------------------

/// A network topology.
#[derive(Clone, Debug)]
pub struct Topology {
    pub id: i64,
    pub name: String,
    pub description: Option<String>,
    pub created_at: i64,
    pub updated_at: i64,
}

/// The fields of a topology to create.
#[derive(Clone, Debug)]
pub struct CreateTopology {
    pub name: String,
    pub description: Option<String>,
}

/// The fields of a topology to change; `None` leaves a field as it is.
#[derive(Clone, Debug)]
pub struct UpdateTopology {
    pub name: Option<String>,
    pub description: Option<String>,
}

/// The statement that applies an `UpdateTopology` to the row `id = ?`: it always
/// refreshes `updated_at` and sets the name and the description when given.
pub fn update_topology_plan(data: &UpdateTopology) -> (p: UpdatePlan<TopologyColumn>)
    ensures
        p.columns@ == topology_update_columns(data.name is Some, data.description is Some),
        p.sql@ == update_sql_spec("topologies"@, true, column_names_spec(p.columns@), "id = ?"@),
{
    topology_update_plan(data.name.is_some(), data.description.is_some())
}

/// The topology created when a topology is imported: the same description and
/// the name prefixed with `Imported `.
pub fn imported_topology(t: &Topology) -> (c: CreateTopology)
    ensures
        c.name@ == "Imported "@ + t.name@,
        c.description == t.description,
{
    let mut name = "Imported ".to_owned();
    push_str(&mut name, t.name.as_str());
    CreateTopology { name, description: t.description.clone() }
}

// ---------------------------------------------------------------------------
// Defaults of new nodes and connections
// ---------------------------------------------------------------------------

pub open spec fn text_or(v: Option<String>, d: Seq<char>) -> Seq<char> {
    match v {
        Some(s) => s@,
        None => d,
    }
}

/// The text fields stored for a new node.
pub struct NodeTextFields {
    pub vendor: String,
    pub model_name: String,
    pub color: String,
}

/// The vendor, model and colour stored for a new node: the given ones, or vendor
/// `generic`, model `blob-{node_type}` and colour `100,150,255` (blue).
pub fn new_node_text_fields(
    vendor: Option<String>,
    model_name: Option<String>,
    color: Option<String>,
    node_type: &str,
) -> (r: NodeTextFields)
    ensures
        r.vendor@ == text_or(vendor, "generic"@),
        r.model_name@ == text_or(model_name, "blob-"@ + node_type@),
        r.color@ == text_or(color, "100,150,255"@),
{
    let vendor = match vendor {
        Some(v) => v,
        None => "generic".to_owned(),
    };
    let model_name = match model_name {
        Some(m) => m,
        None => {
            let mut m = "blob-".to_owned();
            push_str(&mut m, node_type);
            m
        },
    };
    let color = match color {
        Some(c) => c,
        None => "100,150,255".to_owned(),
    };
    NodeTextFields { vendor, model_name, color }
}

/// The kinds of link between two nodes.
#[derive(Clone, Copy, Debug, PartialEq, Eq, Structural)]
pub enum LinkType {
    Ethernet,
    Fiber,
    Wireless,
    Vpn,
    Wan,
}

/// The name a link type is stored under.
pub open spec fn link_type_name(t: LinkType) -> Seq<char> {
    match t {
        LinkType::Ethernet => "ethernet"@,
        LinkType::Fiber => "fiber"@,
        LinkType::Wireless => "wireless"@,
        LinkType::Vpn => "vpn"@,
        LinkType::Wan => "wan"@,
    }
}

impl LinkType {
    /// The name this link type is stored under.
    pub fn name(&self) -> (s: &'static str)
        ensures
            s@ == link_type_name(*self),
    {
        match self {
            LinkType::Ethernet => "ethernet",
            LinkType::Fiber => "fiber",
            LinkType::Wireless => "wireless",
            LinkType::Vpn => "vpn",
            LinkType::Wan => "wan",
        }
    }
}

/// The states of a link.
#[derive(Clone, Copy, Debug, PartialEq, Eq, Structural)]
pub enum LinkStatus {
    Active,
    Inactive,
    Degraded,
}

/// The name a link state is stored under.
pub open spec fn link_status_name(s: LinkStatus) -> Seq<char> {
    match s {
        LinkStatus::Active => "active"@,
        LinkStatus::Inactive => "inactive"@,
        LinkStatus::Degraded => "degraded"@,
    }
}

impl LinkStatus {
    /// The name this link state is stored under.
    pub fn name(&self) -> (s: &'static str)
        ensures
            s@ == link_status_name(*self),
    {
        match self {
            LinkStatus::Active => "active",
            LinkStatus::Inactive => "inactive",
            LinkStatus::Degraded => "degraded",
        }
    }
}

/// The text fields stored for a new connection.
pub struct ConnectionTextFields {
    pub connection_type: String,
    pub status: String,
    pub color: String,
}

/// The type, status and colour stored for a new connection: the given ones, or
/// `ethernet`, `active` and `128,128,128` (gray).
pub fn new_connection_text_fields(
    connection_type: Option<String>,
    status: Option<String>,
    color: Option<String>,
) -> (r: ConnectionTextFields)
    ensures
        r.connection_type@ == text_or(connection_type, "ethernet"@),
        r.status@ == text_or(status, "active"@),
        r.color@ == text_or(color, "128,128,128"@),
{
    let connection_type = match connection_type {
        Some(t) => t,
        None => "ethernet".to_owned(),
    };
    let status = match status {
        Some(s) => s,
        None => "active".to_owned(),
    };
    let color = match color {
        Some(c) => c,
        None => "128,128,128".to_owned(),
    };
    ConnectionTextFields { connection_type, status, color }
}

/// A refused new connection.
#[derive(Clone, Copy, Debug, PartialEq, Eq, Structural)]
pub enum NewConnectionError {
    /// Source and target are the same node.
    SameEndpoints,
}

impl NewConnectionError {
    pub fn message(&self) -> (s: String)
        ensures
            s@ == "Source and target nodes must be different"@,
    {
        "Source and target nodes must be different".to_owned()
    }
}

/// The check of the basic connection endpoint: a connection must join two
/// different nodes.
pub fn check_connection_endpoints(source_node_id: i64, target_node_id: i64) -> (r: Result<(), NewConnectionError>)
    ensures
        r is Ok <==> source_node_id != target_node_id,
{
    if source_node_id == target_node_id {
        Err(NewConnectionError::SameEndpoints)
    } else {
        Ok(())
    }
}

} // verus!
