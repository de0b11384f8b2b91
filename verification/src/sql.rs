use vstd::prelude::*;
use crate::text::push_str;

verus! {

// ---------------------------------------------------------------------------
// UPDATE statements
// ---------------------------------------------------------------------------

/// `column = ?`
pub open spec fn assignment(column: Seq<char>) -> Seq<char> {
    column + " = ?"@
}

/// `a = ?, b = ?, ...` for the given columns.
pub open spec fn joined_assignments(columns: Seq<Seq<char>>) -> Seq<char>
    decreases columns.len(),
{
    if columns.len() == 0 {
        seq![]
    } else if columns.len() == 1 {
        assignment(columns[0])
    } else {
        joined_assignments(columns.drop_last()) + ", "@ + assignment(columns.last())
    }
}

/// `updated_at = CURRENT_TIMESTAMP, a = ?, b = ?, ...`
pub open spec fn timestamped_assignments(columns: Seq<Seq<char>>) -> Seq<char>
    decreases columns.len(),
{
    if columns.len() == 0 {
        "updated_at = CURRENT_TIMESTAMP"@
    } else {
        timestamped_assignments(columns.drop_last()) + ", "@ + assignment(columns.last())
    }
}

/// `UPDATE {table} SET {assignments} WHERE {condition}`; the assignments start
/// with `updated_at = CURRENT_TIMESTAMP` when `touch` is set.
pub open spec fn update_sql_spec(
    table: Seq<char>,
    touch: bool,
    columns: Seq<Seq<char>>,
    condition: Seq<char>,
) -> Seq<char> {
    "UPDATE "@ + table + " SET "@ + (if touch {
        timestamped_assignments(columns)
    } else {
        joined_assignments(columns)
    }) + " WHERE "@ + condition
}

pub open spec fn str_views(v: Seq<&str>) -> Seq<Seq<char>> {
    v.map_values(|s: &str| s@)
}

/// Builds an `UPDATE` statement with one `?` placeholder per column, in order.
pub fn build_update_sql(table: &str, touch: bool, columns: &Vec<&str>, condition: &str) -> (sql: String)
    ensures
        sql@ == update_sql_spec(table@, touch, str_views(columns@), condition@),
{
    let ghost cols = str_views(columns@);
    let mut sql = "UPDATE ".to_owned();
    push_str(&mut sql, table);
    push_str(&mut sql, " SET ");
    let ghost head = sql@;
    if touch {
        push_str(&mut sql, "updated_at = CURRENT_TIMESTAMP");
    }
    let mut i: usize = 0;
    proof { assert(cols.take(0) =~= Seq::<Seq<char>>::empty()); }
    while i < columns.len()
        invariant
            i <= columns.len(),
            cols == str_views(columns@),
            sql@ == head + (if touch {
                timestamped_assignments(cols.take(i as int))
            } else {
                joined_assignments(cols.take(i as int))
            }),
        decreases columns.len() - i,
    {
        let ghost before = sql@;
        if touch || i > 0 {
            push_str(&mut sql, ", ");
        }
        push_str(&mut sql, columns[i]);
        push_str(&mut sql, " = ?");
        proof {
            let t = cols.take(i + 1);
            assert(t.drop_last() =~= cols.take(i as int));
            assert(t.last() == columns@[i as int]@);
            if !touch && i == 0 {
                assert(t =~= seq![columns@[0]@]);
                assert(sql@ =~= head + joined_assignments(t));
            } else {
                assert(sql@ =~= before + ", "@ + assignment(t.last()));
            }
        }
        i = i + 1;
    }
    proof { assert(cols.take(columns.len() as int) =~= cols); }
    push_str(&mut sql, " WHERE ");
    push_str(&mut sql, condition);
    sql
}

/// Rejected update: nothing would change.
#[derive(Clone, Copy, Debug, PartialEq, Eq, Structural)]
pub enum UpdateError {
    NoFieldsToUpdate,
}

impl UpdateError {
    /// The message the server reports.
    pub fn message(&self) -> (s: String)
        ensures
            s@ == "No fields to update"@,
    {
        "No fields to update".to_owned()
    }
}

/// Renders a flag the way the settings table stores it: `1` or `0`.
pub fn sql_flag(b: bool) -> (s: String)
    ensures
        s@ == (if b { "1"@ } else { "0"@ }),
{
    if b {
        "1".to_owned()
    } else {
        "0".to_owned()
    }
}

} // verus!

verus! {

/// An UPDATE statement and the columns whose values bind to its placeholders,
/// in placeholder order (the row id, where the condition has a `?`, binds last).
pub struct UpdatePlan<C> {
    pub sql: String,
    pub columns: Vec<C>,
}

/// `[c]` when `present`, else nothing.
#[verifier::opaque]
pub open spec fn opt_col<C>(present: bool, c: C) -> Seq<C> {
    if present {
        seq![c]
    } else {
        seq![]
    }
}

fn push_if<C>(v: &mut Vec<C>, present: bool, c: C)
    ensures
        final(v)@ == old(v)@ + opt_col(present, c),
{
    proof { reveal(opt_col); }
    if present {
        v.push(c);
    }
    proof { assert(v@ =~= old(v)@ + opt_col(present, c)); }
}

/// A column that an update statement can set.
pub trait SqlColumn: Sized {
    /// The column's name in the table.
    spec fn sql_name(self) -> Seq<char>;

    fn column_name(&self) -> (s: &'static str)
        ensures
            s@ == self.sql_name(),
    ;
}

pub open spec fn column_names_spec<C: SqlColumn>(cols: Seq<C>) -> Seq<Seq<char>> {
    cols.map_values(|c: C| c.sql_name())
}

fn column_names<C: SqlColumn>(cols: &Vec<C>) -> (names: Vec<&'static str>)
    ensures
        str_views(names@) == column_names_spec(cols@),
{
    let mut names: Vec<&str> = Vec::new();
    let mut i: usize = 0;
    while i < cols.len()
        invariant
            i <= cols.len(),
            str_views(names@) == column_names_spec(cols@.take(i as int)),
        decreases cols.len() - i,
    {
        let n = cols[i].column_name();
        let ghost before = names@;
        names.push(n);
        proof {
            assert(str_views(names@) =~= str_views(before).push(n@));
            assert(column_names_spec(cols@.take(i + 1)) =~= column_names_spec(cols@.take(i as int)).push(
                cols@[i as int].sql_name()));
        }
        i = i + 1;
    }
    proof { assert(cols@.take(cols.len() as int) =~= cols@); }
    names
}

fn plan_for<C: SqlColumn>(table: &str, touch: bool, cols: Vec<C>, condition: &str) -> (p: UpdatePlan<C>)
    ensures
        p.columns@ == cols@,
        p.sql@ == update_sql_spec(table@, touch, column_names_spec(cols@), condition@),
{
    let names = column_names(&cols);
    let sql = build_update_sql(table, touch, &names, condition);
    UpdatePlan { sql, columns: cols }
}

// ----- topologies ------------------------------------------------------------

#[derive(Clone, Copy, Debug, PartialEq, Eq, Structural)]
pub enum TopologyColumn {
    Name,
    Description,
}

impl SqlColumn for TopologyColumn {
    open spec fn sql_name(self) -> Seq<char> {
        match self {
            TopologyColumn::Name => "name"@,
            TopologyColumn::Description => "description"@,
        }
    }

    fn column_name(&self) -> (s: &'static str) {
        match self {
            TopologyColumn::Name => "name",
            TopologyColumn::Description => "description",
        }
    }
}

/// The columns a topology update sets: name, then description, each when given.
pub open spec fn topology_update_columns(has_name: bool, has_description: bool) -> Seq<TopologyColumn> {
    opt_col(has_name, TopologyColumn::Name) + opt_col(has_description, TopologyColumn::Description)
}

/// The statement that updates a topology: it always refreshes `updated_at`, sets
/// the given fields and selects the row by `id = ?`.
pub fn topology_update_plan(has_name: bool, has_description: bool) -> (p: UpdatePlan<TopologyColumn>)
    ensures
        p.columns@ == topology_update_columns(has_name, has_description),
        p.sql@ == update_sql_spec("topologies"@, true, column_names_spec(p.columns@), "id = ?"@),
{
    let mut cols: Vec<TopologyColumn> = Vec::new();
    push_if(&mut cols, has_name, TopologyColumn::Name);
    push_if(&mut cols, has_description, TopologyColumn::Description);
    proof { assert(cols@ =~= topology_update_columns(has_name, has_description)); }
    plan_for("topologies", true, cols, "id = ?")
}

} // verus!

verus! {

// ----- nodes -----------------------------------------------------------------

#[derive(Clone, Copy, Debug, PartialEq, Eq, Structural)]
pub enum NodeColumn {
    Name,
    NodeType,
    Vendor,
    ModelName,
    IpAddress,
    PositionX,
    PositionY,
    PositionZ,
    RotationX,
    RotationY,
    RotationZ,
    Scale,
    Color,
    Metadata,
}

impl SqlColumn for NodeColumn {
    open spec fn sql_name(self) -> Seq<char> {
        match self {
            NodeColumn::Name => "name"@,
            NodeColumn::NodeType => "node_type"@,
            NodeColumn::Vendor => "vendor"@,
            NodeColumn::ModelName => "model_name"@,
            NodeColumn::IpAddress => "ip_address"@,
            NodeColumn::PositionX => "position_x"@,
            NodeColumn::PositionY => "position_y"@,
            NodeColumn::PositionZ => "position_z"@,
            NodeColumn::RotationX => "rotation_x"@,
            NodeColumn::RotationY => "rotation_y"@,
            NodeColumn::RotationZ => "rotation_z"@,
            NodeColumn::Scale => "scale"@,
            NodeColumn::Color => "color"@,
            NodeColumn::Metadata => "metadata"@,
        }
    }

    fn column_name(&self) -> (s: &'static str) {
        match self {
            NodeColumn::Name => "name",
            NodeColumn::NodeType => "node_type",
            NodeColumn::Vendor => "vendor",
            NodeColumn::ModelName => "model_name",
            NodeColumn::IpAddress => "ip_address",
            NodeColumn::PositionX => "position_x",
            NodeColumn::PositionY => "position_y",
            NodeColumn::PositionZ => "position_z",
            NodeColumn::RotationX => "rotation_x",
            NodeColumn::RotationY => "rotation_y",
            NodeColumn::RotationZ => "rotation_z",
            NodeColumn::Scale => "scale",
            NodeColumn::Color => "color",
            NodeColumn::Metadata => "metadata",
        }
    }
}

/// Which fields a node update provides (`true` for each field given).
#[derive(Clone, Copy, Debug, PartialEq, Eq, Structural)]
pub struct NodeChanges {
    pub name: bool,
    pub node_type: bool,
    pub vendor: bool,
    pub model_name: bool,
    pub ip_address: bool,
    pub position_x: bool,
    pub position_y: bool,
    pub position_z: bool,
    pub rotation_x: bool,
    pub rotation_y: bool,
    pub rotation_z: bool,
    pub scale: bool,
    pub color: bool,
    pub metadata: bool,
}

/// Every provided node field, in table order.
pub open spec fn node_update_columns(c: NodeChanges) -> Seq<NodeColumn> {
    opt_col(c.name, NodeColumn::Name) + opt_col(c.node_type, NodeColumn::NodeType) + opt_col(
        c.vendor,
        NodeColumn::Vendor,
    ) + opt_col(c.model_name, NodeColumn::ModelName) + opt_col(c.ip_address, NodeColumn::IpAddress)
        + opt_col(c.position_x, NodeColumn::PositionX) + opt_col(c.position_y, NodeColumn::PositionY)
        + opt_col(c.position_z, NodeColumn::PositionZ) + opt_col(c.rotation_x, NodeColumn::RotationX)
        + opt_col(c.rotation_y, NodeColumn::RotationY) + opt_col(c.rotation_z, NodeColumn::RotationZ)
        + opt_col(c.scale, NodeColumn::Scale) + opt_col(c.color, NodeColumn::Color) + opt_col(
        c.metadata,
        NodeColumn::Metadata,
    )
}

/// A node update is refused unless it gives a name, a type, a vendor, a model,
/// a position coordinate, an IP address or metadata; rotation, scale and
/// colour alone do not count.
pub open spec fn node_update_accepted(c: NodeChanges) -> bool {
    c.name || c.node_type || c.vendor || c.model_name || c.position_x || c.position_y
        || c.position_z || c.ip_address || c.metadata
}

/// The statement that updates a node: refreshes `updated_at`, sets every
/// provided field and selects the row by `id = ?`.
pub fn node_update_plan(c: NodeChanges) -> (r: Result<UpdatePlan<NodeColumn>, UpdateError>)
    ensures
        r is Err <==> !node_update_accepted(c),
        r matches Ok(p) ==> p.columns@ == node_update_columns(c) && p.sql@ == update_sql_spec(
            "nodes"@,
            true,
            column_names_spec(p.columns@),
            "id = ?"@,
        ),
{
    if !(c.name || c.node_type || c.vendor || c.model_name || c.position_x || c.position_y
        || c.position_z || c.ip_address || c.metadata) {
        return Err(UpdateError::NoFieldsToUpdate);
    }
    let cols = node_columns(c);
    Ok(plan_for("nodes", true, cols, "id = ?"))
}

fn node_columns(c: NodeChanges) -> (cols: Vec<NodeColumn>)
    ensures
        cols@ == node_update_columns(c),
{
    let mut cols: Vec<NodeColumn> = Vec::new();
    push_if(&mut cols, c.name, NodeColumn::Name);
    push_if(&mut cols, c.node_type, NodeColumn::NodeType);
    push_if(&mut cols, c.vendor, NodeColumn::Vendor);
    push_if(&mut cols, c.model_name, NodeColumn::ModelName);
    push_if(&mut cols, c.ip_address, NodeColumn::IpAddress);
    push_if(&mut cols, c.position_x, NodeColumn::PositionX);
    push_if(&mut cols, c.position_y, NodeColumn::PositionY);
    push_if(&mut cols, c.position_z, NodeColumn::PositionZ);
    push_if(&mut cols, c.rotation_x, NodeColumn::RotationX);
    push_if(&mut cols, c.rotation_y, NodeColumn::RotationY);
    push_if(&mut cols, c.rotation_z, NodeColumn::RotationZ);
    push_if(&mut cols, c.scale, NodeColumn::Scale);
    push_if(&mut cols, c.color, NodeColumn::Color);
    push_if(&mut cols, c.metadata, NodeColumn::Metadata);
    proof { assert(cols@ =~= node_update_columns(c)); }
    cols
}

/// The node fields the basic node endpoint can set, in its order.
pub open spec fn basic_node_update_columns(c: NodeChanges) -> Seq<NodeColumn> {
    opt_col(c.name, NodeColumn::Name) + opt_col(c.node_type, NodeColumn::NodeType) + opt_col(
        c.ip_address,
        NodeColumn::IpAddress,
    ) + opt_col(c.position_x, NodeColumn::PositionX) + opt_col(c.position_y, NodeColumn::PositionY)
        + opt_col(c.position_z, NodeColumn::PositionZ) + opt_col(c.metadata, NodeColumn::Metadata)
}

/// The statement of the basic node endpoint: sets name, type, IP address,
/// position and metadata when given (nothing else), refused when none is given.
pub fn basic_node_update_plan(c: NodeChanges) -> (r: Result<UpdatePlan<NodeColumn>, UpdateError>)
    ensures
        r is Err <==> basic_node_update_columns(c).len() == 0,
        r matches Ok(p) ==> p.columns@ == basic_node_update_columns(c) && p.sql@ == update_sql_spec(
            "nodes"@,
            false,
            column_names_spec(p.columns@),
            "id = ?"@,
        ),
{
    let mut cols: Vec<NodeColumn> = Vec::new();
    push_if(&mut cols, c.name, NodeColumn::Name);
    push_if(&mut cols, c.node_type, NodeColumn::NodeType);
    push_if(&mut cols, c.ip_address, NodeColumn::IpAddress);
    push_if(&mut cols, c.position_x, NodeColumn::PositionX);
    push_if(&mut cols, c.position_y, NodeColumn::PositionY);
    push_if(&mut cols, c.position_z, NodeColumn::PositionZ);
    push_if(&mut cols, c.metadata, NodeColumn::Metadata);
    proof { assert(cols@ =~= basic_node_update_columns(c)); }
    if cols.len() == 0 {
        return Err(UpdateError::NoFieldsToUpdate);
    }
    Ok(plan_for("nodes", false, cols, "id = ?"))
}

// ----- connections -------------------------------------------------------------

#[derive(Clone, Copy, Debug, PartialEq, Eq, Structural)]
pub enum ConnectionColumn {
    ConnectionType,
    BandwidthMbps,
    LatencyMs,
    Status,
    Color,
    Metadata,
}

impl SqlColumn for ConnectionColumn {
    open spec fn sql_name(self) -> Seq<char> {
        match self {
            ConnectionColumn::ConnectionType => "connection_type"@,
            ConnectionColumn::BandwidthMbps => "bandwidth_mbps"@,
            ConnectionColumn::LatencyMs => "latency_ms"@,
            ConnectionColumn::Status => "status"@,
            ConnectionColumn::Color => "color"@,
            ConnectionColumn::Metadata => "metadata"@,
        }
    }

    fn column_name(&self) -> (s: &'static str) {
        match self {
            ConnectionColumn::ConnectionType => "connection_type",
            ConnectionColumn::BandwidthMbps => "bandwidth_mbps",
            ConnectionColumn::LatencyMs => "latency_ms",
            ConnectionColumn::Status => "status",
            ConnectionColumn::Color => "color",
            ConnectionColumn::Metadata => "metadata",
        }
    }
}

/// Which fields a connection update provides.
#[derive(Clone, Copy, Debug, PartialEq, Eq, Structural)]
pub struct ConnectionChanges {
    pub connection_type: bool,
    pub bandwidth_mbps: bool,
    pub latency_ms: bool,
    pub status: bool,
    pub color: bool,
    pub metadata: bool,
}

pub open spec fn connection_update_columns(c: ConnectionChanges) -> Seq<ConnectionColumn> {
    opt_col(c.connection_type, ConnectionColumn::ConnectionType) + opt_col(
        c.bandwidth_mbps,
        ConnectionColumn::BandwidthMbps,
    ) + opt_col(c.latency_ms, ConnectionColumn::LatencyMs) + opt_col(c.status, ConnectionColumn::Status)
        + opt_col(c.color, ConnectionColumn::Color) + opt_col(c.metadata, ConnectionColumn::Metadata)
}

/// The statement that updates a connection: refreshes `updated_at` and sets every
/// provided field (an update without fields only refreshes the timestamp).
pub fn connection_update_plan(c: ConnectionChanges) -> (p: UpdatePlan<ConnectionColumn>)
    ensures
        p.columns@ == connection_update_columns(c),
        p.sql@ == update_sql_spec("connections"@, true, column_names_spec(p.columns@), "id = ?"@),
{
    let mut cols: Vec<ConnectionColumn> = Vec::new();
    push_if(&mut cols, c.connection_type, ConnectionColumn::ConnectionType);
    push_if(&mut cols, c.bandwidth_mbps, ConnectionColumn::BandwidthMbps);
    push_if(&mut cols, c.latency_ms, ConnectionColumn::LatencyMs);
    push_if(&mut cols, c.status, ConnectionColumn::Status);
    push_if(&mut cols, c.color, ConnectionColumn::Color);
    push_if(&mut cols, c.metadata, ConnectionColumn::Metadata);
    proof { assert(cols@ =~= connection_update_columns(c)); }
    plan_for("connections", true, cols, "id = ?")
}

pub open spec fn basic_connection_update_columns(c: ConnectionChanges) -> Seq<ConnectionColumn> {
    opt_col(c.connection_type, ConnectionColumn::ConnectionType) + opt_col(
        c.bandwidth_mbps,
        ConnectionColumn::BandwidthMbps,
    ) + opt_col(c.latency_ms, ConnectionColumn::LatencyMs) + opt_col(c.status, ConnectionColumn::Status)
        + opt_col(c.metadata, ConnectionColumn::Metadata)
}

/// The statement of the basic connection endpoint: sets type, bandwidth,
/// latency, status and metadata when given, refused when none is given.
pub fn basic_connection_update_plan(c: ConnectionChanges) -> (r: Result<UpdatePlan<ConnectionColumn>, UpdateError>)
    ensures
        r is Err <==> basic_connection_update_columns(c).len() == 0,
        r matches Ok(p) ==> p.columns@ == basic_connection_update_columns(c) && p.sql@
            == update_sql_spec("connections"@, false, column_names_spec(p.columns@), "id = ?"@),
{
    let mut cols: Vec<ConnectionColumn> = Vec::new();
    push_if(&mut cols, c.connection_type, ConnectionColumn::ConnectionType);
    push_if(&mut cols, c.bandwidth_mbps, ConnectionColumn::BandwidthMbps);
    push_if(&mut cols, c.latency_ms, ConnectionColumn::LatencyMs);
    push_if(&mut cols, c.status, ConnectionColumn::Status);
    push_if(&mut cols, c.metadata, ConnectionColumn::Metadata);
    proof { assert(cols@ =~= basic_connection_update_columns(c)); }
    if cols.len() == 0 {
        return Err(UpdateError::NoFieldsToUpdate);
    }
    Ok(plan_for("connections", false, cols, "id = ?"))
}

// ----- view settings -----------------------------------------------------------

#[derive(Clone, Copy, Debug, PartialEq, Eq, Structural)]
pub enum SettingsColumn {
    ShowGrid,
    ShowXAxis,
    ShowYAxis,
    ShowZAxis,
    AmbientIntensity,
    KeyLightIntensity,
    FillLightIntensity,
    RimLightIntensity,
    UseEnvironmentLighting,
    EnvironmentMap,
}

impl SqlColumn for SettingsColumn {
    open spec fn sql_name(self) -> Seq<char> {
        match self {
            SettingsColumn::ShowGrid => "show_grid"@,
            SettingsColumn::ShowXAxis => "show_x_axis"@,
            SettingsColumn::ShowYAxis => "show_y_axis"@,
            SettingsColumn::ShowZAxis => "show_z_axis"@,
            SettingsColumn::AmbientIntensity => "ambient_intensity"@,
            SettingsColumn::KeyLightIntensity => "key_light_intensity"@,
            SettingsColumn::FillLightIntensity => "fill_light_intensity"@,
            SettingsColumn::RimLightIntensity => "rim_light_intensity"@,
            SettingsColumn::UseEnvironmentLighting => "use_environment_lighting"@,
            SettingsColumn::EnvironmentMap => "environment_map"@,
        }
    }

    fn column_name(&self) -> (s: &'static str) {
        match self {
            SettingsColumn::ShowGrid => "show_grid",
            SettingsColumn::ShowXAxis => "show_x_axis",
            SettingsColumn::ShowYAxis => "show_y_axis",
            SettingsColumn::ShowZAxis => "show_z_axis",
            SettingsColumn::AmbientIntensity => "ambient_intensity",
            SettingsColumn::KeyLightIntensity => "key_light_intensity",
            SettingsColumn::FillLightIntensity => "fill_light_intensity",
            SettingsColumn::RimLightIntensity => "rim_light_intensity",
            SettingsColumn::UseEnvironmentLighting => "use_environment_lighting",
            SettingsColumn::EnvironmentMap => "environment_map",
        }
    }
}

/// Which view settings an update provides.
#[derive(Clone, Copy, Debug, PartialEq, Eq, Structural)]
pub struct SettingsChanges {
    pub show_grid: bool,
    pub show_x_axis: bool,
    pub show_y_axis: bool,
    pub show_z_axis: bool,
    pub ambient_intensity: bool,
    pub key_light_intensity: bool,
    pub fill_light_intensity: bool,
    pub rim_light_intensity: bool,
    pub use_environment_lighting: bool,
    pub environment_map: bool,
}

pub open spec fn settings_update_columns(c: SettingsChanges) -> Seq<SettingsColumn> {
    opt_col(c.show_grid, SettingsColumn::ShowGrid) + opt_col(c.show_x_axis, SettingsColumn::ShowXAxis)
        + opt_col(c.show_y_axis, SettingsColumn::ShowYAxis) + opt_col(
        c.show_z_axis,
        SettingsColumn::ShowZAxis,
    ) + opt_col(c.ambient_intensity, SettingsColumn::AmbientIntensity) + opt_col(
        c.key_light_intensity,
        SettingsColumn::KeyLightIntensity,
    ) + opt_col(c.fill_light_intensity, SettingsColumn::FillLightIntensity) + opt_col(
        c.rim_light_intensity,
        SettingsColumn::RimLightIntensity,
    ) + opt_col(c.use_environment_lighting, SettingsColumn::UseEnvironmentLighting) + opt_col(
        c.environment_map,
        SettingsColumn::EnvironmentMap,
    )
}

/// The statement that updates the single settings row (`id = 1`): sets every
/// provided setting, refused when none is given.
pub fn settings_update_plan(c: SettingsChanges) -> (r: Result<UpdatePlan<SettingsColumn>, UpdateError>)
    ensures
        r is Err <==> settings_update_columns(c).len() == 0,
        r matches Ok(p) ==> p.columns@ == settings_update_columns(c) && p.sql@ == update_sql_spec(
            "ui_settings"@,
            false,
            column_names_spec(p.columns@),
            "id = 1"@,
        ),
{
    let mut cols: Vec<SettingsColumn> = Vec::new();
    push_if(&mut cols, c.show_grid, SettingsColumn::ShowGrid);
    push_if(&mut cols, c.show_x_axis, SettingsColumn::ShowXAxis);
    push_if(&mut cols, c.show_y_axis, SettingsColumn::ShowYAxis);
    push_if(&mut cols, c.show_z_axis, SettingsColumn::ShowZAxis);
    push_if(&mut cols, c.ambient_intensity, SettingsColumn::AmbientIntensity);
    push_if(&mut cols, c.key_light_intensity, SettingsColumn::KeyLightIntensity);
    push_if(&mut cols, c.fill_light_intensity, SettingsColumn::FillLightIntensity);
    push_if(&mut cols, c.rim_light_intensity, SettingsColumn::RimLightIntensity);
    push_if(&mut cols, c.use_environment_lighting, SettingsColumn::UseEnvironmentLighting);
    push_if(&mut cols, c.environment_map, SettingsColumn::EnvironmentMap);
    proof { assert(cols@ =~= settings_update_columns(c)); }
    if cols.len() == 0 {
        return Err(UpdateError::NoFieldsToUpdate);
    }
    Ok(plan_for("ui_settings", false, cols, "id = 1"))
}

} // verus!

verus! {

// ----- what the properties panel saves -------------------------------------------

/// The fields the node properties form saves: all of them except metadata, and
/// the IP address only when it is not empty.
pub fn node_form_changes(ip_address: &str) -> (c: NodeChanges)
    ensures
        c == (NodeChanges {
            name: true,
            node_type: true,
            vendor: true,
            model_name: true,
            ip_address: ip_address@.len() > 0,
            position_x: true,
            position_y: true,
            position_z: true,
            rotation_x: true,
            rotation_y: true,
            rotation_z: true,
            scale: true,
            color: true,
            metadata: false,
        }),
        node_update_accepted(c),
        forall|col: NodeColumn| #[trigger] node_update_columns(c).contains(col) <==> (col != NodeColumn::Metadata
            && (col == NodeColumn::IpAddress ==> ip_address@.len() > 0)),
{
    let c = NodeChanges {
        name: true,
        node_type: true,
        vendor: true,
        model_name: true,
        ip_address: !ip_address.is_empty(),
        position_x: true,
        position_y: true,
        position_z: true,
        rotation_x: true,
        rotation_y: true,
        rotation_z: true,
        scale: true,
        color: true,
        metadata: false,
    };
    proof {
        assert forall|col: NodeColumn| #[trigger] node_update_columns(c).contains(col) <==> (col
            != NodeColumn::Metadata && (col == NodeColumn::IpAddress ==> ip_address@.len() > 0)) by {
            lemma_node_columns_contain(c, col);
        }
    }
    c
}

/// The fields the connection properties form saves: type, status and colour,
/// the bandwidth only when positive and the latency only when positive.
pub fn connection_form_changes(bandwidth_mbps: i64, latency_positive: bool) -> (c: ConnectionChanges)
    ensures
        c == (ConnectionChanges {
            connection_type: true,
            bandwidth_mbps: bandwidth_mbps > 0,
            latency_ms: latency_positive,
            status: true,
            color: true,
            metadata: false,
        }),
        forall|col: ConnectionColumn| #[trigger] connection_update_columns(c).contains(col) <==> match col {
            ConnectionColumn::BandwidthMbps => bandwidth_mbps > 0,
            ConnectionColumn::LatencyMs => latency_positive,
            ConnectionColumn::Metadata => false,
            _ => true,
        },
{
    let c = ConnectionChanges {
        connection_type: true,
        bandwidth_mbps: bandwidth_mbps > 0,
        latency_ms: latency_positive,
        status: true,
        color: true,
        metadata: false,
    };
    proof {
        assert forall|col: ConnectionColumn| #[trigger] connection_update_columns(c).contains(col) <==> match col {
            ConnectionColumn::BandwidthMbps => bandwidth_mbps > 0,
            ConnectionColumn::LatencyMs => latency_positive,
            ConnectionColumn::Metadata => false,
            _ => true,
        } by {
            law_connection_update_sets_given_fields(c, col);
        }
    }
    c
}

/// The settings saved when the grid, axes or environment controls change.
pub fn visibility_settings_changes() -> (c: SettingsChanges)
    ensures
        settings_update_columns(c) == seq![
            SettingsColumn::ShowGrid,
            SettingsColumn::ShowXAxis,
            SettingsColumn::ShowYAxis,
            SettingsColumn::ShowZAxis,
            SettingsColumn::UseEnvironmentLighting,
            SettingsColumn::EnvironmentMap,
        ],
{
    let c = SettingsChanges {
        show_grid: true,
        show_x_axis: true,
        show_y_axis: true,
        show_z_axis: true,
        ambient_intensity: false,
        key_light_intensity: false,
        fill_light_intensity: false,
        rim_light_intensity: false,
        use_environment_lighting: true,
        environment_map: true,
    };
    proof {
        reveal(opt_col);
        assert(settings_update_columns(c) =~= seq![
            SettingsColumn::ShowGrid,
            SettingsColumn::ShowXAxis,
            SettingsColumn::ShowYAxis,
            SettingsColumn::ShowZAxis,
            SettingsColumn::UseEnvironmentLighting,
            SettingsColumn::EnvironmentMap,
        ]);
    }
    c
}

/// The settings saved when a light intensity changes.
pub fn lighting_settings_changes() -> (c: SettingsChanges)
    ensures
        settings_update_columns(c) == seq![
            SettingsColumn::AmbientIntensity,
            SettingsColumn::KeyLightIntensity,
            SettingsColumn::FillLightIntensity,
            SettingsColumn::RimLightIntensity,
        ],
{
    let c = SettingsChanges {
        show_grid: false,
        show_x_axis: false,
        show_y_axis: false,
        show_z_axis: false,
        ambient_intensity: true,
        key_light_intensity: true,
        fill_light_intensity: true,
        rim_light_intensity: true,
        use_environment_lighting: false,
        environment_map: false,
    };
    proof {
        reveal(opt_col);
        assert(settings_update_columns(c) =~= seq![
            SettingsColumn::AmbientIntensity,
            SettingsColumn::KeyLightIntensity,
            SettingsColumn::FillLightIntensity,
            SettingsColumn::RimLightIntensity,
        ]);
    }
    c
}

} // verus!

verus! {

// ----- every column binds to exactly one placeholder ---------------------------

/// Number of `?` placeholders in a statement.
pub open spec fn placeholders(s: Seq<char>) -> nat
    decreases s.len(),
{
    if s.len() == 0 {
        0
    } else {
        placeholders(s.drop_last()) + if s.last() == '?' {
            1nat
        } else {
            0nat
        }
    }
}

pub open spec fn no_placeholder(s: Seq<char>) -> bool {
    forall|i: int| 0 <= i < s.len() ==> #[trigger] s[i] != '?'
}

proof fn lemma_placeholders_concat(a: Seq<char>, b: Seq<char>)
    ensures
        placeholders(a + b) == placeholders(a) + placeholders(b),
    decreases b.len(),
{
    if b.len() == 0 {
        assert(a + b =~= a);
    } else {
        lemma_placeholders_concat(a, b.drop_last());
        assert((a + b).drop_last() =~= a + b.drop_last());
        assert((a + b).last() == b.last());
    }
}

proof fn lemma_no_placeholder(s: Seq<char>)
    requires
        no_placeholder(s),
    ensures
        placeholders(s) == 0,
    decreases s.len(),
{
    if s.len() > 0 {
        assert(s.last() == s[s.len() - 1]);
        lemma_no_placeholder(s.drop_last());
    }
}

proof fn lemma_one_placeholder_literal()
    ensures
        placeholders(" = ?"@) == 1,
        placeholders(", "@) == 0,
        placeholders("UPDATE "@) == 0,
        placeholders(" SET "@) == 0,
        placeholders(" WHERE "@) == 0,
        placeholders("updated_at = CURRENT_TIMESTAMP"@) == 0,
{
    reveal_strlit(" = ?");
    reveal_strlit(", ");
    reveal_strlit("UPDATE ");
    reveal_strlit(" SET ");
    reveal_strlit(" WHERE ");
    reveal_strlit("updated_at = CURRENT_TIMESTAMP");
    let q = " = ?"@;
    assert(q.drop_last() =~= seq![' ', '=', ' ']);
    lemma_no_placeholder(seq![' ', '=', ' ']);
    lemma_no_placeholder(", "@);
    lemma_no_placeholder("UPDATE "@);
    lemma_no_placeholder(" SET "@);
    lemma_no_placeholder(" WHERE "@);
    lemma_no_placeholder("updated_at = CURRENT_TIMESTAMP"@);
}

proof fn lemma_assignment_placeholders(columns: Seq<Seq<char>>, touch: bool)
    requires
        forall|k: int| 0 <= k < columns.len() ==> no_placeholder(#[trigger] columns[k]),
    ensures
        placeholders(
            if touch {
                timestamped_assignments(columns)
            } else {
                joined_assignments(columns)
            },
        ) == columns.len(),
    decreases columns.len(),
{
    lemma_one_placeholder_literal();
    if columns.len() > 0 {
        let prev = columns.drop_last();
        assert forall|k: int| 0 <= k < prev.len() implies no_placeholder(#[trigger] prev[k]) by {
            assert(prev[k] == columns[k]);
        }
        lemma_assignment_placeholders(prev, touch);
        let last = columns.last();
        assert(no_placeholder(columns[columns.len() - 1]));
        lemma_no_placeholder(last);
        lemma_placeholders_concat(last, " = ?"@);
        if !touch && columns.len() == 1 {
            assert(joined_assignments(columns) == assignment(columns[0]));
        } else {
            let body = if touch {
                timestamped_assignments(prev)
            } else {
                joined_assignments(prev)
            };
            lemma_placeholders_concat(body, ", "@);
            lemma_placeholders_concat(body + ", "@, assignment(last));
        }
    }
}

/// Law: an update statement has exactly one `?` per column, in column order,
/// plus those of its condition; so binding the values of its columns and then
/// the condition's values fills every placeholder.
pub proof fn law_one_placeholder_per_column(
    table: Seq<char>,
    touch: bool,
    columns: Seq<Seq<char>>,
    condition: Seq<char>,
)
    requires
        no_placeholder(table),
        forall|k: int| 0 <= k < columns.len() ==> no_placeholder(#[trigger] columns[k]),
    ensures
        placeholders(update_sql_spec(table, touch, columns, condition)) == columns.len()
            + placeholders(condition),
{
    lemma_one_placeholder_literal();
    lemma_assignment_placeholders(columns, touch);
    lemma_no_placeholder(table);
    let body = if touch {
        timestamped_assignments(columns)
    } else {
        joined_assignments(columns)
    };
    lemma_placeholders_concat("UPDATE "@, table);
    lemma_placeholders_concat("UPDATE "@ + table, " SET "@);
    lemma_placeholders_concat("UPDATE "@ + table + " SET "@, body);
    lemma_placeholders_concat("UPDATE "@ + table + " SET "@ + body, " WHERE "@);
    lemma_placeholders_concat("UPDATE "@ + table + " SET "@ + body + " WHERE "@, condition);
}

} // verus!

verus! {

// ----- the plans of this module bind each provided field once ------------------

proof fn lemma_node_column_clean(c: NodeColumn)
    ensures
        no_placeholder(c.sql_name()),
{
    reveal_strlit("name");
    reveal_strlit("node_type");
    reveal_strlit("vendor");
    reveal_strlit("model_name");
    reveal_strlit("ip_address");
    reveal_strlit("position_x");
    reveal_strlit("position_y");
    reveal_strlit("position_z");
    reveal_strlit("rotation_x");
    reveal_strlit("rotation_y");
    reveal_strlit("rotation_z");
    reveal_strlit("scale");
    reveal_strlit("color");
    reveal_strlit("metadata");
}

proof fn lemma_connection_column_clean(c: ConnectionColumn)
    ensures
        no_placeholder(c.sql_name()),
{
    reveal_strlit("connection_type");
    reveal_strlit("bandwidth_mbps");
    reveal_strlit("latency_ms");
    reveal_strlit("status");
    reveal_strlit("color");
    reveal_strlit("metadata");
}

proof fn lemma_settings_column_clean(c: SettingsColumn)
    ensures
        no_placeholder(c.sql_name()),
{
    reveal_strlit("show_grid");
    reveal_strlit("show_x_axis");
    reveal_strlit("show_y_axis");
    reveal_strlit("show_z_axis");
    reveal_strlit("ambient_intensity");
    reveal_strlit("key_light_intensity");
    reveal_strlit("fill_light_intensity");
    reveal_strlit("rim_light_intensity");
    reveal_strlit("use_environment_lighting");
    reveal_strlit("environment_map");
}

proof fn lemma_topology_column_clean(c: TopologyColumn)
    ensures
        no_placeholder(c.sql_name()),
{
    reveal_strlit("name");
    reveal_strlit("description");
}

proof fn lemma_fixed_texts()
    ensures
        no_placeholder("nodes"@),
        no_placeholder("connections"@),
        no_placeholder("ui_settings"@),
        no_placeholder("topologies"@),
        placeholders("id = ?"@) == 1,
        placeholders("id = 1"@) == 0,
{
    reveal_strlit("nodes");
    reveal_strlit("connections");
    reveal_strlit("ui_settings");
    reveal_strlit("topologies");
    reveal_strlit("id = ?");
    reveal_strlit("id = 1");
    assert("id = ?"@.drop_last() =~= seq!['i', 'd', ' ', '=', ' ']);
    lemma_no_placeholder(seq!['i', 'd', ' ', '=', ' ']);
    lemma_no_placeholder("id = 1"@);
}

/// Law: the statements planned for nodes, connections, topologies and view
/// settings hold one placeholder per planned column, plus one for the row id
/// where the row is chosen by `id = ?`, so every provided field is bound once.
pub proof fn law_plans_bind_each_field_once(
    n: NodeChanges,
    c: ConnectionChanges,
    s: SettingsChanges,
    has_name: bool,
    has_description: bool,
)
    ensures
        placeholders(update_sql_spec("nodes"@, true, column_names_spec(node_update_columns(n)), "id = ?"@))
            == node_update_columns(n).len() + 1,
        placeholders(update_sql_spec("nodes"@, false, column_names_spec(basic_node_update_columns(n)), "id = ?"@))
            == basic_node_update_columns(n).len() + 1,
        placeholders(update_sql_spec("connections"@, true, column_names_spec(connection_update_columns(c)), "id = ?"@))
            == connection_update_columns(c).len() + 1,
        placeholders(update_sql_spec("connections"@, false, column_names_spec(basic_connection_update_columns(c)), "id = ?"@))
            == basic_connection_update_columns(c).len() + 1,
        placeholders(update_sql_spec("ui_settings"@, false, column_names_spec(settings_update_columns(s)), "id = 1"@))
            == settings_update_columns(s).len(),
        placeholders(update_sql_spec("topologies"@, true, column_names_spec(topology_update_columns(has_name, has_description)), "id = ?"@))
            == topology_update_columns(has_name, has_description).len() + 1,
{
    lemma_fixed_texts();
    let nc = node_update_columns(n);
    assert forall|k: int| 0 <= k < nc.len() implies no_placeholder(#[trigger] column_names_spec(nc)[k]) by {
        lemma_node_column_clean(nc[k]);
    }
    law_one_placeholder_per_column("nodes"@, true, column_names_spec(nc), "id = ?"@);
    let bn = basic_node_update_columns(n);
    assert forall|k: int| 0 <= k < bn.len() implies no_placeholder(#[trigger] column_names_spec(bn)[k]) by {
        lemma_node_column_clean(bn[k]);
    }
    law_one_placeholder_per_column("nodes"@, false, column_names_spec(bn), "id = ?"@);
    let cc = connection_update_columns(c);
    assert forall|k: int| 0 <= k < cc.len() implies no_placeholder(#[trigger] column_names_spec(cc)[k]) by {
        lemma_connection_column_clean(cc[k]);
    }
    law_one_placeholder_per_column("connections"@, true, column_names_spec(cc), "id = ?"@);
    let bc = basic_connection_update_columns(c);
    assert forall|k: int| 0 <= k < bc.len() implies no_placeholder(#[trigger] column_names_spec(bc)[k]) by {
        lemma_connection_column_clean(bc[k]);
    }
    law_one_placeholder_per_column("connections"@, false, column_names_spec(bc), "id = ?"@);
    let sc = settings_update_columns(s);
    assert forall|k: int| 0 <= k < sc.len() implies no_placeholder(#[trigger] column_names_spec(sc)[k]) by {
        lemma_settings_column_clean(sc[k]);
    }
    law_one_placeholder_per_column("ui_settings"@, false, column_names_spec(sc), "id = 1"@);
    let tc = topology_update_columns(has_name, has_description);
    assert forall|k: int| 0 <= k < tc.len() implies no_placeholder(#[trigger] column_names_spec(tc)[k]) by {
        lemma_topology_column_clean(tc[k]);
    }
    law_one_placeholder_per_column("topologies"@, true, column_names_spec(tc), "id = ?"@);
}

} // verus!

verus! {

// ---------------------------------------------------------------------------
// Which columns an update sets
// ---------------------------------------------------------------------------

#[verifier::opaque]
spec fn seq_has<C>(s: Seq<C>, y: C) -> bool {
    s.contains(y)
}

proof fn lemma_contains_after_opt<C>(a: Seq<C>, present: bool, x: C, y: C)
    ensures
        seq_has(a + opt_col(present, x), y) <==> (seq_has(a, y) || (present && x == y)),
{
    reveal(opt_col);
    reveal(seq_has);
    let s = a + opt_col(present, x);
    if s.contains(y) {
        let k = choose|k: int| 0 <= k < s.len() && s[k] == y;
        if k < a.len() {
            assert(a[k] == y);
        } else {
            assert(opt_col(present, x)[k - a.len()] == y);
        }
    }
    if a.contains(y) {
        let k = choose|k: int| 0 <= k < a.len() && a[k] == y;
        assert(s[k] == y);
    }
    if present && x == y {
        assert(s[a.len() as int] == y);
    }
}

proof fn lemma_contains_opt<C>(present: bool, x: C, y: C)
    ensures
        seq_has(opt_col(present, x), y) <==> (present && x == y),
{
    reveal(opt_col);
    reveal(seq_has);
    if present && x == y {
        assert(opt_col(present, x)[0] == y);
    }
}

/// Whether a node update provides the field that `col` stores.
pub open spec fn node_field_given(c: NodeChanges, col: NodeColumn) -> bool {
    match col {
        NodeColumn::Name => c.name,
        NodeColumn::NodeType => c.node_type,
        NodeColumn::Vendor => c.vendor,
        NodeColumn::ModelName => c.model_name,
        NodeColumn::IpAddress => c.ip_address,
        NodeColumn::PositionX => c.position_x,
        NodeColumn::PositionY => c.position_y,
        NodeColumn::PositionZ => c.position_z,
        NodeColumn::RotationX => c.rotation_x,
        NodeColumn::RotationY => c.rotation_y,
        NodeColumn::RotationZ => c.rotation_z,
        NodeColumn::Scale => c.scale,
        NodeColumn::Color => c.color,
        NodeColumn::Metadata => c.metadata,
    }
}

/// The node fields the basic node endpoint stores.
pub open spec fn basic_node_column(col: NodeColumn) -> bool {
    match col {
        NodeColumn::Name | NodeColumn::NodeType | NodeColumn::IpAddress | NodeColumn::PositionX
        | NodeColumn::PositionY | NodeColumn::PositionZ | NodeColumn::Metadata => true,
        _ => false,
    }
}

proof fn lemma_contains_after_seven<C>(
    a: Seq<C>,
    p1: bool, x1: C, p2: bool, x2: C, p3: bool, x3: C, p4: bool, x4: C,
    p5: bool, x5: C, p6: bool, x6: C, p7: bool, x7: C,
    y: C,
)
    ensures
        seq_has(a + opt_col(p1, x1) + opt_col(p2, x2) + opt_col(p3, x3) + opt_col(p4, x4) + opt_col(p5, x5)
            + opt_col(p6, x6) + opt_col(p7, x7), y) <==> (seq_has(a, y) || (p1 && x1 == y) || (p2 && x2
            == y) || (p3 && x3 == y) || (p4 && x4 == y) || (p5 && x5 == y) || (p6 && x6 == y) || (p7
            && x7 == y)),
{
    let s1 = a + opt_col(p1, x1);
    let s2 = s1 + opt_col(p2, x2);
    let s3 = s2 + opt_col(p3, x3);
    let s4 = s3 + opt_col(p4, x4);
    let s5 = s4 + opt_col(p5, x5);
    let s6 = s5 + opt_col(p6, x6);
    lemma_contains_after_opt(a, p1, x1, y);
    lemma_contains_after_opt(s1, p2, x2, y);
    lemma_contains_after_opt(s2, p3, x3, y);
    lemma_contains_after_opt(s3, p4, x4, y);
    lemma_contains_after_opt(s4, p5, x5, y);
    lemma_contains_after_opt(s5, p6, x6, y);
    lemma_contains_after_opt(s6, p7, x7, y);
}

proof fn lemma_contains_after_six<C>(
    a: Seq<C>,
    p1: bool, x1: C, p2: bool, x2: C, p3: bool, x3: C, p4: bool, x4: C,
    p5: bool, x5: C, p6: bool, x6: C,
    y: C,
)
    ensures
        seq_has(a + opt_col(p1, x1) + opt_col(p2, x2) + opt_col(p3, x3) + opt_col(p4, x4) + opt_col(p5, x5)
            + opt_col(p6, x6), y) <==> (seq_has(a, y) || (p1 && x1 == y) || (p2 && x2 == y) || (p3 && x3
            == y) || (p4 && x4 == y) || (p5 && x5 == y) || (p6 && x6 == y)),
{
    let s1 = a + opt_col(p1, x1);
    let s2 = s1 + opt_col(p2, x2);
    let s3 = s2 + opt_col(p3, x3);
    let s4 = s3 + opt_col(p4, x4);
    let s5 = s4 + opt_col(p5, x5);
    lemma_contains_after_opt(a, p1, x1, y);
    lemma_contains_after_opt(s1, p2, x2, y);
    lemma_contains_after_opt(s2, p3, x3, y);
    lemma_contains_after_opt(s3, p4, x4, y);
    lemma_contains_after_opt(s4, p5, x5, y);
    lemma_contains_after_opt(s5, p6, x6, y);
}

proof fn lemma_node_columns_contain(c: NodeChanges, col: NodeColumn)
    ensures
        node_update_columns(c).contains(col) <==> node_field_given(c, col),
{
    let s1 = opt_col(c.name, NodeColumn::Name);
    let s7 = s1 + opt_col(c.node_type, NodeColumn::NodeType) + opt_col(c.vendor, NodeColumn::Vendor)
        + opt_col(c.model_name, NodeColumn::ModelName) + opt_col(c.ip_address, NodeColumn::IpAddress)
        + opt_col(c.position_x, NodeColumn::PositionX) + opt_col(c.position_y, NodeColumn::PositionY);
    let s14 = s7 + opt_col(c.position_z, NodeColumn::PositionZ) + opt_col(c.rotation_x, NodeColumn::RotationX)
        + opt_col(c.rotation_y, NodeColumn::RotationY) + opt_col(c.rotation_z, NodeColumn::RotationZ)
        + opt_col(c.scale, NodeColumn::Scale) + opt_col(c.color, NodeColumn::Color) + opt_col(
        c.metadata,
        NodeColumn::Metadata,
    );
    lemma_contains_opt(c.name, NodeColumn::Name, col);
    lemma_contains_after_seven(s1, c.node_type, NodeColumn::NodeType, c.vendor, NodeColumn::Vendor,
        c.model_name, NodeColumn::ModelName, c.ip_address, NodeColumn::IpAddress, c.position_x,
        NodeColumn::PositionX, c.position_y, NodeColumn::PositionY, c.position_z, NodeColumn::PositionZ, col);
    let s8 = s7 + opt_col(c.position_z, NodeColumn::PositionZ);
    lemma_contains_after_six(s8, c.rotation_x, NodeColumn::RotationX, c.rotation_y, NodeColumn::RotationY,
        c.rotation_z, NodeColumn::RotationZ, c.scale, NodeColumn::Scale, c.color, NodeColumn::Color,
        c.metadata, NodeColumn::Metadata, col);
    assert(seq_has(s14, col) == s14.contains(col)) by { reveal(seq_has); }
}

proof fn lemma_basic_node_columns_contain(c: NodeChanges, col: NodeColumn)
    ensures
        basic_node_update_columns(c).contains(col) <==> (node_field_given(c, col) && basic_node_column(col)),
{
    let b1 = opt_col(c.name, NodeColumn::Name);
    let b2 = b1 + opt_col(c.node_type, NodeColumn::NodeType);
    let b3 = b2 + opt_col(c.ip_address, NodeColumn::IpAddress);
    let b4 = b3 + opt_col(c.position_x, NodeColumn::PositionX);
    let b5 = b4 + opt_col(c.position_y, NodeColumn::PositionY);
    let b6 = b5 + opt_col(c.position_z, NodeColumn::PositionZ);
    let b7 = b6 + opt_col(c.metadata, NodeColumn::Metadata);
    assert(basic_node_update_columns(c) == b7);
    lemma_contains_opt(c.name, NodeColumn::Name, col);
    lemma_contains_after_opt(b1, c.node_type, NodeColumn::NodeType, col);
    lemma_contains_after_opt(b2, c.ip_address, NodeColumn::IpAddress, col);
    lemma_contains_after_opt(b3, c.position_x, NodeColumn::PositionX, col);
    lemma_contains_after_opt(b4, c.position_y, NodeColumn::PositionY, col);
    lemma_contains_after_opt(b5, c.position_z, NodeColumn::PositionZ, col);
    lemma_contains_after_opt(b6, c.metadata, NodeColumn::Metadata, col);
    assert(seq_has(b7, col) == b7.contains(col)) by { reveal(seq_has); }
}

proof fn lemma_basic_node_columns_empty(c: NodeChanges)
    ensures
        basic_node_update_columns(c).len() == 0 <==> !(c.name || c.node_type || c.ip_address
            || c.position_x || c.position_y || c.position_z || c.metadata),
{
    reveal(opt_col);
    let cols = basic_node_update_columns(c);
    if c.name { lemma_basic_node_columns_contain(c, NodeColumn::Name); }
    if c.node_type { lemma_basic_node_columns_contain(c, NodeColumn::NodeType); }
    if c.ip_address { lemma_basic_node_columns_contain(c, NodeColumn::IpAddress); }
    if c.position_x { lemma_basic_node_columns_contain(c, NodeColumn::PositionX); }
    if c.position_y { lemma_basic_node_columns_contain(c, NodeColumn::PositionY); }
    if c.position_z { lemma_basic_node_columns_contain(c, NodeColumn::PositionZ); }
    if c.metadata { lemma_basic_node_columns_contain(c, NodeColumn::Metadata); }
    if !(c.name || c.node_type || c.ip_address || c.position_x || c.position_y || c.position_z
        || c.metadata) {
        assert(cols =~= Seq::<NodeColumn>::empty());
    }
}

/// Law: a node update sets a column exactly when its field is provided; the
/// basic node endpoint does the same for name, type, IP address, position and
/// metadata and never sets another column, and it is refused exactly when none
/// of those is provided. The full endpoint refuses exactly the updates that give
/// none of name, type, vendor, model, position, IP address and metadata.
pub proof fn law_node_update_sets_given_fields(c: NodeChanges, col: NodeColumn)
    ensures
        node_update_columns(c).contains(col) <==> node_field_given(c, col),
        basic_node_update_columns(c).contains(col) <==> (node_field_given(c, col) && basic_node_column(col)),
        basic_node_update_columns(c).len() == 0 <==> !(c.name || c.node_type || c.ip_address
            || c.position_x || c.position_y || c.position_z || c.metadata),
        node_update_accepted(c) <==> (c.name || c.node_type || c.vendor || c.model_name
            || c.ip_address || c.position_x || c.position_y || c.position_z || c.metadata),
{
    lemma_node_columns_contain(c, col);
    lemma_basic_node_columns_contain(c, col);
    lemma_basic_node_columns_empty(c);
}

/// Whether a connection update provides the field that `col` stores.
pub open spec fn connection_field_given(c: ConnectionChanges, col: ConnectionColumn) -> bool {
    match col {
        ConnectionColumn::ConnectionType => c.connection_type,
        ConnectionColumn::BandwidthMbps => c.bandwidth_mbps,
        ConnectionColumn::LatencyMs => c.latency_ms,
        ConnectionColumn::Status => c.status,
        ConnectionColumn::Color => c.color,
        ConnectionColumn::Metadata => c.metadata,
    }
}

/// Law: a connection update sets a column exactly when its field is provided;
/// the basic connection endpoint does the same for every field but the colour,
/// which it never sets, and it is refused exactly when none of its fields is
/// provided.
pub proof fn law_connection_update_sets_given_fields(c: ConnectionChanges, col: ConnectionColumn)
    ensures
        connection_update_columns(c).contains(col) <==> connection_field_given(c, col),
        basic_connection_update_columns(c).contains(col) <==> (connection_field_given(c, col)
            && col != ConnectionColumn::Color),
        basic_connection_update_columns(c).len() == 0 <==> !(c.connection_type || c.bandwidth_mbps
            || c.latency_ms || c.status || c.metadata),
{
    reveal(opt_col);
    let s1 = opt_col(c.connection_type, ConnectionColumn::ConnectionType);
    let s2 = s1 + opt_col(c.bandwidth_mbps, ConnectionColumn::BandwidthMbps);
    let s3 = s2 + opt_col(c.latency_ms, ConnectionColumn::LatencyMs);
    let s4 = s3 + opt_col(c.status, ConnectionColumn::Status);
    let s5 = s4 + opt_col(c.color, ConnectionColumn::Color);
    let s6 = s5 + opt_col(c.metadata, ConnectionColumn::Metadata);
    assert(connection_update_columns(c) == s6);
    lemma_contains_opt(c.connection_type, ConnectionColumn::ConnectionType, col);
    lemma_contains_after_opt(s1, c.bandwidth_mbps, ConnectionColumn::BandwidthMbps, col);
    lemma_contains_after_opt(s2, c.latency_ms, ConnectionColumn::LatencyMs, col);
    lemma_contains_after_opt(s3, c.status, ConnectionColumn::Status, col);
    lemma_contains_after_opt(s4, c.color, ConnectionColumn::Color, col);
    lemma_contains_after_opt(s5, c.metadata, ConnectionColumn::Metadata, col);
    let b5 = s4 + opt_col(c.metadata, ConnectionColumn::Metadata);
    assert(basic_connection_update_columns(c) == b5);
    lemma_contains_after_opt(s4, c.metadata, ConnectionColumn::Metadata, col);
    assert(seq_has(s6, col) == s6.contains(col)) by { reveal(seq_has); }
    assert(seq_has(b5, col) == b5.contains(col)) by { reveal(seq_has); }
}

/// Whether a settings update provides the setting that `col` stores.
pub open spec fn setting_given(c: SettingsChanges, col: SettingsColumn) -> bool {
    match col {
        SettingsColumn::ShowGrid => c.show_grid,
        SettingsColumn::ShowXAxis => c.show_x_axis,
        SettingsColumn::ShowYAxis => c.show_y_axis,
        SettingsColumn::ShowZAxis => c.show_z_axis,
        SettingsColumn::AmbientIntensity => c.ambient_intensity,
        SettingsColumn::KeyLightIntensity => c.key_light_intensity,
        SettingsColumn::FillLightIntensity => c.fill_light_intensity,
        SettingsColumn::RimLightIntensity => c.rim_light_intensity,
        SettingsColumn::UseEnvironmentLighting => c.use_environment_lighting,
        SettingsColumn::EnvironmentMap => c.environment_map,
    }
}

/// Law: a settings update sets a column exactly when its setting is provided,
/// and a topology update sets its name and description exactly when given.
pub proof fn law_settings_update_sets_given_fields(c: SettingsChanges, col: SettingsColumn, has_name: bool, has_description: bool)
    ensures
        settings_update_columns(c).contains(col) <==> setting_given(c, col),
        topology_update_columns(has_name, has_description).contains(TopologyColumn::Name) <==> has_name,
        topology_update_columns(has_name, has_description).contains(TopologyColumn::Description)
            <==> has_description,
{
    let s1 = opt_col(c.show_grid, SettingsColumn::ShowGrid);
    let s2 = s1 + opt_col(c.show_x_axis, SettingsColumn::ShowXAxis);
    let s3 = s2 + opt_col(c.show_y_axis, SettingsColumn::ShowYAxis);
    let s4 = s3 + opt_col(c.show_z_axis, SettingsColumn::ShowZAxis);
    let s5 = s4 + opt_col(c.ambient_intensity, SettingsColumn::AmbientIntensity);
    let s6 = s5 + opt_col(c.key_light_intensity, SettingsColumn::KeyLightIntensity);
    let s7 = s6 + opt_col(c.fill_light_intensity, SettingsColumn::FillLightIntensity);
    let s8 = s7 + opt_col(c.rim_light_intensity, SettingsColumn::RimLightIntensity);
    let s9 = s8 + opt_col(c.use_environment_lighting, SettingsColumn::UseEnvironmentLighting);
    let s10 = s9 + opt_col(c.environment_map, SettingsColumn::EnvironmentMap);
    assert(settings_update_columns(c) == s10);
    lemma_contains_opt(c.show_grid, SettingsColumn::ShowGrid, col);
    lemma_contains_after_opt(s1, c.show_x_axis, SettingsColumn::ShowXAxis, col);
    lemma_contains_after_opt(s2, c.show_y_axis, SettingsColumn::ShowYAxis, col);
    lemma_contains_after_opt(s3, c.show_z_axis, SettingsColumn::ShowZAxis, col);
    lemma_contains_after_opt(s4, c.ambient_intensity, SettingsColumn::AmbientIntensity, col);
    lemma_contains_after_opt(s5, c.key_light_intensity, SettingsColumn::KeyLightIntensity, col);
    lemma_contains_after_opt(s6, c.fill_light_intensity, SettingsColumn::FillLightIntensity, col);
    lemma_contains_after_opt(s7, c.rim_light_intensity, SettingsColumn::RimLightIntensity, col);
    lemma_contains_after_opt(s8, c.use_environment_lighting, SettingsColumn::UseEnvironmentLighting, col);
    lemma_contains_after_opt(s9, c.environment_map, SettingsColumn::EnvironmentMap, col);
    let t1 = opt_col(has_name, TopologyColumn::Name);
    lemma_contains_opt(has_name, TopologyColumn::Name, TopologyColumn::Name);
    lemma_contains_opt(has_name, TopologyColumn::Name, TopologyColumn::Description);
    lemma_contains_after_opt(t1, has_description, TopologyColumn::Description, TopologyColumn::Name);
    lemma_contains_after_opt(t1, has_description, TopologyColumn::Description, TopologyColumn::Description);
    let t2 = t1 + opt_col(has_description, TopologyColumn::Description);
    assert(seq_has(s10, col) == s10.contains(col)) by { reveal(seq_has); }
    assert(seq_has(t2, TopologyColumn::Name) == t2.contains(TopologyColumn::Name)) by { reveal(seq_has); }
    assert(seq_has(t2, TopologyColumn::Description) == t2.contains(TopologyColumn::Description)) by {
        reveal(seq_has);
    }
}

} // verus!
