use vstd::prelude::*;
use crate::models::{LinkStatus, LinkType};
use crate::text::{all_ascii, ascii_lowercase, is_blank, is_blank_spec, to_lowercase, unicode_lowercase, str_eq};

verus! {

// ---------------------------------------------------------------------------
// Selection and connection creation in the viewport
// ---------------------------------------------------------------------------

/// Progress of creating a connection by clicking two nodes.
#[derive(Clone, Copy, Debug, PartialEq, Eq, Structural)]
pub enum ConnectionMode {
    Disabled,
    SelectingFirstNode,
    SelectingSecondNode { first_node_id: i64 },
}

/// What the properties panel shows.
#[derive(Clone, Copy, Debug, PartialEq, Eq, Structural)]
pub enum SelectedItem {
    Node(i64),
    Connection(i64),
}

/// The selection after a click: the selected node and the selected item.
#[derive(Clone, Copy, Debug, PartialEq, Eq, Structural)]
pub struct Selection {
    pub node: Option<i64>,
    pub item: Option<SelectedItem>,
}

/// A connection to create, from the source node to the target node.
#[derive(Clone, Copy, Debug, PartialEq, Eq, Structural)]
pub struct ConnectionRequest {
    pub source_node_id: i64,
    pub target_node_id: i64,
}

/// A connection made by clicking two nodes: from the first node to the second,
/// with its type, bandwidth (Mbps) and state.
#[derive(Clone, Copy, Debug, PartialEq, Eq, Structural)]
pub struct ClickedConnection {
    pub source_node_id: i64,
    pub target_node_id: i64,
    pub connection_type: LinkType,
    pub bandwidth_mbps: i64,
    pub status: LinkStatus,
}

/// What a click in the viewport changes. `None` fields leave the state as it is.
#[derive(Clone, Copy, Debug, PartialEq, Eq, Structural)]
pub struct ClickOutcome {
    pub selection: Option<Selection>,
    pub mode: Option<ConnectionMode>,
    pub create_connection: Option<ClickedConnection>,
}

/// The connection that clicking node `source` and then node `target` creates:
/// an active 1000 Mbps Ethernet link.
pub open spec fn clicked_connection(source: i64, target: i64) -> ClickedConnection {
    ClickedConnection {
        source_node_id: source,
        target_node_id: target,
        connection_type: LinkType::Ethernet,
        bandwidth_mbps: 1000,
        status: LinkStatus::Active,
    }
}

pub open spec fn select_node(n: i64) -> Selection {
    Selection { node: Some(n), item: Some(SelectedItem::Node(n)) }
}

pub open spec fn select_nothing() -> Selection {
    Selection { node: None, item: None }
}

/// The effect of a click that hit `node` (the nearest node under the pointer, if
/// any) or else `connection`, in connection mode `mode` (`None` when the editor
/// offers no connection mode).
pub open spec fn click_spec(mode: Option<ConnectionMode>, node: Option<i64>, connection: Option<i64>) -> ClickOutcome {
    match mode {
        None | Some(ConnectionMode::Disabled) => ClickOutcome {
            selection: Some(
                match node {
                    Some(n) => select_node(n),
                    None => match connection {
                        Some(c) => Selection { node: None, item: Some(SelectedItem::Connection(c)) },
                        None => select_nothing(),
                    },
                },
            ),
            mode: None,
            create_connection: None,
        },
        Some(ConnectionMode::SelectingFirstNode) => match node {
            Some(n) => ClickOutcome {
                selection: Some(select_node(n)),
                mode: Some(ConnectionMode::SelectingSecondNode { first_node_id: n }),
                create_connection: None,
            },
            None => ClickOutcome { selection: Some(select_nothing()), mode: None, create_connection: None },
        },
        Some(ConnectionMode::SelectingSecondNode { first_node_id }) => match node {
            Some(n) => ClickOutcome { selection: None, mode: None, create_connection: Some(clicked_connection(first_node_id, n)) },
            None => ClickOutcome {
                selection: Some(select_nothing()),
                mode: Some(ConnectionMode::SelectingFirstNode),
                create_connection: None,
            },
        },
    }
}

/// Decides what a click in the viewport does.
pub fn viewport_click(mode: Option<ConnectionMode>, node: Option<i64>, connection: Option<i64>) -> (o: ClickOutcome)
    ensures
        o == click_spec(mode, node, connection),
{
    match mode {
        None | Some(ConnectionMode::Disabled) => {
            let sel = match node {
                Some(n) => Selection { node: Some(n), item: Some(SelectedItem::Node(n)) },
                None => match connection {
                    Some(c) => Selection { node: None, item: Some(SelectedItem::Connection(c)) },
                    None => Selection { node: None, item: None },
                },
            };
            ClickOutcome { selection: Some(sel), mode: None, create_connection: None }
        },
        Some(ConnectionMode::SelectingFirstNode) => match node {
            Some(n) => ClickOutcome {
                selection: Some(Selection { node: Some(n), item: Some(SelectedItem::Node(n)) }),
                mode: Some(ConnectionMode::SelectingSecondNode { first_node_id: n }),
                create_connection: None,
            },
            None => ClickOutcome {
                selection: Some(Selection { node: None, item: None }),
                mode: None,
                create_connection: None,
            },
        },
        Some(ConnectionMode::SelectingSecondNode { first_node_id }) => match node {
            Some(n) => ClickOutcome {
                selection: None,
                mode: None,
                create_connection: Some(ClickedConnection {
                    source_node_id: first_node_id,
                    target_node_id: n,
                    connection_type: LinkType::Ethernet,
                    bandwidth_mbps: 1000,
                    status: LinkStatus::Active,
                }),
            },
            None => ClickOutcome {
                selection: Some(Selection { node: None, item: None }),
                mode: Some(ConnectionMode::SelectingFirstNode),
                create_connection: None,
            },
        },
    }
}

/// The mode after an attempt to create a connection, whether it succeeded or
/// not: ready for the next first node.
pub fn mode_after_connection_attempt(succeeded: bool) -> (m: ConnectionMode)
    ensures
        m == ConnectionMode::SelectingFirstNode,
{
    ConnectionMode::SelectingFirstNode
}

/// The "Connect Nodes" button: starts connection mode, or leaves it.
pub open spec fn toggle_mode_spec(m: ConnectionMode) -> ConnectionMode {
    if m == ConnectionMode::Disabled {
        ConnectionMode::SelectingFirstNode
    } else {
        ConnectionMode::Disabled
    }
}

pub fn toggle_connection_mode(m: ConnectionMode) -> (r: ConnectionMode)
    ensures
        r == toggle_mode_spec(m),
{
    match m {
        ConnectionMode::Disabled => ConnectionMode::SelectingFirstNode,
        _ => ConnectionMode::Disabled,
    }
}

/// The hint under the "Connect Nodes" button.
pub fn connection_mode_hint(m: ConnectionMode) -> (s: &'static str)
    ensures
        s@ == match m {
            ConnectionMode::Disabled => "Click to activate"@,
            ConnectionMode::SelectingFirstNode => "Select first node"@,
            ConnectionMode::SelectingSecondNode { .. } => "Select second node"@,
        },
{
    match m {
        ConnectionMode::Disabled => "Click to activate",
        ConnectionMode::SelectingFirstNode => "Select first node",
        ConnectionMode::SelectingSecondNode { .. } => "Select second node",
    }
}

/// Whether a connection is drawn as selected.
pub fn connection_is_selected(item: Option<SelectedItem>, connection_id: i64) -> (b: bool)
    ensures
        b == (item == Some(SelectedItem::Connection(connection_id))),
{
    match item {
        Some(SelectedItem::Connection(id)) => id == connection_id,
        _ => false,
    }
}

/// Whether a node is drawn as selected.
pub fn node_is_selected(selected: Option<i64>, node_id: i64) -> (b: bool)
    ensures
        b == (selected == Some(node_id)),
{
    match selected {
        Some(id) => id == node_id,
        None => false,
    }
}

// ---------------------------------------------------------------------------
// Laws of the click state machine
// ---------------------------------------------------------------------------

/// Law: outside connection mode a click only changes the selection.
pub proof fn law_click_outside_connection_mode(mode: Option<ConnectionMode>, node: Option<i64>, connection: Option<i64>)
    requires
        mode is None || mode == Some(ConnectionMode::Disabled),
    ensures
        click_spec(mode, node, connection).mode is None,
        click_spec(mode, node, connection).create_connection is None,
        click_spec(mode, node, connection).selection is Some,
{
}

/// Law: in connection mode, clicking node `a` and then node `b` asks for a
/// connection from `a` to `b`, and the first click selects `a`.
pub proof fn law_two_clicks_connect(a: i64, b: i64, c1: Option<i64>, c2: Option<i64>)
    ensures
        ({
            let first = click_spec(Some(ConnectionMode::SelectingFirstNode), Some(a), c1);
            &&& first.selection == Some(select_node(a))
            &&& first.mode matches Some(m) && click_spec(Some(m), Some(b), c2).create_connection
                == Some(clicked_connection(a, b))
        }),
{
}

/// Law: a connection is requested only by a click on a node while the first
/// node is chosen, and it starts at that first node.
pub proof fn law_connection_only_from_first_node(mode: Option<ConnectionMode>, node: Option<i64>, connection: Option<i64>)
    ensures
        click_spec(mode, node, connection).create_connection matches Some(p) ==> (mode
            == Some(ConnectionMode::SelectingSecondNode { first_node_id: p.source_node_id })
            && node == Some(p.target_node_id)),
{
}

/// Law: clicks never leave connection mode; only the button does, and pressing
/// the button twice returns to the mode one started from when that was off.
pub proof fn law_connection_mode_persists(mode: ConnectionMode, node: Option<i64>, connection: Option<i64>)
    ensures
        mode != ConnectionMode::Disabled ==> click_spec(Some(mode), node, connection).mode
            != Some(ConnectionMode::Disabled),
        toggle_mode_spec(toggle_mode_spec(ConnectionMode::Disabled)) == ConnectionMode::Disabled,
        mode != ConnectionMode::Disabled ==> toggle_mode_spec(mode) == ConnectionMode::Disabled,
{
}

} // verus!

verus! {

// ---------------------------------------------------------------------------
// Keyboard shortcuts
// ---------------------------------------------------------------------------

/// What a key press in the editor does.
#[derive(Clone, Copy, Debug, PartialEq, Eq, Structural)]
pub struct KeyOutcome {
    /// The browser's default action is suppressed.
    pub prevent_default: bool,
    /// Whether fullscreen mode is on afterwards.
    pub fullscreen: bool,
    /// The selection is cleared.
    pub clear_selection: bool,
}

pub open spec fn key_spec(
    key: Seq<char>,
    typing: bool,
    meta: bool,
    ctrl: bool,
    fullscreen: bool,
    has_selection: bool,
) -> KeyOutcome {
    let unchanged = KeyOutcome { prevent_default: false, fullscreen, clear_selection: false };
    if typing {
        unchanged
    } else if key == "f"@ || key == "F"@ {
        KeyOutcome { prevent_default: true, fullscreen: !fullscreen, clear_selection: false }
    } else if key == "Escape"@ {
        if fullscreen {
            KeyOutcome { prevent_default: true, fullscreen: false, clear_selection: false }
        } else {
            KeyOutcome { prevent_default: true, fullscreen: false, clear_selection: true }
        }
    } else if (key == "Delete"@ || key == "Backspace"@) && !meta && !ctrl {
        KeyOutcome { prevent_default: has_selection, fullscreen, clear_selection: false }
    } else {
        unchanged
    }
}

/// Law: a key typed into a text field is left to the field: nothing is
/// prevented, fullscreen stays as it is and the selection is kept, whatever the
/// key and modifiers.
pub proof fn law_keys_in_text_fields_left_alone(
    key: Seq<char>,
    meta: bool,
    ctrl: bool,
    fullscreen: bool,
    has_selection: bool,
)
    ensures
        key_spec(key, true, meta, ctrl, fullscreen, has_selection) == (KeyOutcome {
            prevent_default: false,
            fullscreen,
            clear_selection: false,
        }),
{
}

/// Law: outside text fields, `f`/`F` toggles fullscreen; `Escape` leaves
/// fullscreen, or clears the selection when not in fullscreen; `Delete` and
/// `Backspace` without Cmd or Ctrl are captured exactly when something is
/// selected and change nothing else; every other key changes nothing.
pub proof fn law_editor_shortcuts(
    key: Seq<char>,
    meta: bool,
    ctrl: bool,
    fullscreen: bool,
    has_selection: bool,
)
    ensures
        ({
            let o = key_spec(key, false, meta, ctrl, fullscreen, has_selection);
            &&& (key == "f"@ || key == "F"@) ==> o.prevent_default && o.fullscreen == !fullscreen
                && !o.clear_selection
            &&& key == "Escape"@ ==> o.prevent_default && !o.fullscreen && o.clear_selection == !fullscreen
            &&& (key == "Delete"@ || key == "Backspace"@) && !meta && !ctrl ==> o.prevent_default
                == has_selection && o.fullscreen == fullscreen && !o.clear_selection
            &&& o.clear_selection ==> key == "Escape"@ && !fullscreen
            &&& o.fullscreen != fullscreen ==> key == "f"@ || key == "F"@ || key == "Escape"@
            &&& !(key == "f"@ || key == "F"@ || key == "Escape"@ || key == "Delete"@ || key == "Backspace"@)
                ==> o == (KeyOutcome { prevent_default: false, fullscreen, clear_selection: false })
        }),
{
    reveal_strlit("f");
    reveal_strlit("F");
    reveal_strlit("Escape");
    reveal_strlit("Delete");
    reveal_strlit("Backspace");
    assert("f"@.len() == 1 && "F"@.len() == 1 && "Escape"@.len() == 6);
    assert("Delete"@.len() == 6 && "Backspace"@.len() == 9);
    assert("f"@ != "F"@) by {
        assert("f"@[0] != "F"@[0]);
    }
    assert("Escape"@ != "Delete"@) by {
        assert("Escape"@[0] != "Delete"@[0]);
    }
}

/// Handles a key press: `f` toggles fullscreen, `Escape` leaves fullscreen or
/// else clears the selection, `Delete`/`Backspace` (without Cmd or Ctrl) are
/// captured while something is selected; keys typed into a text field are left
/// alone.
pub fn editor_key(
    key: &str,
    typing: bool,
    meta: bool,
    ctrl: bool,
    fullscreen: bool,
    has_selection: bool,
) -> (o: KeyOutcome)
    ensures
        o == key_spec(key@, typing, meta, ctrl, fullscreen, has_selection),
{
    let unchanged = KeyOutcome { prevent_default: false, fullscreen, clear_selection: false };
    if typing {
        unchanged
    } else if str_eq(key, "f") || str_eq(key, "F") {
        KeyOutcome { prevent_default: true, fullscreen: !fullscreen, clear_selection: false }
    } else if str_eq(key, "Escape") {
        if fullscreen {
            KeyOutcome { prevent_default: true, fullscreen: false, clear_selection: false }
        } else {
            KeyOutcome { prevent_default: true, fullscreen: false, clear_selection: true }
        }
    } else if (str_eq(key, "Delete") || str_eq(key, "Backspace")) && !meta && !ctrl {
        KeyOutcome { prevent_default: has_selection, fullscreen, clear_selection: false }
    } else {
        unchanged
    }
}

/// Whether an element with this tag name takes typed text (`input`, `textarea`,
/// in any case).
pub fn is_text_entry_tag(tag_name: &str) -> (b: bool)
    ensures
        b == (unicode_lowercase(tag_name@) == "input"@ || unicode_lowercase(tag_name@) == "textarea"@),
        all_ascii(tag_name@) ==> b == (ascii_lowercase(tag_name@) == "input"@ || ascii_lowercase(
            tag_name@,
        ) == "textarea"@),
{
    let lower = to_lowercase(tag_name);
    str_eq(lower.as_str(), "input") || str_eq(lower.as_str(), "textarea")
}

// ---------------------------------------------------------------------------
// Device palette
// ---------------------------------------------------------------------------

/// The name given to the node added as number `count` (counting from zero):
/// `{prefix}-{count + 1}`.
pub fn palette_node_name(prefix: &str, count: u32) -> (s: String)
    requires
        count < u32::MAX,
    ensures
        s@ == prefix@ + "-"@ + crate::text::decimal(count as nat + 1),
{
    let mut s = prefix.to_owned();
    crate::text::push_str(&mut s, "-");
    let n = crate::text::u64_to_decimal(count as u64 + 1);
    crate::text::push_str(&mut s, n.as_str());
    s
}

/// The x coordinate of palette slot `count`.
pub open spec fn palette_x(count: int) -> int {
    (count % 5) * 3 - 6
}

/// The z coordinate of palette slot `count`.
pub open spec fn palette_z(count: int) -> int {
    (count / 5) * 3 - 3
}

/// Law: the palette fills rows of five slots three units apart, from x = -6 to
/// x = 6; the next row starts three units further back; the first node goes to
/// (-6, -3); and no two nodes share a slot.
pub proof fn law_palette_grid(n: int, m: int)
    requires
        0 <= n,
        0 <= m,
    ensures
        palette_x(0) == -6 && palette_z(0) == -3,
        -6 <= palette_x(n) <= 6,
        palette_x(n + 5) == palette_x(n) && palette_z(n + 5) == palette_z(n) + 3,
        n % 5 != 4 ==> palette_x(n + 1) == palette_x(n) + 3 && palette_z(n + 1) == palette_z(n),
        n % 5 == 4 ==> palette_x(n + 1) == -6 && palette_z(n + 1) == palette_z(n) + 3,
        n != m ==> (palette_x(n), palette_z(n)) != (palette_x(m), palette_z(m)),
{
    assert((n + 5) % 5 == n % 5 && (n + 5) / 5 == n / 5 + 1) by (nonlinear_arith)
        requires
            0 <= n,
    ;
    assert(n % 5 != 4 ==> (n + 1) % 5 == n % 5 + 1 && (n + 1) / 5 == n / 5) by (nonlinear_arith)
        requires
            0 <= n,
    ;
    assert(n % 5 == 4 ==> (n + 1) % 5 == 0 && (n + 1) / 5 == n / 5 + 1) by (nonlinear_arith)
        requires
            0 <= n,
    ;
    assert(n == (n / 5) * 5 + n % 5 && m == (m / 5) * 5 + m % 5) by (nonlinear_arith)
        requires
            0 <= n,
            0 <= m,
    ;
}

/// Where the node added as number `count` is placed on the floor grid: five
/// columns three units apart, centred on the origin, rows going back three
/// units at a time. Returns the (x, z) coordinates.
pub fn palette_grid_position(count: u32) -> (p: (i64, i64))
    ensures
        p.0 == (count % 5) as int * 3 - 6,
        p.1 == (count / 5) as int * 3 - 3,
        p.0 == palette_x(count as int),
        p.1 == palette_z(count as int),
{
    let col = (count % 5) as i64;
    let row = (count / 5) as i64;
    (col * 3 - 6, row * 3 - 3)
}

/// Whether an edited topology name is saved: it must not be blank.
pub fn topology_name_accepted(name: &str) -> (b: bool)
    ensures
        b == !is_blank_spec(name@),
{
    !is_blank(name)
}

// ---------------------------------------------------------------------------
// Export
// ---------------------------------------------------------------------------

/// Whether an export format means the topology data rather than an image.
pub fn is_json_export(format: &str) -> (b: bool)
    ensures
        b == (format@ == "json"@),
{
    str_eq(format, "json")
}

/// MIME type of an exported image: JPEG for `jpeg`, PNG otherwise.
pub fn export_image_mime(format: &str) -> (s: &'static str)
    ensures
        s@ == (if format@ == "jpeg"@ { "image/jpeg"@ } else { "image/png"@ }),
{
    if str_eq(format, "jpeg") {
        "image/jpeg"
    } else {
        "image/png"
    }
}

/// File name of an exported image: `topology-export.jpg` or `topology-export.png`.
pub fn export_image_filename(format: &str) -> (s: String)
    ensures
        s@ == (if format@ == "jpeg"@ { "topology-export.jpg"@ } else { "topology-export.png"@ }),
{
    if str_eq(format, "jpeg") {
        "topology-export.jpg".to_owned()
    } else {
        "topology-export.png".to_owned()
    }
}

/// Size of the copy drawn for an export at a resolution multiplier above one;
/// `None` when the canvas is exported as it is.
pub fn export_canvas_size(width: u32, height: u32, multiplier: u32) -> (r: Option<(u32, u32)>)
    requires
        multiplier > 1 ==> width * multiplier <= u32::MAX && height * multiplier <= u32::MAX,
    ensures
        multiplier <= 1 ==> r is None,
        multiplier > 1 ==> r == Some(((width * multiplier) as u32, (height * multiplier) as u32)),
{
    if multiplier > 1 {
        Some((width * multiplier, height * multiplier))
    } else {
        None
    }
}

/// `' '` replaced by `'_'`.
pub open spec fn spaces_to_underscores(s: Seq<char>) -> Seq<char> {
    s.map_values(|c: char| if c == ' ' { '_' } else { c })
}

/// File name of a topology export:
/// `topology-{name with spaces as underscores, lowercased}-{timestamp}.json`.
pub fn export_json_filename(topology_name: &str, timestamp_ms: i64) -> (s: String)
    ensures
        s@ == "topology-"@ + unicode_lowercase(spaces_to_underscores(topology_name@)) + "-"@
            + crate::text::signed_decimal(timestamp_ms as int) + ".json"@,
        all_ascii(topology_name@) ==> s@ == "topology-"@ + ascii_lowercase(
            spaces_to_underscores(topology_name@),
        ) + "-"@ + crate::text::signed_decimal(timestamp_ms as int) + ".json"@,
{
    let v = crate::text::chars_of(topology_name);
    let mut w: Vec<char> = Vec::new();
    let mut i: usize = 0;
    while i < v.len()
        invariant
            i <= v.len(),
            v@ == topology_name@,
            w@ == spaces_to_underscores(v@.take(i as int)),
        decreases v.len() - i,
    {
        let c = if v[i] == ' ' { '_' } else { v[i] };
        w.push(c);
        proof {
            assert(spaces_to_underscores(v@.take(i + 1)) =~= spaces_to_underscores(v@.take(i as int)).push(c));
        }
        i = i + 1;
    }
    proof { assert(v@.take(v.len() as int) =~= v@); }
    let replaced = crate::text::string_from_chars(&w);
    proof {
        if all_ascii(topology_name@) {
            let u = spaces_to_underscores(topology_name@);
            assert forall|k: int| 0 <= k < u.len() implies #[trigger] crate::text::is_ascii_char(u[k]) by {
                assert(crate::text::is_ascii_char(topology_name@[k]));
            }
        }
    }
    let lower = to_lowercase(replaced.as_str());
    let mut s = "topology-".to_owned();
    crate::text::push_str(&mut s, lower.as_str());
    crate::text::push_str(&mut s, "-");
    let ts = crate::text::i64_to_decimal(timestamp_ms);
    crate::text::push_str(&mut s, ts.as_str());
    crate::text::push_str(&mut s, ".json");
    s
}

} // verus!

verus! {

// ---------------------------------------------------------------------------
// Start-up and the counter island
// ---------------------------------------------------------------------------

/// The topology shown at start-up: the one viewed last, else the first one listed.
pub fn startup_topology(last_viewed: Option<i64>, first_listed: Option<i64>) -> (r: Option<i64>)
    ensures
        r == (if last_viewed is Some { last_viewed } else { first_listed }),
{
    match last_viewed {
        Some(id) => Some(id),
        None => first_listed,
    }
}

/// Buttons of the counter island.
#[derive(Clone, Copy, Debug, PartialEq, Eq, Structural)]
pub enum CounterAction {
    Increment,
    Decrement,
    Reset,
}

/// The counter after a button press.
pub fn counter_next(count: i32, initial: i32, action: CounterAction) -> (r: i32)
    requires
        action == CounterAction::Increment ==> count < i32::MAX,
        action == CounterAction::Decrement ==> count > i32::MIN,
    ensures
        r == match action {
            CounterAction::Increment => count + 1,
            CounterAction::Decrement => count - 1,
            CounterAction::Reset => initial as int,
        },
{
    match action {
        CounterAction::Increment => count + 1,
        CounterAction::Decrement => count - 1,
        CounterAction::Reset => initial,
    }
}

} // verus!
