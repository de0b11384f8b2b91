use ntb::color::{
    color_picker_value, connection_color_picker_value, connection_draw_color, format_rgb, hex_color,
    hex_to_rgb_string, node_color_picker_value, node_draw_color, node_type_color, parse_rgb,
    parse_rgb_lenient, selected_connection_color, selected_node_color, swatch_style, Rgba,
};

fn rgba(r: u8, g: u8, b: u8, a: u8) -> Rgba {
    Rgba { r, g, b, a }
}

#[test]
fn strict_rgb_parsing() {
    assert_eq!(parse_rgb("100,150,255"), Some((100, 150, 255)));
    assert_eq!(parse_rgb("+1,02,3"), Some((1, 2, 3)));
    assert_eq!(parse_rgb("1,2"), None);
    assert_eq!(parse_rgb("1,2,3,4"), None);
    assert_eq!(parse_rgb("1, 2,3"), None);
    assert_eq!(parse_rgb("1,2,256"), None);
    assert_eq!(parse_rgb(""), None);
    assert_eq!(parse_rgb(",,"), None);
}

#[test]
fn lenient_rgb_parsing_skips_bad_pieces() {
    assert_eq!(parse_rgb_lenient("1,2,x,3"), Some((1, 2, 3)));
    assert_eq!(parse_rgb_lenient("1,2,3"), Some((1, 2, 3)));
    assert_eq!(parse_rgb_lenient("1,2,3,4"), None);
    assert_eq!(parse_rgb_lenient("red"), None);
}

#[test]
fn rgb_text_round_trip() {
    for (r, g, b) in [(0, 0, 0), (255, 255, 255), (100, 150, 255), (9, 10, 99)] {
        let s = format_rgb(r, g, b);
        assert_eq!(s, format!("{},{},{}", r, g, b));
        assert_eq!(parse_rgb(&s), Some((r, g, b)));
        assert_eq!(parse_rgb_lenient(&s), Some((r, g, b)));
    }
}

#[test]
fn hex_colors_are_lowercase_two_digit() {
    assert_eq!(hex_color(100, 150, 255), "#6496ff");
    assert_eq!(hex_color(128, 128, 128), "#808080");
    assert_eq!(hex_color(0, 10, 171), "#000aab");
}

#[test]
fn hex_input_to_rgb_text() {
    assert_eq!(hex_to_rgb_string("#6496ff"), Some("100,150,255".to_string()));
    assert_eq!(hex_to_rgb_string("#6496FF"), Some("100,150,255".to_string()));
    assert_eq!(hex_to_rgb_string("#+f+f+f"), Some("15,15,15".to_string()));
    assert_eq!(hex_to_rgb_string("6496ff"), None);
    assert_eq!(hex_to_rgb_string("#6496f"), None);
    assert_eq!(hex_to_rgb_string("#6496fg"), None);
    assert_eq!(hex_to_rgb_string("#-1ffff"), None);
    assert_eq!(hex_to_rgb_string("#é1234"), None);
}

#[test]
fn picker_round_trip() {
    for (r, g, b) in [(0, 0, 0), (255, 1, 16), (100, 150, 255)] {
        let hex = hex_color(r, g, b);
        assert_eq!(hex_to_rgb_string(&hex), Some(format_rgb(r, g, b)));
    }
}

#[test]
fn picker_values_with_fallbacks() {
    assert_eq!(node_color_picker_value("1,2,3"), "#010203");
    assert_eq!(node_color_picker_value("nonsense"), "#6496ff");
    assert_eq!(connection_color_picker_value("nonsense"), "#808080");
    assert_eq!(color_picker_value("255,x,0,16", 1, 1, 1), "#ff0010");
    assert_eq!(swatch_style("249,115,22", 100, 150, 255), "background-color: rgb(249,115,22)");
    assert_eq!(swatch_style("bad", 128, 128, 128), "background-color: rgb(128,128,128)");
}

#[test]
fn node_type_colors() {
    assert_eq!(node_type_color("router"), rgba(255, 140, 60, 255));
    assert_eq!(node_type_color("ROUTER"), rgba(255, 140, 60, 255));
    assert_eq!(node_type_color("Switch"), rgba(80, 200, 120, 255));
    assert_eq!(node_type_color("server"), rgba(70, 140, 255, 255));
    assert_eq!(node_type_color("firewall"), rgba(220, 60, 60, 255));
    assert_eq!(node_type_color("Load_Balancer"), rgba(180, 100, 200, 255));
    assert_eq!(node_type_color("host"), rgba(150, 150, 150, 255));
    assert_eq!(node_type_color("client"), rgba(150, 150, 150, 255));
    assert_eq!(node_type_color("cloud"), rgba(120, 120, 120, 255));
}

#[test]
fn draw_colors_prefer_stored_color() {
    assert_eq!(node_draw_color("1,2,3", "router"), rgba(1, 2, 3, 255));
    assert_eq!(node_draw_color("1,2", "router"), rgba(255, 140, 60, 255));
    assert_eq!(connection_draw_color("10,20,30"), rgba(10, 20, 30, 255));
    assert_eq!(connection_draw_color("oops"), rgba(128, 128, 128, 255));
    assert_eq!(selected_node_color(), rgba(255, 200, 50, 255));
    assert_eq!(selected_connection_color(), rgba(255, 200, 0, 255));
}

#[test]
fn picker_hex_round_trip() {
    let stored = hex_to_rgb_string("#1a2b3c").unwrap();
    assert_eq!(stored, "26,43,60");
    assert_eq!(node_color_picker_value(&stored), "#1a2b3c");
    assert_eq!(connection_color_picker_value(&stored), "#1a2b3c");
    let stored = hex_to_rgb_string("#ff00a0").unwrap();
    assert_eq!(color_picker_value(&stored, 1, 2, 3), "#ff00a0");
}
