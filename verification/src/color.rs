use vstd::prelude::*;
use vstd::string::StringSliceAdditionalSpecFns;
use vstd::utf8::{encode_utf8, is_continuation_byte};
use crate::text::{
    all_ascii, ascii_lowercase,
    chars_of, decimal, parse_u8_range, parse_u8_spec, push_char, push_str, u64_to_decimal,
    unicode_lowercase, to_lowercase,
};

verus! {

// ---------------------------------------------------------------------------
// Splitting on a separator (the pieces `str::split(sep)` yields)
// ---------------------------------------------------------------------------

/// The pieces of `s` between occurrences of `sep`; there is always at least one
/// (`""` gives one empty piece, `"a,"` gives `"a"` and an empty piece).
pub open spec fn split_on(s: Seq<char>, sep: char) -> Seq<Seq<char>>
    decreases s.len(),
{
    if s.len() == 0 {
        seq![seq![]]
    } else {
        let p = split_on(s.drop_last(), sep);
        if s.last() == sep {
            p.push(seq![])
        } else {
            p.update(p.len() - 1, p.last().push(s.last()))
        }
    }
}

proof fn lemma_split_nonempty(s: Seq<char>, sep: char)
    ensures
        split_on(s, sep).len() >= 1,
    decreases s.len(),
{
    if s.len() > 0 {
        lemma_split_nonempty(s.drop_last(), sep);
    }
}

/// The comma-separated pieces of `v`, as index ranges into `v`.
fn comma_pieces(v: &Vec<char>) -> (ranges: Vec<(usize, usize)>)
    ensures
        ranges.len() == split_on(v@, ',').len(),
        forall|k: int|
            0 <= k < ranges.len() ==> {
                &&& (#[trigger] ranges@[k]).0 <= ranges@[k].1 <= v.len()
                &&& v@.subrange(ranges@[k].0 as int, ranges@[k].1 as int) == split_on(v@, ',')[k]
            },
{
    let mut ranges: Vec<(usize, usize)> = Vec::new();
    let mut start: usize = 0;
    let mut i: usize = 0;
    proof { assert(v@.take(0) =~= seq![]); }
    while i < v.len()
        invariant
            start <= i <= v.len(),
            split_on(v@.take(i as int), ',').len() == ranges.len() + 1,
            forall|k: int|
                0 <= k < ranges.len() ==> {
                    &&& (#[trigger] ranges@[k]).0 <= ranges@[k].1 <= v.len()
                    &&& v@.subrange(ranges@[k].0 as int, ranges@[k].1 as int) == split_on(
                        v@.take(i as int),
                        ',',
                    )[k]
                },
            split_on(v@.take(i as int), ',').last() == v@.subrange(start as int, i as int),
        decreases v.len() - i,
    {
        let ghost p = split_on(v@.take(i as int), ',');
        proof {
            assert(v@.take(i + 1).drop_last() =~= v@.take(i as int));
            assert(v@.take(i + 1).last() == v@[i as int]);
        }
        if v[i] == ',' {
            let ghost before = ranges@;
            ranges.push((start, i));
            proof {
                let q = split_on(v@.take(i + 1), ',');
                assert(q == p.push(seq![]));
                assert forall|k: int| 0 <= k < ranges.len() implies {
                    &&& (#[trigger] ranges@[k]).0 <= ranges@[k].1 <= v.len()
                    &&& v@.subrange(ranges@[k].0 as int, ranges@[k].1 as int) == q[k]
                } by {
                    if k < before.len() {
                        assert(ranges@[k] == before[k]);
                    } else {
                        assert(q[k] == p.last());
                    }
                }
                assert(v@.subrange((i + 1) as int, (i + 1) as int) =~= seq![]);
            }
            start = i + 1;
        } else {
            proof {
                let q = split_on(v@.take(i + 1), ',');
                assert(q == p.update(p.len() - 1, p.last().push(v@[i as int])));
                assert(v@.subrange(start as int, i + 1) =~= v@.subrange(start as int, i as int).push(
                    v@[i as int],
                ));
                assert forall|k: int| 0 <= k < ranges.len() implies {
                    &&& (#[trigger] ranges@[k]).0 <= ranges@[k].1 <= v.len()
                    &&& v@.subrange(ranges@[k].0 as int, ranges@[k].1 as int) == q[k]
                } by {
                    assert(q[k] == p[k]);
                }
            }
        }
        i = i + 1;
    }
    proof { assert(v@.take(v.len() as int) =~= v@); }
    let ghost before = ranges@;
    ranges.push((start, v.len()));
    proof {
        let p = split_on(v@, ',');
        assert forall|k: int| 0 <= k < ranges.len() implies {
            &&& (#[trigger] ranges@[k]).0 <= ranges@[k].1 <= v.len()
            &&& v@.subrange(ranges@[k].0 as int, ranges@[k].1 as int) == p[k]
        } by {
            if k < before.len() {
                assert(ranges@[k] == before[k]);
            }
        }
    }
    ranges
}

} // verus!

verus! {

// ---------------------------------------------------------------------------
// "R,G,B" colour strings
// ---------------------------------------------------------------------------

/// A colour as stored in the database, `"R,G,B"` with decimal components.
pub open spec fn format_rgb_spec(r: u8, g: u8, b: u8) -> Seq<char> {
    decimal(r as nat) + seq![','] + decimal(g as nat) + seq![','] + decimal(b as nat)
}

/// Strict reading of an `"R,G,B"` string: exactly three comma-separated pieces,
/// each a valid `u8` (the reading used when drawing nodes and connections).
pub open spec fn parse_rgb_spec(s: Seq<char>) -> Option<(u8, u8, u8)> {
    let p = split_on(s, ',');
    if p.len() == 3 && parse_u8_spec(p[0]) is Some && parse_u8_spec(p[1]) is Some
        && parse_u8_spec(p[2]) is Some {
        Some((parse_u8_spec(p[0])->0, parse_u8_spec(p[1])->0, parse_u8_spec(p[2])->0))
    } else {
        None
    }
}

/// The pieces that parse as `u8`, in order (pieces that do not parse are dropped).
pub open spec fn parsed_pieces(p: Seq<Seq<char>>) -> Seq<u8>
    decreases p.len(),
{
    if p.len() == 0 {
        seq![]
    } else {
        let prev = parsed_pieces(p.drop_last());
        match parse_u8_spec(p.last()) {
            Some(x) => prev.push(x),
            None => prev,
        }
    }
}

/// Lenient reading used by the colour picker: the comma-separated pieces that
/// parse as `u8` are kept, and a colour results when exactly three are kept.
pub open spec fn parse_rgb_lenient_spec(s: Seq<char>) -> Option<(u8, u8, u8)> {
    let vals = parsed_pieces(split_on(s, ','));
    if vals.len() == 3 {
        Some((vals[0], vals[1], vals[2]))
    } else {
        None
    }
}

/// Reads an `"R,G,B"` colour strictly: three comma-separated `u8` values.
pub fn parse_rgb(s: &str) -> (r: Option<(u8, u8, u8)>)
    ensures
        r == parse_rgb_spec(s@),
{
    let v = chars_of(s);
    let ranges = comma_pieces(&v);
    if ranges.len() != 3 {
        return None;
    }
    let a = parse_u8_range(&v, ranges[0].0, ranges[0].1);
    let b = parse_u8_range(&v, ranges[1].0, ranges[1].1);
    let c = parse_u8_range(&v, ranges[2].0, ranges[2].1);
    match (a, b, c) {
        (Some(x), Some(y), Some(z)) => Some((x, y, z)),
        _ => None,
    }
}

/// Reads an `"R,G,B"` colour leniently: the pieces that parse as `u8` are kept,
/// and a colour results when exactly three are kept.
pub fn parse_rgb_lenient(s: &str) -> (r: Option<(u8, u8, u8)>)
    ensures
        r == parse_rgb_lenient_spec(s@),
{
    let v = chars_of(s);
    let ranges = comma_pieces(&v);
    let ghost pieces = split_on(v@, ',');
    let mut vals: Vec<u8> = Vec::new();
    let mut k: usize = 0;
    proof { assert(pieces.take(0) =~= seq![]); }
    while k < ranges.len()
        invariant
            k <= ranges.len() == pieces.len(),
            pieces == split_on(v@, ','),
            forall|j: int|
                0 <= j < ranges.len() ==> {
                    &&& (#[trigger] ranges@[j]).0 <= ranges@[j].1 <= v.len()
                    &&& v@.subrange(ranges@[j].0 as int, ranges@[j].1 as int) == pieces[j]
                },
            vals@ == parsed_pieces(pieces.take(k as int)),
        decreases ranges.len() - k,
    {
        let (lo, hi) = ranges[k];
        proof {
            assert(pieces.take(k + 1).drop_last() =~= pieces.take(k as int));
            assert(pieces.take(k + 1).last() == pieces[k as int]);
            assert(v@.subrange(lo as int, hi as int) == pieces[k as int]);
        }
        match parse_u8_range(&v, lo, hi) {
            Some(x) => vals.push(x),
            None => {},
        }
        k = k + 1;
    }
    proof { assert(pieces.take(ranges.len() as int) =~= pieces); }
    if vals.len() == 3 {
        Some((vals[0], vals[1], vals[2]))
    } else {
        None
    }
}

/// Writes a colour as `"R,G,B"`.
pub fn format_rgb(r: u8, g: u8, b: u8) -> (s: String)
    ensures
        s@ == format_rgb_spec(r, g, b),
{
    let mut s = u64_to_decimal(r as u64);
    push_char(&mut s, ',');
    let gs = u64_to_decimal(g as u64);
    push_str(&mut s, gs.as_str());
    push_char(&mut s, ',');
    let bs = u64_to_decimal(b as u64);
    push_str(&mut s, bs.as_str());
    s
}

// ---------------------------------------------------------------------------
// "#rrggbb" strings of the colour picker
// ---------------------------------------------------------------------------

/// Lowercase hexadecimal digit for `d < 16`.
pub open spec fn hex_digit(d: nat) -> char {
    if d < 10 {
        (48 + d) as char
    } else {
        (87 + d) as char
    }
}

/// Two lowercase hex digits (`{:02x}`).
pub open spec fn hex_byte(b: u8) -> Seq<char> {
    seq![hex_digit((b / 16) as nat), hex_digit((b % 16) as nat)]
}

/// `#rrggbb` in lowercase hex.
pub open spec fn hex_color_spec(r: u8, g: u8, b: u8) -> Seq<char> {
    seq!['#'] + hex_byte(r) + hex_byte(g) + hex_byte(b)
}

fn hex_digit_exec(d: u8) -> (c: char)
    requires
        d < 16,
    ensures
        c == hex_digit(d as nat),
{
    if d < 10 {
        (48u8 + d) as char
    } else {
        (87u8 + d) as char
    }
}

/// Writes a colour as `#rrggbb` (lowercase hex).
pub fn hex_color(r: u8, g: u8, b: u8) -> (s: String)
    ensures
        s@ == hex_color_spec(r, g, b),
{
    let mut s = String::new();
    push_char(&mut s, '#');
    push_char(&mut s, hex_digit_exec(r / 16));
    push_char(&mut s, hex_digit_exec(r % 16));
    push_char(&mut s, hex_digit_exec(g / 16));
    push_char(&mut s, hex_digit_exec(g % 16));
    push_char(&mut s, hex_digit_exec(b / 16));
    push_char(&mut s, hex_digit_exec(b % 16));
    proof {
        assert(s@ =~= hex_color_spec(r, g, b));
    }
    s
}

/// The value of a hexadecimal digit byte (`0-9`, `a-f`, `A-F`).
pub open spec fn hex_value(c: u8) -> Option<u8> {
    if 48 <= c && c <= 57 {
        Some((c - 48) as u8)
    } else if 97 <= c && c <= 102 {
        Some((c - 87) as u8)
    } else if 65 <= c && c <= 70 {
        Some((c - 55) as u8)
    } else {
        None
    }
}

/// What `u8::from_str_radix(_, 16)` gives for a two-byte text: a `+` followed by
/// one digit, or two digits.
pub open spec fn parse_hex_pair(b0: u8, b1: u8) -> Option<u8> {
    if b0 == 43 {
        hex_value(b1)
    } else {
        match (hex_value(b0), hex_value(b1)) {
            (Some(x), Some(y)) => Some((x * 16 + y) as u8),
            _ => None,
        }
    }
}

/// The colour a `#rrggbb` picker value stands for, over the UTF-8 bytes of the
/// value: `#` followed by six bytes read as three hex pairs.
pub open spec fn parse_hex_color_spec(bytes: Seq<u8>) -> Option<(u8, u8, u8)> {
    if bytes.len() == 7 && bytes[0] == 35 && parse_hex_pair(bytes[1], bytes[2]) is Some
        && parse_hex_pair(bytes[3], bytes[4]) is Some && parse_hex_pair(bytes[5], bytes[6]) is Some {
        Some(
            (
                parse_hex_pair(bytes[1], bytes[2])->0,
                parse_hex_pair(bytes[3], bytes[4])->0,
                parse_hex_pair(bytes[5], bytes[6])->0,
            ),
        )
    } else {
        None
    }
}

/// A picker value on which slicing it into hex pairs would cut a character
/// apart: `#` and seven bytes with byte 3 or 5 inside a multi-byte character.
pub open spec fn hex_value_splits_char(bytes: Seq<u8>) -> bool {
    bytes.len() == 7 && bytes[0] == 35 && (is_continuation_byte(bytes[3]) || is_continuation_byte(
        bytes[5],
    ))
}

fn hex_value_exec(c: u8) -> (r: Option<u8>)
    ensures
        r == hex_value(c),
{
    if 48 <= c && c <= 57 {
        Some(c - 48)
    } else if 97 <= c && c <= 102 {
        Some(c - 87)
    } else if 65 <= c && c <= 70 {
        Some(c - 55)
    } else {
        None
    }
}

fn parse_hex_pair_exec(b0: u8, b1: u8) -> (r: Option<u8>)
    ensures
        r == parse_hex_pair(b0, b1),
{
    if b0 == 43 {
        hex_value_exec(b1)
    } else {
        match (hex_value_exec(b0), hex_value_exec(b1)) {
            (Some(x), Some(y)) => Some(x * 16 + y),
            _ => None,
        }
    }
}

/// Turns a colour picker value `#rrggbb` into the stored `"R,G,B"` form; other
/// values give `None` and leave the colour as it was.
pub fn hex_to_rgb_string(hex: &str) -> (r: Option<String>)
    requires
        !hex_value_splits_char(hex.spec_bytes()),
    ensures
        r matches Some(s) ==> parse_hex_color_spec(hex.spec_bytes()) matches Some(c) && s@
            == format_rgb_spec(c.0, c.1, c.2),
        r is None ==> parse_hex_color_spec(hex.spec_bytes()) is None,
{
    let b = hex.as_bytes();
    if b.len() == 7 && b[0] == 35 {
        let x = parse_hex_pair_exec(b[1], b[2]);
        let y = parse_hex_pair_exec(b[3], b[4]);
        let z = parse_hex_pair_exec(b[5], b[6]);
        match (x, y, z) {
            (Some(r), Some(g), Some(bl)) => Some(format_rgb(r, g, bl)),
            _ => None,
        }
    } else {
        None
    }
}

} // verus!

verus! {

// ---------------------------------------------------------------------------
// Colours used when drawing the topology
// ---------------------------------------------------------------------------

/// An sRGB colour with alpha.
#[derive(Clone, Copy, Debug, PartialEq, Eq, Structural)]
pub struct Rgba {
    pub r: u8,
    pub g: u8,
    pub b: u8,
    pub a: u8,
}

pub open spec fn rgba(r: u8, g: u8, b: u8, a: u8) -> Rgba {
    Rgba { r, g, b, a }
}

/// The colour of a node type, given the lowercased type name.
pub open spec fn type_color_spec(lower: Seq<char>) -> Rgba {
    if lower == "router"@ {
        rgba(255, 140, 60, 255)
    } else if lower == "switch"@ {
        rgba(80, 200, 120, 255)
    } else if lower == "server"@ {
        rgba(70, 140, 255, 255)
    } else if lower == "firewall"@ {
        rgba(220, 60, 60, 255)
    } else if lower == "load_balancer"@ {
        rgba(180, 100, 200, 255)
    } else if lower == "host"@ || lower == "client"@ {
        rgba(150, 150, 150, 255)
    } else {
        rgba(120, 120, 120, 255)
    }
}

/// The colour of a node type (case-insensitive; unknown types are dark gray).
pub fn node_type_color(node_type: &str) -> (c: Rgba)
    ensures
        c == type_color_spec(unicode_lowercase(node_type@)),
        all_ascii(node_type@) ==> c == type_color_spec(ascii_lowercase(node_type@)),
{
    let lower = to_lowercase(node_type);
    let l = lower.as_str();
    if crate::text::str_eq(l, "router") {
        Rgba { r: 255, g: 140, b: 60, a: 255 }
    } else if crate::text::str_eq(l, "switch") {
        Rgba { r: 80, g: 200, b: 120, a: 255 }
    } else if crate::text::str_eq(l, "server") {
        Rgba { r: 70, g: 140, b: 255, a: 255 }
    } else if crate::text::str_eq(l, "firewall") {
        Rgba { r: 220, g: 60, b: 60, a: 255 }
    } else if crate::text::str_eq(l, "load_balancer") {
        Rgba { r: 180, g: 100, b: 200, a: 255 }
    } else if crate::text::str_eq(l, "host") || crate::text::str_eq(l, "client") {
        Rgba { r: 150, g: 150, b: 150, a: 255 }
    } else {
        Rgba { r: 120, g: 120, b: 120, a: 255 }
    }
}

/// The colour a node is drawn with: its stored `"R,G,B"` colour when that reads
/// strictly, otherwise the colour of its type; always opaque.
pub open spec fn node_draw_color_spec(color: Seq<char>, node_type: Seq<char>) -> Rgba {
    match parse_rgb_spec(color) {
        Some(c) => rgba(c.0, c.1, c.2, 255),
        None => type_color_spec(unicode_lowercase(node_type)),
    }
}

/// The colour a node is drawn with.
pub fn node_draw_color(color: &str, node_type: &str) -> (c: Rgba)
    ensures
        c == node_draw_color_spec(color@, node_type@),
        all_ascii(node_type@) ==> c == match parse_rgb_spec(color@) {
            Some(x) => rgba(x.0, x.1, x.2, 255),
            None => type_color_spec(ascii_lowercase(node_type@)),
        },
{
    match parse_rgb(color) {
        Some((r, g, b)) => Rgba { r, g, b, a: 255 },
        None => node_type_color(node_type),
    }
}

/// The colour a connection is drawn with: its stored `"R,G,B"` colour when that
/// reads strictly, otherwise gray; always opaque.
pub open spec fn connection_draw_color_spec(color: Seq<char>) -> Rgba {
    match parse_rgb_spec(color) {
        Some(c) => rgba(c.0, c.1, c.2, 255),
        None => rgba(128, 128, 128, 255),
    }
}

/// The colour a connection is drawn with.
pub fn connection_draw_color(color: &str) -> (c: Rgba)
    ensures
        c == connection_draw_color_spec(color@),
{
    match parse_rgb(color) {
        Some((r, g, b)) => Rgba { r, g, b, a: 255 },
        None => Rgba { r: 128, g: 128, b: 128, a: 255 },
    }
}

/// The colour a selected node is drawn with.
pub fn selected_node_color() -> (c: Rgba)
    ensures
        c == rgba(255, 200, 50, 255),
{
    Rgba { r: 255, g: 200, b: 50, a: 255 }
}

/// The colour a selected connection is drawn with.
pub fn selected_connection_color() -> (c: Rgba)
    ensures
        c == rgba(255, 200, 0, 255),
{
    Rgba { r: 255, g: 200, b: 0, a: 255 }
}

// ---------------------------------------------------------------------------
// Colour controls of the properties panel
// ---------------------------------------------------------------------------

/// The colour read leniently from `"R,G,B"`, or the fallback.
pub open spec fn lenient_or(s: Seq<char>, fr: u8, fg: u8, fb: u8) -> (u8, u8, u8) {
    match parse_rgb_lenient_spec(s) {
        Some(c) => c,
        None => (fr, fg, fb),
    }
}

/// The value shown by the colour picker for a stored colour: `#rrggbb` of the
/// colour read leniently, or of the fallback.
pub fn color_picker_value(color: &str, fr: u8, fg: u8, fb: u8) -> (s: String)
    ensures
        s@ == ({
            let c = lenient_or(color@, fr, fg, fb);
            hex_color_spec(c.0, c.1, c.2)
        }),
{
    match parse_rgb_lenient(color) {
        Some((r, g, b)) => hex_color(r, g, b),
        None => hex_color(fr, fg, fb),
    }
}

/// The colour picker value for a node colour (blue `#6496ff` when unreadable).
pub fn node_color_picker_value(color: &str) -> (s: String)
    ensures
        s@ == ({
            let c = lenient_or(color@, 100, 150, 255);
            hex_color_spec(c.0, c.1, c.2)
        }),
{
    color_picker_value(color, 100, 150, 255)
}

/// The colour picker value for a connection colour (gray `#808080` when unreadable).
pub fn connection_color_picker_value(color: &str) -> (s: String)
    ensures
        s@ == ({
            let c = lenient_or(color@, 128, 128, 128);
            hex_color_spec(c.0, c.1, c.2)
        }),
{
    color_picker_value(color, 128, 128, 128)
}

/// The CSS of a colour swatch: `background-color: rgb(R,G,B)` of the colour
/// read leniently, or of the fallback.
pub fn swatch_style(color: &str, fr: u8, fg: u8, fb: u8) -> (s: String)
    ensures
        s@ == ({
            let c = lenient_or(color@, fr, fg, fb);
            "background-color: rgb("@ + format_rgb_spec(c.0, c.1, c.2) + ")"@
        }),
{
    let (r, g, b) = match parse_rgb_lenient(color) {
        Some(c) => c,
        None => (fr, fg, fb),
    };
    let mut s = "background-color: rgb(".to_owned();
    let body = format_rgb(r, g, b);
    push_str(&mut s, body.as_str());
    push_str(&mut s, ")");
    s
}

} // verus!

verus! {

// ---------------------------------------------------------------------------
// Laws of the colour formats
// ---------------------------------------------------------------------------

proof fn lemma_decimal_digits(n: nat)
    ensures
        decimal(n).len() > 0,
        crate::text::all_ascii_digits(decimal(n)),
        crate::text::digits_value(decimal(n)) == n,
    decreases n,
{
    assert((crate::text::digit_char(n % 10) as u32) == 48 + n % 10);
    if n < 10 {
        assert(decimal(n).drop_last() =~= Seq::<char>::empty());
        assert(crate::text::digits_value(Seq::<char>::empty()) == 0);
        assert(decimal(n).last() == crate::text::digit_char(n));
    }
    if n >= 10 {
        lemma_decimal_digits(n / 10);
        let p = decimal(n / 10);
        let d = decimal(n);
        assert(d.drop_last() =~= p);
        assert(d.last() == crate::text::digit_char(n % 10));
        assert(crate::text::digits_value(d) == crate::text::digits_value(p) * 10 + n % 10);
        assert((n / 10) * 10 + n % 10 == n);
        assert forall|i: int| 0 <= i < d.len() implies #[trigger] crate::text::is_ascii_digit(d[i]) by {
            if i < p.len() {
                assert(d[i] == p[i]);
            }
        }
    }
}

proof fn lemma_parse_decimal(n: u8)
    ensures
        parse_u8_spec(decimal(n as nat)) == Some(n),
        forall|i: int| 0 <= i < decimal(n as nat).len() ==> #[trigger] decimal(n as nat)[i] != ',',
{
    lemma_decimal_digits(n as nat);
    let d = decimal(n as nat);
    assert(crate::text::is_ascii_digit(d[0]));
    assert(crate::text::unsigned_digits(d) == d);
    assert forall|i: int| 0 <= i < d.len() implies #[trigger] d[i] != ',' by {
        assert(crate::text::is_ascii_digit(d[i]));
    }
}

proof fn lemma_split_append(s: Seq<char>, t: Seq<char>, sep: char)
    requires
        forall|i: int| 0 <= i < t.len() ==> #[trigger] t[i] != sep,
    ensures
        split_on(s + t, sep) == split_on(s, sep).update(
            split_on(s, sep).len() - 1,
            split_on(s, sep).last() + t,
        ),
    decreases t.len(),
{
    lemma_split_nonempty(s, sep);
    if t.len() == 0 {
        assert(s + t =~= s);
        assert(split_on(s, sep).last() + t =~= split_on(s, sep).last());
        assert(split_on(s, sep).update(split_on(s, sep).len() - 1, split_on(s, sep).last())
            =~= split_on(s, sep));
    } else {
        let t0 = t.drop_last();
        let c = t.last();
        assert forall|i: int| 0 <= i < t0.len() implies #[trigger] t0[i] != sep by {
            assert(t0[i] == t[i]);
        }
        lemma_split_append(s, t0, sep);
        assert((s + t).drop_last() =~= s + t0);
        assert((s + t).last() == c);
        let p = split_on(s, sep);
        let q = split_on(s + t0, sep);
        assert(q.len() == p.len());
        assert(q.last() == p.last() + t0);
        assert((p.last() + t0).push(c) =~= p.last() + t);
        assert(split_on(s + t, sep) =~= p.update(p.len() - 1, p.last() + t));
    }
}

proof fn lemma_split_three(a: Seq<char>, b: Seq<char>, c: Seq<char>)
    requires
        forall|i: int| 0 <= i < a.len() ==> #[trigger] a[i] != ',',
        forall|i: int| 0 <= i < b.len() ==> #[trigger] b[i] != ',',
        forall|i: int| 0 <= i < c.len() ==> #[trigger] c[i] != ',',
    ensures
        split_on(a + seq![','] + b + seq![','] + c, ',') == seq![a, b, c],
{
    let e: Seq<char> = seq![];
    lemma_split_append(e, a, ',');
    assert(e + a =~= a);
    assert(split_on(e, ',') =~= seq![e]);
    assert(split_on(a, ',') =~= seq![a]);
    let a1 = a + seq![','];
    assert(a1.drop_last() =~= a);
    assert(split_on(a1, ',') =~= seq![a, e]);
    lemma_split_append(a1, b, ',');
    assert(split_on(a1 + b, ',') =~= seq![a, b]);
    let b1 = a1 + b + seq![','];
    assert(b1.drop_last() =~= a1 + b);
    assert(split_on(b1, ',') =~= seq![a, b, e]);
    lemma_split_append(b1, c, ',');
    assert(split_on(b1 + c, ',') =~= seq![a, b, c]);
}

/// Law: a colour written as `"R,G,B"` reads back as the same colour, both
/// strictly (drawing) and leniently (colour picker).
pub proof fn law_rgb_text_round_trip(r: u8, g: u8, b: u8)
    ensures
        parse_rgb_spec(format_rgb_spec(r, g, b)) == Some((r, g, b)),
        parse_rgb_lenient_spec(format_rgb_spec(r, g, b)) == Some((r, g, b)),
{
    lemma_parse_decimal(r);
    lemma_parse_decimal(g);
    lemma_parse_decimal(b);
    let (dr, dg, db) = (decimal(r as nat), decimal(g as nat), decimal(b as nat));
    lemma_split_three(dr, dg, db);
    let p = seq![dr, dg, db];
    assert(format_rgb_spec(r, g, b) == dr + seq![','] + dg + seq![','] + db);
    assert(p.drop_last() =~= seq![dr, dg]);
    assert(seq![dr, dg].drop_last() =~= seq![dr]);
    assert(seq![dr].drop_last() =~= Seq::<Seq<char>>::empty());
    assert(seq![dr].last() == dr);
    assert(seq![dr, dg].last() == dg);
    assert(p.last() == db);
    assert(parsed_pieces(Seq::<Seq<char>>::empty()) =~= Seq::<u8>::empty());
    assert(parsed_pieces(seq![dr]) =~= seq![r]);
    assert(parsed_pieces(seq![dr, dg]) =~= seq![r, g]);
    assert(parsed_pieces(p) =~= seq![r, g, b]);
}

proof fn lemma_hex_pair(v: u8)
    ensures
        parse_hex_pair(hex_digit((v / 16) as nat) as u8, hex_digit((v % 16) as nat) as u8) == Some(v),
{
    let hi = (v / 16) as nat;
    let lo = (v % 16) as nat;
    assert(hex_value(hex_digit(hi) as u8) == Some(hi as u8));
    assert(hex_value(hex_digit(lo) as u8) == Some(lo as u8));
    assert(hex_digit(hi) as u8 != 43);
}

/// Law: the colour picker value of a colour reads back as that colour, so
/// picking it again stores `"R,G,B"` of the same colour.
pub proof fn law_hex_round_trip(r: u8, g: u8, b: u8)
    ensures
        parse_hex_color_spec(encode_utf8(hex_color_spec(r, g, b))) == Some((r, g, b)),
        !hex_value_splits_char(encode_utf8(hex_color_spec(r, g, b))),
{
    let h = hex_color_spec(r, g, b);
    assert(vstd::utf8::is_ascii_chars(h)) by {
        assert forall|i: int| 0 <= i < h.len() implies '\0' <= #[trigger] h[i] <= '\u{7f}' by {
            assert(h[i] as u32 <= 102);
        }
    }
    vstd::utf8::is_ascii_chars_encode_utf8(h);
    let e = encode_utf8(h);
    assert(e.len() == 7);
    assert(e[0] == h[0] as u8);
    assert(e[1] == h[1] as u8 && e[2] == h[2] as u8);
    assert(e[3] == h[3] as u8 && e[4] == h[4] as u8);
    assert(e[5] == h[5] as u8 && e[6] == h[6] as u8);
    lemma_hex_pair(r);
    lemma_hex_pair(g);
    lemma_hex_pair(b);
    assert(!is_continuation_byte(e[3]));
    assert(!is_continuation_byte(e[5]));
}


/// A lowercase hexadecimal digit: `0`-`9` or `a`-`f`.
pub open spec fn is_lower_hex_digit(c: char) -> bool {
    ('0' <= c && c <= '9') || ('a' <= c && c <= 'f')
}

/// A colour picker value in its usual form: `#` and six lowercase hex digits.
pub open spec fn is_lower_hex_color(s: Seq<char>) -> bool {
    &&& s.len() == 7
    &&& s[0] == '#'
    &&& forall|i: int| 1 <= i < 7 ==> is_lower_hex_digit(#[trigger] s[i])
}

proof fn lemma_lower_hex_pair(d1: char, d2: char)
    requires
        is_lower_hex_digit(d1),
        is_lower_hex_digit(d2),
    ensures
        parse_hex_pair(d1 as u8, d2 as u8) matches Some(v) && hex_byte(v) == seq![d1, d2],
{
    let x = hex_value(d1 as u8)->0;
    let y = hex_value(d2 as u8)->0;
    assert(hex_value(d1 as u8) is Some);
    assert(hex_value(d2 as u8) is Some);
    assert(d1 as u8 != 43);
    let v = (x * 16 + y) as u8;
    assert(parse_hex_pair(d1 as u8, d2 as u8) == Some(v));
    assert(v / 16 == x && v % 16 == y);
    assert(hex_digit(x as nat) == d1);
    assert(hex_digit(y as nat) == d2);
    assert(hex_byte(v) =~= seq![d1, d2]);
}

/// Law: a colour picker value `#rrggbb` in lowercase hex is stored as the
/// `"R,G,B"` of its colour, and the picker shows that stored colour as the same
/// `#rrggbb` again (whatever its fallback colour).
pub proof fn law_picker_hex_round_trip(s: Seq<char>, fr: u8, fg: u8, fb: u8)
    requires
        is_lower_hex_color(s),
    ensures
        !hex_value_splits_char(encode_utf8(s)),
        parse_hex_color_spec(encode_utf8(s)) matches Some(c) && ({
            let shown = lenient_or(format_rgb_spec(c.0, c.1, c.2), fr, fg, fb);
            hex_color_spec(shown.0, shown.1, shown.2) == s
        }),
{
    assert(vstd::utf8::is_ascii_chars(s)) by {
        assert forall|i: int| 0 <= i < s.len() implies '\0' <= #[trigger] s[i] <= '\u{7f}' by {
            if i > 0 {
                assert(is_lower_hex_digit(s[i]));
            }
        }
    }
    vstd::utf8::is_ascii_chars_encode_utf8(s);
    let e = encode_utf8(s);
    assert(e.len() == 7);
    assert(e[0] == s[0] as u8);
    assert(e[1] == s[1] as u8 && e[2] == s[2] as u8);
    assert(e[3] == s[3] as u8 && e[4] == s[4] as u8);
    assert(e[5] == s[5] as u8 && e[6] == s[6] as u8);
    assert(is_lower_hex_digit(s[1]) && is_lower_hex_digit(s[2]));
    assert(is_lower_hex_digit(s[3]) && is_lower_hex_digit(s[4]));
    assert(is_lower_hex_digit(s[5]) && is_lower_hex_digit(s[6]));
    lemma_lower_hex_pair(s[1], s[2]);
    lemma_lower_hex_pair(s[3], s[4]);
    lemma_lower_hex_pair(s[5], s[6]);
    let r = parse_hex_pair(e[1], e[2])->0;
    let g = parse_hex_pair(e[3], e[4])->0;
    let b = parse_hex_pair(e[5], e[6])->0;
    assert(parse_hex_color_spec(e) == Some((r, g, b)));
    law_rgb_text_round_trip(r, g, b);
    assert(lenient_or(format_rgb_spec(r, g, b), fr, fg, fb) == (r, g, b));
    assert(hex_color_spec(r, g, b) =~= s);
    assert(!is_continuation_byte(e[3]));
    assert(!is_continuation_byte(e[5]));
}

} // verus!
