//! Terminal colors and their `#rrggbb` text form, as themes write them.
use crate::text::push_char;
use vstd::prelude::*;

verus! {

/// A terminal color: one of the named colors, an RGB color or an ANSI palette index.
#[derive(Debug, Clone, Copy, PartialEq, Eq, Structural)]
pub enum Color {
    Reset,
    Black,
    DarkGrey,
    Red,
    DarkRed,
    Green,
    DarkGreen,
    Yellow,
    DarkYellow,
    Blue,
    DarkBlue,
    Magenta,
    DarkMagenta,
    Cyan,
    DarkCyan,
    White,
    Grey,
    Rgb { r: u8, g: u8, b: u8 },
    AnsiValue(u8),
}

/// The value of a hexadecimal digit byte (`0-9`, `a-f`, `A-F`).
pub open spec fn hex_value(b: u8) -> Option<u8> {
    if 48 <= b <= 57 {
        Some((b - 48) as u8)
    } else if 97 <= b <= 102 {
        Some((b - 87) as u8)
    } else if 65 <= b <= 70 {
        Some((b - 55) as u8)
    } else {
        None
    }
}

/// A two-byte field read as a base-16 `u8`, as `u8::from_str_radix(_, 16)` reads it:
/// two hex digits, or a `+` sign and one digit.
pub open spec fn hex_pair(b0: u8, b1: u8) -> Option<u8> {
    if b0 == 43 {
        hex_value(b1)
    } else {
        match (hex_value(b0), hex_value(b1)) {
            (Some(h), Some(l)) => Some((16 * h + l) as u8),
            _ => None,
        }
    }
}

/// The RGB components of the UTF-8 text `b` when it is `#` and three base-16 fields of
/// two bytes each.
pub open spec fn hex_rgb(b: Seq<u8>) -> Option<(u8, u8, u8)> {
    if b.len() == 7 && b[0] == 35 {
        match (hex_pair(b[1], b[2]), hex_pair(b[3], b[4]), hex_pair(b[5], b[6])) {
            (Some(r), Some(g), Some(bl)) => Some((r, g, bl)),
            _ => None,
        }
    } else {
        None
    }
}

/// A byte that continues a multi-byte UTF-8 character.
pub open spec fn is_continuation(b: u8) -> bool {
    0x80 <= b < 0xc0
}

/// The three two-byte fields of a 7-byte text that starts with `#` each start at a
/// character boundary, so the text can be cut into them.
pub open spec fn hex_fields_cut_cleanly(s: Seq<char>) -> bool {
    let b = vstd::utf8::encode_utf8(s);
    b.len() == 7 && b[0] == 35 ==> !is_continuation(b[3]) && !is_continuation(b[5])
}

/// What a theme's color text stands for: `#rrggbb` in base 16, anything else white.
pub open spec fn parsed_color(s: Seq<char>) -> Color {
    match hex_rgb(vstd::utf8::encode_utf8(s)) {
        Some((r, g, b)) => Color::Rgb { r, g, b },
        None => Color::White,
    }
}

/// The lowercase hexadecimal digit of `d < 16`.
pub open spec fn hex_digit(d: u8) -> char {
    if d < 10 {
        (d + 48) as char
    } else {
        (d + 87) as char
    }
}

/// `v` as two lowercase hexadecimal digits.
pub open spec fn hex_byte(v: u8) -> Seq<char> {
    seq![hex_digit(v / 16), hex_digit(v % 16)]
}

/// `#rrggbb` for an RGB color.
pub open spec fn rgb_hex(r: u8, g: u8, b: u8) -> Seq<char> {
    seq!['#'] + hex_byte(r) + hex_byte(g) + hex_byte(b)
}

/// The text a color is stored as: its `#rrggbb`, and white's for a color that is not RGB.
pub open spec fn color_hex(c: Color) -> Seq<char> {
    match c {
        Color::Rgb { r, g, b } => rgb_hex(r, g, b),
        _ => rgb_hex(255, 255, 255),
    }
}

fn hex_value_of(b: u8) -> (v: Option<u8>)
    ensures
        v == hex_value(b),
{
    if 48 <= b && b <= 57 {
        Some(b - 48)
    } else if 97 <= b && b <= 102 {
        Some(b - 87)
    } else if 65 <= b && b <= 70 {
        Some(b - 55)
    } else {
        None
    }
}

fn hex_pair_of(b0: u8, b1: u8) -> (v: Option<u8>)
    ensures
        v == hex_pair(b0, b1),
{
    if b0 == 43 {
        return hex_value_of(b1);
    }
    match (hex_value_of(b0), hex_value_of(b1)) {
        (Some(h), Some(l)) => Some(16 * h + l),
        _ => None,
    }
}

/// The RGB components written in `s` as `#rrggbb`, if it is written so.
pub fn rgb_of_hex(s: &str) -> (v: Option<(u8, u8, u8)>)
    ensures
        v == hex_rgb(vstd::utf8::encode_utf8(s@)),
{
    let b = s.as_bytes();
    if b.len() != 7 || b[0] != 35 {
        return None;
    }
    match (hex_pair_of(b[1], b[2]), hex_pair_of(b[3], b[4]), hex_pair_of(b[5], b[6])) {
        (Some(r), Some(g), Some(bl)) => Some((r, g, bl)),
        _ => None,
    }
}

/// Parse a hex color string to a color; anything that is not `#rrggbb` is white.
pub fn parse_color(color_str: &str) -> (c: Color)
    requires
        hex_fields_cut_cleanly(color_str@),
    ensures
        c == parsed_color(color_str@),
{
    match rgb_of_hex(color_str) {
        Some((r, g, b)) => Color::Rgb { r, g, b },
        None => Color::White,
    }
}

fn hex_digit_of(d: u8) -> (c: char)
    requires
        d < 16,
    ensures
        c == hex_digit(d),
{
    if d < 10 {
        (d + 48) as char
    } else {
        (d + 87) as char
    }
}

fn push_hex_byte(s: &mut String, v: u8)
    ensures
        final(s)@ == old(s)@ + hex_byte(v),
{
    push_char(s, hex_digit_of(v / 16));
    push_char(s, hex_digit_of(v % 16));
    assert(final(s)@ =~= old(s)@ + hex_byte(v));
}

/// `#rrggbb` for an RGB color, in lowercase.
pub fn rgb_hex_string(r: u8, g: u8, b: u8) -> (s: String)
    ensures
        s@ == rgb_hex(r, g, b),
{
    let mut s = String::new();
    push_char(&mut s, '#');
    push_hex_byte(&mut s, r);
    push_hex_byte(&mut s, g);
    push_hex_byte(&mut s, b);
    assert(s@ =~= rgb_hex(r, g, b));
    s
}

/// The text a color is stored as (`#rrggbb`; white's for a color that is not RGB).
pub fn color_hex_string(color: Color) -> (s: String)
    ensures
        s@ == color_hex(color),
{
    match color {
        Color::Rgb { r, g, b } => rgb_hex_string(r, g, b),
        _ => rgb_hex_string(255, 255, 255),
    }
}

/// The digits of `hex_byte` read back give the byte.
proof fn lemma_hex_byte_reads_back(v: u8)
    ensures
        hex_value(hex_digit(v / 16) as u8) == Some((v / 16) as u8),
        hex_value(hex_digit(v % 16) as u8) == Some((v % 16) as u8),
        hex_digit(v / 16) as u8 != 43,
        hex_pair(hex_digit(v / 16) as u8, hex_digit(v % 16) as u8) == Some(v),
        !is_continuation(hex_digit(v / 16) as u8),
        '\0' <= hex_digit(v / 16) <= '\u{7f}',
        '\0' <= hex_digit(v % 16) <= '\u{7f}',
{
    assert(v / 16 < 16 && v % 16 < 16);
    assert(16 * (v / 16) + v % 16 == v);
}

/// A color written as text and parsed again is the color, for every RGB color; any
/// other color comes back white.
pub proof fn law_color_text_round_trip(c: Color)
    ensures
        hex_fields_cut_cleanly(color_hex(c)),
        parsed_color(color_hex(c)) == match c {
            Color::Rgb { .. } => c,
            _ => Color::Rgb { r: 255, g: 255, b: 255 },
        },
{
    let (r, g, b) = match c {
        Color::Rgb { r, g, b } => (r, g, b),
        _ => (255u8, 255u8, 255u8),
    };
    let s = rgb_hex(r, g, b);
    lemma_hex_byte_reads_back(r);
    lemma_hex_byte_reads_back(g);
    lemma_hex_byte_reads_back(b);
    assert(s.len() == 7);
    assert(s[0] == '#');
    assert(s[1] == hex_digit(r / 16) && s[2] == hex_digit(r % 16));
    assert(s[3] == hex_digit(g / 16) && s[4] == hex_digit(g % 16));
    assert(s[5] == hex_digit(b / 16) && s[6] == hex_digit(b % 16));
    assert(vstd::utf8::is_ascii_chars(s));
    vstd::utf8::is_ascii_chars_encode_utf8(s);
    let e = vstd::utf8::encode_utf8(s);
    assert(e[0] == s[0] as u8 && e[1] == s[1] as u8 && e[2] == s[2] as u8 && e[3] == s[3] as u8);
    assert(e[4] == s[4] as u8 && e[5] == s[5] as u8 && e[6] == s[6] as u8);
    assert(hex_rgb(e) == Some((r, g, b)));
}

} // verus!
