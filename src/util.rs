use vstd::prelude::*;
use vstd::utf8::{encode_utf8, valid_utf8};

use crate::bridge::utf8_string;
use crate::errors::{OResult, OpaqueError};

verus! {

/// The text of a file from its bytes; fails where they are not UTF-8.
pub fn read_file(bytes: Vec<u8>) -> (r: OResult<String>)
    ensures
        r is Ok <==> valid_utf8(bytes@),
        r is Ok ==> encode_utf8(r->Ok_0@) == bytes@,
        r is Err ==> r->Err_0@ == "stream did not contain valid UTF-8"@,
{
    match utf8_string(bytes) {
        Some(s) => Ok(s),
        None => Err(OpaqueError::new(String::from_str("stream did not contain valid UTF-8"))),
    }
}

/// An RGBA colour.
#[derive(Debug, Clone, Copy, PartialEq, Eq, Structural)]
pub struct Color {
    pub r: u8,
    pub g: u8,
    pub b: u8,
    pub a: u8,
}

/// The style a syntax highlighter gives to a span of code.
#[derive(Debug, Clone, Copy, PartialEq, Eq, Structural)]
pub struct TextStyle {
    pub underline: bool,
    pub bold: bool,
    pub italic: bool,
    pub foreground: Color,
}

/// The lower-case hexadecimal digits, by value.
pub open spec fn hex_digits() -> Seq<char> {
    "0123456789abcdef"@
}

/// Two lower-case hexadecimal digits of a byte.
pub open spec fn hex_byte(v: u8) -> Seq<char> {
    seq![hex_digits()[(v / 16) as int], hex_digits()[(v % 16) as int]]
}

/// CSS notation of a colour: `#rrggbb`, with `aa` added unless it is opaque.
pub open spec fn css_color(c: Color) -> Seq<char> {
    let rgb = seq!['#'] + hex_byte(c.r) + hex_byte(c.g) + hex_byte(c.b);
    if c.a != 0xFF {
        rgb + hex_byte(c.a)
    } else {
        rgb
    }
}

/// The inline `style` attribute of a highlighted span.
pub open spec fn style_attr(s: TextStyle) -> Seq<char> {
    (if s.underline { "text-decoration:underline;"@ } else { Seq::empty() })
        + (if s.bold { "font-weight:bold;"@ } else { Seq::empty() })
        + (if s.italic { "font-style:italic"@ } else { Seq::empty() })
        + "color:"@
        + css_color(s.foreground)
}

fn push_hex_byte(s: &mut String, v: u8)
    ensures
        final(s)@ == old(s)@ + hex_byte(v),
{
    let digits = "0123456789abcdef";
    proof {
        reveal_strlit("0123456789abcdef");
    }
    let hi = (v / 16) as usize;
    let lo = (v % 16) as usize;
    let ghost s0 = s@;
    s.append(digits.substring_char(hi, hi + 1));
    s.append(digits.substring_char(lo, lo + 1));
    proof {
        assert(s@ =~= s0 + hex_byte(v));
    }
}

/// Appends the CSS notation of a colour.
pub fn write_css_color(s: &mut String, c: Color)
    ensures
        final(s)@ == old(s)@ + css_color(c),
{
    let ghost s0 = s@;
    s.append("#");
    proof {
        reveal_strlit("#");
    }
    push_hex_byte(s, c.r);
    push_hex_byte(s, c.g);
    push_hex_byte(s, c.b);
    if c.a != 0xFF {
        push_hex_byte(s, c.a);
    }
    proof {
        let rgb = seq!['#'] + hex_byte(c.r) + hex_byte(c.g) + hex_byte(c.b);
        assert(s0.push('#') + hex_byte(c.r) + hex_byte(c.g) + hex_byte(c.b) =~= s0 + rgb);
        if c.a != 0xFF {
            assert(s0 + rgb + hex_byte(c.a) =~= s0 + (rgb + hex_byte(c.a)));
        }
    }
}

/// The inline style of a highlighted span: decorations, then the colour.
pub fn style_to_attr(style: TextStyle) -> (r: String)
    ensures
        r@ == style_attr(style),
{
    let mut res = String::new();
    if style.underline {
        res.append("text-decoration:underline;");
    }
    if style.bold {
        res.append("font-weight:bold;");
    }
    if style.italic {
        res.append("font-style:italic");
    }
    let ghost decorations = res@;
    res.append("color:");
    write_css_color(&mut res, style.foreground);
    proof {
        reveal_strlit("");
        assert(decorations =~= (if style.underline { "text-decoration:underline;"@ } else { Seq::empty() })
            + (if style.bold { "font-weight:bold;"@ } else { Seq::empty() })
            + (if style.italic { "font-style:italic"@ } else { Seq::empty() }));
        assert(res@ =~= style_attr(style));
    }
    res
}

/// Whether a character has the Unicode `White_Space` property, as std's
/// `char::is_whitespace` decides it.
pub open spec fn is_white_space(c: char) -> bool {
    let u = c as u32;
    ||| 0x09 <= u <= 0x0D
    ||| u == 0x20
    ||| u == 0x85
    ||| u == 0xA0
    ||| u == 0x1680
    ||| 0x2000 <= u <= 0x200A
    ||| u == 0x2028
    ||| u == 0x2029
    ||| u == 0x202F
    ||| u == 0x205F
    ||| u == 0x3000
}

/// Whether a text holds only white space (or nothing).
pub open spec fn is_blank(s: Seq<char>) -> bool {
    forall|i: int| 0 <= i < s.len() ==> is_white_space(#[trigger] s[i])
}

fn white_space(c: char) -> (r: bool)
    ensures
        r == is_white_space(c),
{
    let u = c as u32;
    (0x09 <= u && u <= 0x0D) || u == 0x20 || u == 0x85 || u == 0xA0 || u == 0x1680 || (0x2000 <= u && u <= 0x200A)
        || u == 0x2028 || u == 0x2029 || u == 0x202F || u == 0x205F || u == 0x3000
}

fn blank(s: &str) -> (r: bool)
    ensures
        r == is_blank(s@),
{
    let n = s.unicode_len();
    let mut i: usize = 0;
    while i < n
        invariant
            n == s@.len(),
            i <= n,
            forall|k: int| 0 <= k < i ==> is_white_space(#[trigger] s@[k]),
        decreases n - i,
    {
        if !white_space(s.get_char(i)) {
            return false;
        }
        i += 1;
    }
    true
}

/// The pieces of one highlighted line of code: each range keeps its text,
/// styled unless it is blank, and a plain line break ends the line.
pub open spec fn pieces_of(ranges: Seq<(TextStyle, Seq<char>)>) -> Seq<(Option<TextStyle>, Seq<char>)> {
    Seq::new(
        ranges.len(),
        |i: int| (if is_blank(ranges[i].1) { None } else { Some(ranges[i].0) }, ranges[i].1),
    ).push((None, "\n"@))
}

/// Splits one highlighted line into the pieces a code block is rebuilt from:
/// `None` marks plain text, `Some` a span with that style.
pub fn line_pieces(ranges: &Vec<(TextStyle, String)>) -> (r: Vec<(Option<TextStyle>, String)>)
    ensures
        r@.map_values(|p: (Option<TextStyle>, String)| (p.0, p.1@))
            == pieces_of(ranges@.map_values(|p: (TextStyle, String)| (p.0, p.1@))),
{
    let mut r: Vec<(Option<TextStyle>, String)> = Vec::new();
    let mut i: usize = 0;
    while i < ranges.len()
        invariant
            i <= ranges@.len(),
            r@.len() == i,
            forall|k: int| 0 <= k < i ==> (#[trigger] r@[k]).1@ == ranges@[k].1@
                && r@[k].0 == (if is_blank(ranges@[k].1@) { None } else { Some(ranges@[k].0) }),
        decreases ranges@.len() - i,
    {
        let text = ranges[i].1.clone();
        let style = if blank(text.as_str()) { None } else { Some(ranges[i].0) };
        r.push((style, text));
        i += 1;
    }
    r.push((None, String::from_str("\n")));
    proof {
        let ghost v = ranges@.map_values(|p: (TextStyle, String)| (p.0, p.1@));
        assert(r@.map_values(|p: (Option<TextStyle>, String)| (p.0, p.1@)) =~= pieces_of(v));
    }
    r
}

} // verus!
