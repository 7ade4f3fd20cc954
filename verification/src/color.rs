//! Colours and their `#rrggbb[aa]` hexadecimal notation.

use vstd::prelude::*;
use crate::text::{chars_of, push_char};

verus! {

/// A colour with 8-bit red, green, blue and alpha components.
#[derive(Debug, Clone, Copy, PartialEq, Eq, Structural)]
pub struct Color {
    pub r: u8,
    pub g: u8,
    pub b: u8,
    pub a: u8,
}

impl Color {
    /// An opaque colour.
    pub fn from_rgb(r: u8, g: u8, b: u8) -> (c: Color)
        ensures
            c == (Color { r, g, b, a: 255 }),
    {
        Color { r, g, b, a: 255 }
    }

    /// An opaque grey.
    pub fn from_gray(l: u8) -> (c: Color)
        ensures
            c == (Color { r: l, g: l, b: l, a: 255 }),
    {
        Color { r: l, g: l, b: l, a: 255 }
    }

    /// The components `[r, g, b, a]`.
    pub fn to_array(&self) -> (v: [u8; 4])
        ensures
            v@ == seq![self.r, self.g, self.b, self.a],
    {
        [self.r, self.g, self.b, self.a]
    }
}

/// The value of a hexadecimal digit (either case).
pub open spec fn hex_value(c: char) -> Option<int> {
    if '0' <= c <= '9' {
        Some(c as int - '0' as int)
    } else if 'a' <= c <= 'f' {
        Some(c as int - 'a' as int + 10)
    } else if 'A' <= c <= 'F' {
        Some(c as int - 'A' as int + 10)
    } else {
        None
    }
}

/// The byte that two characters denote when read as a number in base 16:
/// two digits, or `+` and one digit.
pub open spec fn hex_pair(c0: char, c1: char) -> Option<u8> {
    if c0 == '+' {
        match hex_value(c1) {
            Some(v) => Some(v as u8),
            None => None,
        }
    } else {
        match (hex_value(c0), hex_value(c1)) {
            (Some(x), Some(y)) => Some((16 * x + y) as u8),
            _ => None,
        }
    }
}

/// `s` without its leading `#` characters.
pub open spec fn strip_hashes(s: Seq<char>) -> Seq<char>
    decreases s.len(),
{
    if s.len() > 0 && s[0] == '#' {
        strip_hashes(s.drop_first())
    } else {
        s
    }
}

/// The byte that `h[i..i + 2]` denotes.
pub open spec fn byte_at(h: Seq<char>, i: int) -> Option<u8> {
    hex_pair(h[i], h[i + 1])
}

/// The opaque colour a `#rrggbb` string denotes (leading `#`s optional).
pub open spec fn spec_parse_rgb(s: Seq<char>) -> Option<Color> {
    let h = strip_hashes(s);
    if h.len() != 6 {
        None
    } else {
        match (byte_at(h, 0), byte_at(h, 2), byte_at(h, 4)) {
            (Some(r), Some(g), Some(b)) => Some(Color { r, g, b, a: 255 }),
            _ => None,
        }
    }
}

/// The components a `#rrggbbaa` or `#rrggbb` string denotes (leading `#`s
/// optional): red, green, blue, and alpha when given.
pub open spec fn spec_parse_components(s: Seq<char>) -> Option<(u8, u8, u8, Option<u8>)> {
    let h = strip_hashes(s);
    if h.len() == 8 {
        match (byte_at(h, 0), byte_at(h, 2), byte_at(h, 4), byte_at(h, 6)) {
            (Some(r), Some(g), Some(b), Some(a)) => Some((r, g, b, Some(a))),
            _ => None,
        }
    } else if h.len() == 6 {
        match (byte_at(h, 0), byte_at(h, 2), byte_at(h, 4)) {
            (Some(r), Some(g), Some(b)) => Some((r, g, b, None)),
            _ => None,
        }
    } else {
        None
    }
}

fn hex_digit_value(c: char) -> (r: Option<u8>)
    ensures
        match r {
            Some(v) => hex_value(c) == Some(v as int) && v < 16,
            None => hex_value(c) is None,
        },
{
    if '0' <= c && c <= '9' {
        Some((c as u32 - '0' as u32) as u8)
    } else if 'a' <= c && c <= 'f' {
        Some((c as u32 - 'a' as u32 + 10) as u8)
    } else if 'A' <= c && c <= 'F' {
        Some((c as u32 - 'A' as u32 + 10) as u8)
    } else {
        None
    }
}

fn parse_pair(h: &[char], i: usize) -> (r: Option<u8>)
    requires
        i + 1 < h@.len(),
    ensures
        r == byte_at(h@, i as int),
{
    if h[i] == '+' {
        return hex_digit_value(h[i + 1]);
    }
    match (hex_digit_value(h[i]), hex_digit_value(h[i + 1])) {
        (Some(x), Some(y)) => Some(16 * x + y),
        _ => None,
    }
}

/// The characters of `s` after its leading `#`s.
fn strip_hash_chars(s: &str) -> (h: Vec<char>)
    ensures
        h@ == strip_hashes(s@),
{
    let v = chars_of(s);
    let mut i: usize = 0;
    assert(v@.skip(0) =~= v@);
    while i < v.len() && v[i] == '#'
        invariant
            i <= v@.len(),
            strip_hashes(v@) == strip_hashes(v@.skip(i as int)),
        decreases v@.len() - i,
    {
        assert(v@.skip(i as int).drop_first() =~= v@.skip(i + 1));
        i = i + 1;
    }
    let mut h: Vec<char> = Vec::new();
    let mut k = i;
    while k < v.len()
        invariant
            i <= k <= v@.len(),
            h@ == v@.subrange(i as int, k as int),
        decreases v@.len() - k,
    {
        h.push(v[k]);
        assert(v@.subrange(i as int, k + 1) == v@.subrange(i as int, k as int).push(v@[k as int]));
        k = k + 1;
    }
    assert(v@.subrange(i as int, v@.len() as int) =~= v@.skip(i as int));
    h
}

/// Reads a `#rrggbb` colour; `None` unless, after its leading `#`s, the string
/// is six hexadecimal digits (each pair may also be `+` and one digit).
pub fn parse_hex_rgb(hex: &str) -> (r: Option<Color>)
    ensures
        r == spec_parse_rgb(hex@),
{
    let h = strip_hash_chars(hex);
    if h.len() != 6 {
        return None;
    }
    match (parse_pair(&h, 0), parse_pair(&h, 2), parse_pair(&h, 4)) {
        (Some(r), Some(g), Some(b)) => Some(Color::from_rgb(r, g, b)),
        _ => None,
    }
}

/// Reads a `#rrggbbaa` or `#rrggbb` colour into its components.
pub fn parse_hex_components(s: &str) -> (r: Option<(u8, u8, u8, Option<u8>)>)
    ensures
        r == spec_parse_components(s@),
{
    let h = strip_hash_chars(s);
    if h.len() == 8 {
        match (parse_pair(&h, 0), parse_pair(&h, 2), parse_pair(&h, 4), parse_pair(&h, 6)) {
            (Some(r), Some(g), Some(b), Some(a)) => Some((r, g, b, Some(a))),
            _ => None,
        }
    } else if h.len() == 6 {
        match (parse_pair(&h, 0), parse_pair(&h, 2), parse_pair(&h, 4)) {
            (Some(r), Some(g), Some(b)) => Some((r, g, b, None)),
            _ => None,
        }
    } else {
        None
    }
}

/// The lower-case hexadecimal digit for `d` in `0..16`.
pub open spec fn hex_char(d: int) -> char {
    if d < 10 {
        (d + '0' as int) as char
    } else {
        (d - 10 + 'a' as int) as char
    }
}

/// Two lower-case hexadecimal digits for a byte.
pub open spec fn hex_byte(v: u8) -> Seq<char> {
    seq![hex_char(v as int / 16), hex_char(v as int % 16)]
}

/// `#rrggbbaa`, in lower case.
pub open spec fn spec_format_hex(c: Color) -> Seq<char> {
    seq!['#'] + hex_byte(c.r) + hex_byte(c.g) + hex_byte(c.b) + hex_byte(c.a)
}

fn hex_digit_char(d: u8) -> (c: char)
    requires
        d < 16,
    ensures
        c == hex_char(d as int),
{
    if d < 10 {
        (d + 48) as char
    } else {
        (d - 10 + 97) as char
    }
}

fn push_hex_byte(s: &mut String, v: u8)
    ensures
        final(s)@ == old(s)@ + hex_byte(v),
{
    push_char(s, hex_digit_char(v / 16));
    push_char(s, hex_digit_char(v % 16));
    assert(old(s)@.push(hex_char(v as int / 16)).push(hex_char(v as int % 16)) =~= old(s)@
        + hex_byte(v));
}

/// The colour as `#rrggbbaa`, in lower case.
pub fn format_hex(c: Color) -> (s: String)
    ensures
        s@ == spec_format_hex(c),
{
    let mut s = String::new();
    push_char(&mut s, '#');
    push_hex_byte(&mut s, c.r);
    push_hex_byte(&mut s, c.g);
    push_hex_byte(&mut s, c.b);
    push_hex_byte(&mut s, c.a);
    assert(Seq::<char>::empty().push('#') + hex_byte(c.r) + hex_byte(c.g) + hex_byte(c.b) + hex_byte(
        c.a,
    ) =~= spec_format_hex(c));
    s
}

/// Reading back what [`format_hex`] writes gives the colour's components.
pub proof fn lemma_hex_round_trip(c: Color)
    ensures
        spec_parse_components(spec_format_hex(c)) == Some((c.r, c.g, c.b, Some(c.a))),
{
    let f = spec_format_hex(c);
    let h = f.drop_first();
    assert(strip_hashes(h) == h) by {
        assert(h[0] == hex_char(c.r as int / 16));
    }
    assert(strip_hashes(f) == h);
    assert(h.len() == 8);
    assert forall|v: u8| #[trigger] hex_pair(hex_byte(v)[0], hex_byte(v)[1]) == Some(v) by {
        assert(hex_value(hex_char(v as int / 16)) == Some(v as int / 16));
        assert(hex_value(hex_char(v as int % 16)) == Some(v as int % 16));
    }
    assert(h.subrange(0, 2) =~= hex_byte(c.r));
    assert(h.subrange(2, 4) =~= hex_byte(c.g));
    assert(h.subrange(4, 6) =~= hex_byte(c.b));
    assert(h.subrange(6, 8) =~= hex_byte(c.a));
    assert(byte_at(h, 0) == hex_pair(hex_byte(c.r)[0], hex_byte(c.r)[1]));
    assert(byte_at(h, 2) == hex_pair(hex_byte(c.g)[0], hex_byte(c.g)[1]));
    assert(byte_at(h, 4) == hex_pair(hex_byte(c.b)[0], hex_byte(c.b)[1]));
    assert(byte_at(h, 6) == hex_pair(hex_byte(c.a)[0], hex_byte(c.a)[1]));
}

} // verus!
