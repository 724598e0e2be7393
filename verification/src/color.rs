//! RGBA colors with 8-bit channels, and the `#RRGGBB` hex notation used by
//! the dzen markup.

use vstd::prelude::*;

verus! {

/// A color with 8-bit red, green, blue and alpha channels.
///
/// The drawing layer is free to map a channel value v to the unit interval
/// as v / 255; the core only moves these values around.
#[derive(Clone, Copy, Debug, PartialEq, Eq, Structural)]
pub struct Rgba {
    pub r: u8,
    pub g: u8,
    pub b: u8,
    pub a: u8,
}

impl Rgba {
    /// A fully opaque color from its three channels.
    pub fn opaque(r: u8, g: u8, b: u8) -> (c: Rgba)
        ensures
            c == (Rgba { r, g, b, a: 255u8 }),
    {
        Rgba { r, g, b, a: 255 }
    }
}

/// The value of one hex digit, or `None` for any other character.
/// Both cases of the letters are accepted.
pub open spec fn spec_hex_digit(c: char) -> Option<u8> {
    if '0' <= c && c <= '9' {
        Some((c as u8 - '0' as u8) as u8)
    } else if 'a' <= c && c <= 'f' {
        Some((c as u8 - 'a' as u8 + 10) as u8)
    } else if 'A' <= c && c <= 'F' {
        Some((c as u8 - 'A' as u8 + 10) as u8)
    } else {
        None
    }
}

/// The byte written as the two hex digits `s[i]`, `s[i + 1]`.
pub open spec fn spec_hex_pair(s: Seq<char>, i: int) -> Option<u8> {
    if 0 <= i && i + 2 <= s.len() {
        match (spec_hex_digit(s[i]), spec_hex_digit(s[i + 1])) {
            (Some(hi), Some(lo)) => Some((hi * 16 + lo) as u8),
            _ => None,
        }
    } else {
        None
    }
}

/// The color written as `#RRGGBB`: exactly seven characters, a `#` and six
/// hex digits. Anything else is malformed. The alpha channel is fixed at
/// fully opaque.
pub open spec fn spec_hex_color(s: Seq<char>) -> Option<Rgba> {
    if s.len() == 7 && s[0] == '#' {
        match (spec_hex_pair(s, 1), spec_hex_pair(s, 3), spec_hex_pair(s, 5)) {
            (Some(r), Some(g), Some(b)) => Some(Rgba { r, g, b, a: 255u8 }),
            _ => None,
        }
    } else {
        None
    }
}

/// The value of one hex digit character.
pub fn hex_digit(c: char) -> (r: Option<u8>)
    ensures
        r == spec_hex_digit(c),
{
    if '0' <= c && c <= '9' {
        Some(c as u8 - '0' as u8)
    } else if 'a' <= c && c <= 'f' {
        Some(c as u8 - 'a' as u8 + 10)
    } else if 'A' <= c && c <= 'F' {
        Some(c as u8 - 'A' as u8 + 10)
    } else {
        None
    }
}

/// Reads the two hex digits at positions `i` and `i + 1` of `s` as one byte.
fn hex_pair(s: &str, i: usize) -> (r: Option<u8>)
    requires
        i + 2 <= s@.len(),
        i + 2 <= usize::MAX,
    ensures
        r == spec_hex_pair(s@, i as int),
{
    let hi = hex_digit(s.get_char(i));
    let lo = hex_digit(s.get_char(i + 1));
    match (hi, lo) {
        (Some(h), Some(l)) => Some(h * 16 + l),
        _ => None,
    }
}

/// Parses the characters `[from, to)` of `s` as a `#RRGGBB` color.
pub fn parse_hex_color(s: &str, from: usize, to: usize) -> (r: Option<Rgba>)
    requires
        from <= to <= s@.len(),
    ensures
        r == spec_hex_color(s@.subrange(from as int, to as int)),
{
    let ghost sub = s@.subrange(from as int, to as int);
    if to - from == 7 && s.get_char(from) == '#' {
        assert(sub.len() == 7 && sub[0] == '#');
        let r = hex_pair(s, from + 1);
        let g = hex_pair(s, from + 3);
        let b = hex_pair(s, from + 5);
        assert(r == spec_hex_pair(sub, 1) && g == spec_hex_pair(sub, 3) && b == spec_hex_pair(
            sub,
            5,
        )) by {
            assert(sub[1] == s@[from + 1] && sub[2] == s@[from + 2]);
            assert(sub[3] == s@[from + 3] && sub[4] == s@[from + 4]);
            assert(sub[5] == s@[from + 5] && sub[6] == s@[from + 6]);
        }
        match (r, g, b) {
            (Some(r), Some(g), Some(b)) => Some(Rgba { r, g, b, a: 255 }),
            _ => None,
        }
    } else {
        assert(sub.len() == 7 ==> sub[0] == s@[from as int]);
        None
    }
}

} // verus!
