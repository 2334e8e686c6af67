//! Route display colors: lookup by route identifier and hex parsing.
use vstd::prelude::*;
use vstd::string::*;
use vstd::utf8::encode_utf8;

use crate::ids::chars_of;
use crate::model::NVTModels;

verus! {

/// Color of a route in a table of (route identifier, hex color) pairs: the
/// last pair with that identifier wins, as later rows overwrite earlier ones.
pub open spec fn color_for(table: Seq<(Seq<char>, Seq<char>)>, key: Seq<char>) -> Option<Seq<char>>
    decreases table.len(),
{
    if table.len() == 0 {
        None
    } else if table.last().0 == key {
        Some(table.last().1)
    } else {
        color_for(table.drop_last(), key)
    }
}

/// Color of the route `key` in `table`, if the table has one.
pub fn lookup_color(table: &Vec<(String, String)>, key: &String) -> (r: Option<String>)
    ensures
        r.deep_view() == color_for(table.deep_view(), key@),
{
    let ghost t = table.deep_view();
    let mut i: usize = table.len();
    assert(t.take(i as int) =~= t);
    while i > 0
        invariant
            i <= table.len(),
            t == table.deep_view(),
            color_for(t, key@) == color_for(t.take(i as int), key@),
        decreases i,
    {
        assert(t.take(i as int).drop_last() =~= t.take(i as int - 1));
        if table[i - 1].0 == *key {
            return Some(table[i - 1].1.clone());
        }
        i -= 1;
    }
    None
}

/// Value of a hexadecimal digit, either case.
pub open spec fn hex_value(c: char) -> Option<u8> {
    if '0' <= c <= '9' {
        Some((c as u32 - '0' as u32) as u8)
    } else if 'a' <= c <= 'f' {
        Some((c as u32 - 'a' as u32 + 10) as u8)
    } else if 'A' <= c <= 'F' {
        Some((c as u32 - 'A' as u32 + 10) as u8)
    } else {
        None
    }
}

/// Value of a byte that is an ASCII hexadecimal digit, either case.
pub open spec fn hex_byte_value(b: u8) -> Option<u8> {
    if 48 <= b <= 57 {
        Some((b - 48) as u8)
    } else if 97 <= b <= 102 {
        Some((b - 87) as u8)
    } else if 65 <= b <= 70 {
        Some((b - 55) as u8)
    } else {
        None
    }
}

/// A two-byte component as an unsigned base-16 number (an optional `+` sign
/// may lead), or 128 when it is not one.
pub open spec fn component(b0: u8, b1: u8) -> u8 {
    match (hex_byte_value(b0), hex_byte_value(b1)) {
        (Some(h), Some(l)) => (16 * h + l) as u8,
        (None, Some(l)) => if b0 == 43 {
            l
        } else {
            128
        },
        _ => 128,
    }
}

/// The (red, green, blue) triple of a hex color six bytes long, read two bytes
/// per component; mid gray for any other length.
pub open spec fn rgb_of_bytes(b: Seq<u8>) -> (u8, u8, u8) {
    if b.len() != 6 {
        (128, 128, 128)
    } else {
        (component(b[0], b[1]), component(b[2], b[3]), component(b[4], b[5]))
    }
}

/// [`rgb_of_bytes`] of the UTF-8 encoding of `s`.
pub open spec fn rgb_of(s: Seq<char>) -> (u8, u8, u8) {
    rgb_of_bytes(encode_utf8(s))
}

pub open spec fn is_hex_color(s: Seq<char>) -> bool {
    s.len() == 6 && forall|i: int| 0 <= i < 6 ==> (#[trigger] hex_value(s[i])) is Some
}

fn hex_digit(c: char) -> (r: Option<u8>)
    ensures
        r == hex_value(c),
{
    if '0' <= c && c <= '9' {
        Some((c as u32 - '0' as u32) as u8)
    } else if 'a' <= c && c <= 'f' {
        Some((c as u32 - 'a' as u32 + 10) as u8)
    } else if 'A' <= c && c <= 'F' {
        Some((c as u32 - 'A' as u32 + 10) as u8)
    } else {
        None
    }
}

fn hex_byte(b: u8) -> (r: Option<u8>)
    ensures
        r == hex_byte_value(b),
{
    if 48 <= b && b <= 57 {
        Some(b - 48)
    } else if 97 <= b && b <= 102 {
        Some(b - 87)
    } else if 65 <= b && b <= 70 {
        Some(b - 55)
    } else {
        None
    }
}

fn parse_component(b0: u8, b1: u8) -> (r: u8)
    ensures
        r == component(b0, b1),
{
    match (hex_byte(b0), hex_byte(b1)) {
        (Some(h), Some(l)) => 16 * h + l,
        (None, Some(l)) => if b0 == 43 {
            l
        } else {
            128
        },
        _ => 128,
    }
}

/// All six characters are hexadecimal digits.
pub fn hex_color_form(s: &str) -> (r: bool)
    ensures
        r == is_hex_color(s@),
{
    let c = chars_of(s);
    if c.len() != 6 {
        return false;
    }
    let mut i: usize = 0;
    while i < 6
        invariant
            c@ == s@,
            c@.len() == 6,
            i <= 6,
            forall|j: int| 0 <= j < i ==> (#[trigger] hex_value(s@[j])) is Some,
        decreases 6 - i,
    {
        if hex_digit(c[i]).is_none() {
            return false;
        }
        i += 1;
    }
    true
}

impl NVTModels {
    /// The (red, green, blue) triple of a hex color six bytes long; each
    /// component that is no base-16 number, and a color of another length in
    /// bytes, gives 128.
    pub fn parse_hex_color(hex_color: &str) -> (r: (u8, u8, u8))
        ensures
            r == rgb_of(hex_color@),
            hex_color.spec_bytes().len() != 6 ==> r == (128u8, 128u8, 128u8),
    {
        let b = hex_color.as_bytes();
        if b.len() != 6 {
            return (128, 128, 128);
        }
        (parse_component(b[0], b[1]), parse_component(b[2], b[3]), parse_component(b[4], b[5]))
    }
}

} // verus!
