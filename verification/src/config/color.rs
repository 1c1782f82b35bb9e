use vstd::prelude::*;

verus! {

/// A color as red, green, blue and alpha components.
#[derive(Debug, Clone, Copy, PartialEq, Eq, Structural)]
pub struct RgbaColor {
    pub r: u8,
    pub g: u8,
    pub b: u8,
    pub a: u8,
}

/// The value of a hexadecimal digit, either case.
pub open spec fn hex_value(c: char) -> Option<u8> {
    if '0' <= c && c <= '9' {
        Some((c as u32 - '0' as u32) as u8)
    } else if 'a' <= c && c <= 'f' {
        Some((c as u32 - 'a' as u32 + 10) as u8)
    } else if 'A' <= c && c <= 'F' {
        Some((c as u32 - 'A' as u32 + 10) as u8)
    } else {
        None
    }
}

/// The byte of the two hexadecimal digits at `i` and `i + 1` of `s`.
pub open spec fn hex_byte(s: Seq<char>, i: int) -> Option<u8> {
    match (hex_value(s[i]), hex_value(s[i + 1])) {
        (Some(hi), Some(lo)) => Some((hi * 16 + lo) as u8),
        _ => None,
    }
}

/// The color that `s` writes as '#' and six or eight hexadecimal digits
/// (red, green, blue and, where given, alpha; alpha is 255 otherwise), or
/// none where `s` is not of that form.
pub open spec fn parse_hex_color(s: Seq<char>) -> Option<RgbaColor> {
    if (s.len() != 7 && s.len() != 9) || s[0] != '#' {
        None
    } else {
        match (hex_byte(s, 1), hex_byte(s, 3), hex_byte(s, 5)) {
            (Some(r), Some(g), Some(b)) => if s.len() == 7 {
                Some(RgbaColor { r, g, b, a: 255 })
            } else {
                match hex_byte(s, 7) {
                    Some(a) => Some(RgbaColor { r, g, b, a }),
                    None => None,
                }
            },
            _ => None,
        }
    }
}

fn hex_digit(c: char) -> (v: Option<u8>)
    ensures
        v == hex_value(c),
{
    if '0' <= c && c <= '9' {
        Some((c as u32 - '0' as u32) as u8)
    } else if 'a' <= c && c <= 'f' {
        Some((c as u32 - 'a' as u32 + 10) as u8)
    } else if 'A' <= c && c <= 'F' {
        Some((c as u32 - 'A' as u32 + 10) as u8)
    } else {
        None
    }
}

fn byte_at(s: &str, i: usize) -> (v: Option<u8>)
    requires
        i < 8,
        i + 1 < s@.len(),
    ensures
        v == hex_byte(s@, i as int),
{
    match (hex_digit(s.get_char(i)), hex_digit(s.get_char(i + 1))) {
        (Some(hi), Some(lo)) => {
            assert(hi < 16 && lo < 16);
            Some(hi * 16 + lo)
        },
        _ => None,
    }
}

impl RgbaColor {
    /// The color of `hex`: '#' and six or eight hexadecimal digits (alpha is
    /// 255 where there are six); none where `hex` is not of that form.
    pub fn from_hex(hex: &str) -> (c: Option<RgbaColor>)
        ensures
            c == parse_hex_color(hex@),
    {
        let len = hex.unicode_len();
        if (len != 7 && len != 9) || hex.get_char(0) != '#' {
            return None;
        }
        let r = byte_at(hex, 1);
        let g = byte_at(hex, 3);
        let b = byte_at(hex, 5);
        match (r, g, b) {
            (Some(r), Some(g), Some(b)) => if len == 7 {
                Some(RgbaColor { r, g, b, a: 255 })
            } else {
                match byte_at(hex, 7) {
                    Some(a) => Some(RgbaColor { r, g, b, a }),
                    None => None,
                }
            },
            _ => None,
        }
    }
}

/// The hexadecimal digit of value `d`, in upper case where `upper` holds
/// and in lower case otherwise.
pub open spec fn digit_char(d: int, upper: bool) -> char {
    if d < 10 {
        (d + 48) as char
    } else if upper {
        (d - 10 + 65) as char
    } else {
        (d - 10 + 97) as char
    }
}

/// Every hexadecimal digit reads as its value in either case, and no other
/// character is a digit.
pub proof fn lemma_hex_digits_either_case(d: int, c: char)
    requires
        0 <= d < 16,
    ensures
        hex_value(digit_char(d, false)) == Some(d as u8),
        hex_value(digit_char(d, true)) == Some(d as u8),
        hex_value(c) is Some <==> ('0' <= c <= '9' || 'a' <= c <= 'f' || 'A' <= c <= 'F'),
{
    assert(((d + 48) as char) as int == d + 48);
    assert(((d - 10 + 65) as char) as int == d + 55);
    assert(((d - 10 + 97) as char) as int == d + 87);
}

/// A color written as '#' and two digits for each of red, green and blue,
/// each digit in either case, reads as that color, opaque; with two more
/// digits for alpha, with that alpha.
pub proof fn lemma_parse_written_color(r: u8, g: u8, b: u8, a: u8, cases: Seq<bool>)
    requires
        cases.len() == 8,
    ensures
        parse_hex_color(seq![
            '#',
            digit_char(r as int / 16, cases[0]), digit_char(r as int % 16, cases[1]),
            digit_char(g as int / 16, cases[2]), digit_char(g as int % 16, cases[3]),
            digit_char(b as int / 16, cases[4]), digit_char(b as int % 16, cases[5]),
        ]) == Some(RgbaColor { r, g, b, a: 255 }),
        parse_hex_color(seq![
            '#',
            digit_char(r as int / 16, cases[0]), digit_char(r as int % 16, cases[1]),
            digit_char(g as int / 16, cases[2]), digit_char(g as int % 16, cases[3]),
            digit_char(b as int / 16, cases[4]), digit_char(b as int % 16, cases[5]),
            digit_char(a as int / 16, cases[6]), digit_char(a as int % 16, cases[7]),
        ]) == Some(RgbaColor { r, g, b, a }),
{
    let c = 'x';
    lemma_hex_digits_either_case(r as int / 16, c);
    lemma_hex_digits_either_case(r as int % 16, c);
    lemma_hex_digits_either_case(g as int / 16, c);
    lemma_hex_digits_either_case(g as int % 16, c);
    lemma_hex_digits_either_case(b as int / 16, c);
    lemma_hex_digits_either_case(b as int % 16, c);
    lemma_hex_digits_either_case(a as int / 16, c);
    lemma_hex_digits_either_case(a as int % 16, c);
    assert(r == (r / 16) * 16 + r % 16);
    assert(g == (g / 16) * 16 + g % 16);
    assert(b == (b / 16) * 16 + b % 16);
    assert(a == (a / 16) * 16 + a % 16);
}

} // verus!
