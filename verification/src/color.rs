//! Display colours as four 8-bit channels, and their hexadecimal notation.

use vstd::prelude::*;
use vstd::utf8::encode_utf8;

verus! {

/// A colour with red, green, blue and alpha channels, each `0..=255`.
#[derive(Clone, Copy, Debug, PartialEq, Eq, Structural)]
pub struct Rgba {
    pub r: u8,
    pub g: u8,
    pub b: u8,
    pub a: u8,
}

/// The value of the hexadecimal digit `b`, in either case.
pub open spec fn hex_digit(b: u8) -> Option<u8> {
    if 0x30 <= b <= 0x39 {
        Some((b - 0x30) as u8)
    } else if 0x61 <= b <= 0x66 {
        Some((b - 0x61 + 10) as u8)
    } else if 0x41 <= b <= 0x46 {
        Some((b - 0x41 + 10) as u8)
    } else {
        None
    }
}

/// The value of a channel written in two bytes: two hexadecimal digits, or a plus sign and
/// one digit.
pub open spec fn hex_pair(first: u8, second: u8) -> Option<u8> {
    if first == 0x2B {
        hex_digit(second)
    } else {
        match (hex_digit(first), hex_digit(second)) {
            (Some(high), Some(low)) => Some((16 * high + low) as u8),
            _ => None,
        }
    }
}

/// `bytes` without the `#` signs at its start.
pub open spec fn strip_hashes(bytes: Seq<u8>) -> Seq<u8>
    decreases bytes.len(),
{
    if bytes.len() > 0 && bytes[0] == 0x23 {
        strip_hashes(bytes.drop_first())
    } else {
        bytes
    }
}

/// The colour that `bytes` denote: `rrggbb` or `rrggbbaa` after any number of `#` signs.
///
/// Without the two alpha digits the colour is opaque. A seventh byte alone is ignored, as is
/// whatever follows the eighth.
pub open spec fn parse_hex_color(bytes: Seq<u8>) -> Option<Rgba> {
    let digits = strip_hashes(bytes);
    if digits.len() < 6 {
        None
    } else {
        match (
            hex_pair(digits[0], digits[1]),
            hex_pair(digits[2], digits[3]),
            hex_pair(digits[4], digits[5]),
        ) {
            (Some(r), Some(g), Some(b)) => {
                if digits.len() >= 8 {
                    match hex_pair(digits[6], digits[7]) {
                        Some(a) => Some(Rgba { r, g, b, a }),
                        None => None,
                    }
                } else {
                    Some(Rgba { r, g, b, a: 255 })
                }
            },
            _ => None,
        }
    }
}

fn digit_value(b: u8) -> (value: Option<u8>)
    ensures
        value == hex_digit(b),
{
    if 0x30 <= b && b <= 0x39 {
        Some(b - 0x30)
    } else if 0x61 <= b && b <= 0x66 {
        Some(b - 0x61 + 10)
    } else if 0x41 <= b && b <= 0x46 {
        Some(b - 0x41 + 10)
    } else {
        None
    }
}

fn pair_value(first: u8, second: u8) -> (value: Option<u8>)
    ensures
        value == hex_pair(first, second),
{
    if first == 0x2B {
        digit_value(second)
    } else {
        match (digit_value(first), digit_value(second)) {
            (Some(high), Some(low)) => Some(16 * high + low),
            _ => None,
        }
    }
}

/// Reads a colour in hexadecimal notation, such as `#1d2021` or `#1d202180`.
///
/// Returns `None` where fewer than six bytes follow the `#` signs or a channel is not
/// hexadecimal.
pub fn hex_to_color(hex: &str) -> (color: Option<Rgba>)
    ensures
        color == parse_hex_color(encode_utf8(hex@)),
{
    let bytes = hex.as_bytes();
    let mut start: usize = 0;
    assert(bytes@.skip(0) =~= bytes@);
    while start < bytes.len() && bytes[start] == 0x23
        invariant
            0 <= start <= bytes@.len(),
            strip_hashes(bytes@) == strip_hashes(bytes@.skip(start as int)),
        decreases bytes@.len() - start,
    {
        proof {
            assert(bytes@.skip(start as int).drop_first() =~= bytes@.skip(start as int + 1));
        }
        start = start + 1;
    }
    let ghost digits = bytes@.skip(start as int);
    assert(strip_hashes(bytes@) == digits);
    if bytes.len() - start < 6 {
        return None;
    }
    let r = pair_value(bytes[start], bytes[start + 1]);
    let g = pair_value(bytes[start + 2], bytes[start + 3]);
    let b = pair_value(bytes[start + 4], bytes[start + 5]);
    match (r, g, b) {
        (Some(r), Some(g), Some(b)) => {
            if bytes.len() - start >= 8 {
                match pair_value(bytes[start + 6], bytes[start + 7]) {
                    Some(a) => Some(Rgba { r, g, b, a }),
                    None => None,
                }
            } else {
                Some(Rgba { r, g, b, a: 255 })
            }
        },
        _ => None,
    }
}

} // verus!
