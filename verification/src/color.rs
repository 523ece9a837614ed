//! Colours, as four 8-bit channels.

use vstd::prelude::*;
use vstd::string::StringSliceAdditionalSpecFns;

verus! {

/// A colour with red, green, blue and alpha channels, each from 0 to 255.
#[derive(Clone, Copy, PartialEq, Eq, Debug, Structural)]
pub struct Color {
    pub r: u8,
    pub g: u8,
    pub b: u8,
    pub a: u8,
}

/// The value of a hexadecimal digit, or `None` for any other byte.
pub open spec fn hex_digit_spec(c: u8) -> Option<int> {
    if 0x30 <= c <= 0x39 {
        Some(c - 0x30)
    } else if 0x61 <= c <= 0x66 {
        Some(c - 0x61 + 10)
    } else if 0x41 <= c <= 0x46 {
        Some(c - 0x41 + 10)
    } else {
        None
    }
}

/// The channel that two bytes spell in base 16, with `fallback` where they
/// spell none. A plus sign may stand in place of the first digit.
pub open spec fn hex_pair_spec(hi: u8, lo: u8, fallback: int) -> int {
    if hi == 0x2b {
        match hex_digit_spec(lo) {
            Some(d) => d,
            None => fallback,
        }
    } else {
        match (hex_digit_spec(hi), hex_digit_spec(lo)) {
            (Some(h), Some(l)) => 16 * h + l,
            _ => fallback,
        }
    }
}

/// The channel that one digit spells when it is written twice, zero where
/// the byte is no digit.
pub open spec fn hex_short_spec(c: u8) -> int {
    match hex_digit_spec(c) {
        Some(d) => 17 * d,
        None => 0,
    }
}

/// The number of `#` bytes that `bytes` starts with from position `from` on.
pub open spec fn leading_hashes(bytes: Seq<u8>, from: int) -> int
    decreases bytes.len() - from,
{
    if 0 <= from < bytes.len() && bytes[from] == 0x23 {
        1 + leading_hashes(bytes, from + 1)
    } else {
        0
    }
}

/// The colour that the digits `d` spell: three digits are one per channel,
/// each doubled; six are two per channel; eight add an alpha channel. Any
/// other length is opaque black.
pub open spec fn hex_digits_spec(d: Seq<u8>) -> Color {
    if d.len() == 3 {
        (Color {
            r: hex_short_spec(d[0]) as u8,
            g: hex_short_spec(d[1]) as u8,
            b: hex_short_spec(d[2]) as u8,
            a: 255,
        })
    } else if d.len() == 6 {
        (Color {
            r: hex_pair_spec(d[0], d[1], 0) as u8,
            g: hex_pair_spec(d[2], d[3], 0) as u8,
            b: hex_pair_spec(d[4], d[5], 0) as u8,
            a: 255,
        })
    } else if d.len() == 8 {
        (Color {
            r: hex_pair_spec(d[0], d[1], 0) as u8,
            g: hex_pair_spec(d[2], d[3], 0) as u8,
            b: hex_pair_spec(d[4], d[5], 0) as u8,
            a: hex_pair_spec(d[6], d[7], 255) as u8,
        })
    } else {
        (Color { r: 0, g: 0, b: 0, a: 255 })
    }
}

/// The colour that a hex string spells, over its bytes: the leading `#`
/// bytes are skipped and the rest is read as digits.
pub open spec fn hex_spec(bytes: Seq<u8>) -> Color {
    hex_digits_spec(bytes.subrange(leading_hashes(bytes, 0), bytes.len() as int))
}

fn hex_digit(c: u8) -> (r: Option<u8>)
    ensures
        match r {
            Some(d) => hex_digit_spec(c) == Some(d as int) && d < 16,
            None => hex_digit_spec(c) is None,
        },
{
    if 0x30 <= c && c <= 0x39 {
        Some(c - 0x30)
    } else if 0x61 <= c && c <= 0x66 {
        Some(c - 0x61 + 10)
    } else if 0x41 <= c && c <= 0x46 {
        Some(c - 0x41 + 10)
    } else {
        None
    }
}

fn hex_pair(hi: u8, lo: u8, fallback: u8) -> (r: u8)
    ensures
        r as int == hex_pair_spec(hi, lo, fallback as int),
{
    if hi == 0x2b {
        match hex_digit(lo) {
            Some(d) => d,
            None => fallback,
        }
    } else {
        match hex_digit(hi) {
            Some(h) => match hex_digit(lo) {
                Some(l) => 16 * h + l,
                None => fallback,
            },
            None => fallback,
        }
    }
}

fn hex_short(c: u8) -> (r: u8)
    ensures
        r as int == hex_short_spec(c),
{
    match hex_digit(c) {
        Some(d) => 17 * d,
        None => 0,
    }
}

impl Color {
    /// A colour from its four channels.
    pub fn new(r: u8, g: u8, b: u8, a: u8) -> (c: Self)
        ensures
            c == (Color { r, g, b, a }),
    {
        Color { r, g, b, a }
    }

    /// An opaque colour from red, green and blue.
    pub fn rgb(r: u8, g: u8, b: u8) -> (c: Self)
        ensures
            c == (Color { r, g, b, a: 255 }),
    {
        Color { r, g, b, a: 255 }
    }

    /// A colour from red, green, blue and alpha.
    pub fn rgba(r: u8, g: u8, b: u8, a: u8) -> (c: Self)
        ensures
            c == (Color { r, g, b, a }),
    {
        Color { r, g, b, a }
    }

    /// Reads `rgb`, `rrggbb` or `rrggbbaa`, with any number of `#` in front.
    /// A channel whose digits are no hexadecimal number is zero (alpha:
    /// 255); a string of any other length is opaque black.
    pub fn hex(s: &str) -> (c: Self)
        ensures
            c == hex_spec(s.spec_bytes()),
    {
        let bytes = s.as_bytes();
        let n: usize = bytes.len();
        let mut start: usize = 0;
        while start < n && bytes[start] == 0x23
            invariant
                start <= n,
                n == bytes@.len(),
                leading_hashes(bytes@, 0) == start + leading_hashes(bytes@, start as int),
            decreases n - start,
        {
            start += 1;
        }
        let ghost d = bytes@.subrange(start as int, n as int);
        let len: usize = n - start;
        if len == 3 {
            assert(d[0] == bytes@[start + 0] && d[1] == bytes@[start + 1] && d[2] == bytes@[start + 2]);
            Color {
                r: hex_short(bytes[start]),
                g: hex_short(bytes[start + 1]),
                b: hex_short(bytes[start + 2]),
                a: 255,
            }
        } else if len == 6 {
            assert(d[0] == bytes@[start + 0] && d[1] == bytes@[start + 1] && d[2] == bytes@[start + 2]
                && d[3] == bytes@[start + 3] && d[4] == bytes@[start + 4] && d[5] == bytes@[start + 5]);
            Color {
                r: hex_pair(bytes[start], bytes[start + 1], 0),
                g: hex_pair(bytes[start + 2], bytes[start + 3], 0),
                b: hex_pair(bytes[start + 4], bytes[start + 5], 0),
                a: 255,
            }
        } else if len == 8 {
            assert(d[0] == bytes@[start + 0] && d[1] == bytes@[start + 1] && d[2] == bytes@[start + 2]
                && d[3] == bytes@[start + 3] && d[4] == bytes@[start + 4] && d[5] == bytes@[start + 5]
                && d[6] == bytes@[start + 6] && d[7] == bytes@[start + 7]);
            Color {
                r: hex_pair(bytes[start], bytes[start + 1], 0),
                g: hex_pair(bytes[start + 2], bytes[start + 3], 0),
                b: hex_pair(bytes[start + 4], bytes[start + 5], 0),
                a: hex_pair(bytes[start + 6], bytes[start + 7], 255),
            }
        } else {
            Color { r: 0, g: 0, b: 0, a: 255 }
        }
    }

    /// The same colour with another alpha channel.
    pub fn with_alpha(self, a: u8) -> (c: Self)
        ensures
            c == (Color { a, ..self }),
    {
        Color { r: self.r, g: self.g, b: self.b, a }
    }

    /// The four channels in the order red, green, blue, alpha.
    pub fn to_array(self) -> (arr: [u8; 4])
        ensures
            arr@ == seq![self.r, self.g, self.b, self.a],
    {
        [self.r, self.g, self.b, self.a]
    }

    /// A colour from its four channels in the order red, green, blue, alpha.
    pub fn from_array(arr: [u8; 4]) -> (c: Self)
        ensures
            c == (Color { r: arr@[0], g: arr@[1], b: arr@[2], a: arr@[3] }),
    {
        Color { r: arr[0], g: arr[1], b: arr[2], a: arr[3] }
    }

    /// The colour as it shows through a layer of the given opacity: the
    /// alpha channel is scaled by `opacity / 255`, rounded down.
    pub fn with_opacity(self, opacity: u8) -> (c: Self)
        ensures
            c == crate::draw::faded(self, opacity),
            c.a <= self.a,
    {
        assert(0 <= self.a as int * opacity as int <= 255 * 255) by (nonlinear_arith)
            requires
                0 <= self.a <= 255,
                0 <= opacity <= 255,
        ;
        let scaled: u32 = (self.a as u32 * opacity as u32) / 255;
        assert(scaled <= self.a) by (nonlinear_arith)
            requires
                scaled == (self.a as int * opacity as int) / 255,
                opacity <= 255,
                0 <= self.a,
        ;
        Color { r: self.r, g: self.g, b: self.b, a: scaled as u8 }
    }

    /// The colour with each of red, green and blue raised by `amount`,
    /// stopping at 255. Alpha becomes opaque.
    pub fn brightened(self, amount: u8) -> (c: Self)
        ensures
            c == crate::draw::lifted(self, amount),
    {
        Color {
            r: if self.r > 255 - amount { 255 } else { self.r + amount },
            g: if self.g > 255 - amount { 255 } else { self.g + amount },
            b: if self.b > 255 - amount { 255 } else { self.b + amount },
            a: 255,
        }
    }

    /// Opaque red.
    pub fn red() -> (c: Self)
        ensures
            c == (Color { r: 255, g: 0, b: 0, a: 255 }),
    {
        Color { r: 255, g: 0, b: 0, a: 255 }
    }

    /// Opaque green.
    pub fn green() -> (c: Self)
        ensures
            c == (Color { r: 0, g: 255, b: 0, a: 255 }),
    {
        Color { r: 0, g: 255, b: 0, a: 255 }
    }

    /// Opaque blue.
    pub fn blue() -> (c: Self)
        ensures
            c == (Color { r: 0, g: 0, b: 255, a: 255 }),
    {
        Color { r: 0, g: 0, b: 255, a: 255 }
    }

    /// Opaque white.
    pub fn white() -> (c: Self)
        ensures
            c == (Color { r: 255, g: 255, b: 255, a: 255 }),
    {
        Color { r: 255, g: 255, b: 255, a: 255 }
    }

    /// Opaque black.
    pub fn black() -> (c: Self)
        ensures
            c == (Color { r: 0, g: 0, b: 0, a: 255 }),
    {
        Color { r: 0, g: 0, b: 0, a: 255 }
    }

    /// Fully transparent black.
    pub fn transparent() -> (c: Self)
        ensures
            c == (Color { r: 0, g: 0, b: 0, a: 0 }),
    {
        Color { r: 0, g: 0, b: 0, a: 0 }
    }
}

} // verus!
