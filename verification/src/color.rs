//! Red, green, blue colors, parsed from and written as CSS hexadecimal strings.
use vstd::prelude::*;
use vstd::string::StringExecFns;

use crate::text::{chars_of, min_int, push_char, utf8_len, utf8_len_between};

verus! {

/// A red, green, blue color that can be parsed from and written to a CSS compatible string.
#[derive(Debug, Clone, Copy, PartialEq, Eq, Structural)]
pub struct Color {
    /// Red component of the [`Color`] RGB value
    pub red: u8,
    /// Green component of the [`Color`] RGB value
    pub green: u8,
    /// Blue component of the [`Color`] RGB value
    pub blue: u8,
}

/// The value of a hexadecimal digit, either case.
pub open spec fn hex_value(c: char) -> Option<u8> {
    if '0' <= c <= '9' {
        Some((c as u32 - '0' as u32) as u8)
    } else if 'a' <= c <= 'f' {
        Some((c as u32 - 'a' as u32 + 10) as u8)
    } else if 'A' <= c <= 'F' {
        Some((c as u32 - 'A' as u32 + 10) as u8)
    } else {
        None
    }
}

/// The byte that one or two characters read as a hexadecimal number, as `u8::from_str_radix`
/// with radix 16 reads them: an optional leading `+` followed by one or more digits.
pub open spec fn hex_byte(s: Seq<char>) -> Option<u8> {
    if s.len() == 1 {
        hex_value(s[0])
    } else if s.len() == 2 {
        if s[0] == '+' {
            hex_value(s[1])
        } else {
            match (hex_value(s[0]), hex_value(s[1])) {
                (Some(a), Some(b)) => Some((a * 16 + b) as u8),
                _ => None,
            }
        }
    } else {
        None
    }
}

/// The color a CSS string `#RGB` or `#RRGGBB` stands for, or the offset of the failure.
///
/// The string starts with `#`. The rest is three or six bytes long; three are one hexadecimal
/// digit for each component (the digit doubled), six are two for each component.
pub open spec fn spec_parse_color(s: Seq<char>) -> Result<Color, nat> {
    if s.len() == 0 || s[0] != '#' {
        Err(0)
    } else {
        let rest = s.skip(1);
        let bytes = utf8_len(rest);
        if bytes < 3 {
            Err(bytes + 1)
        } else if bytes == 3 {
            if rest.len() != 3 {
                Err(1)
            } else {
                match (hex_value(rest[0]), hex_value(rest[1]), hex_value(rest[2])) {
                    (None, _, _) => Err(1),
                    (Some(_), None, _) => Err(2),
                    (Some(_), Some(_), None) => Err(3),
                    (Some(r), Some(g), Some(b)) => Ok(
                        Color { red: (r * 17) as u8, green: (g * 17) as u8, blue: (b * 17) as u8 },
                    ),
                }
            }
        } else if bytes < 6 {
            Err(bytes + 1)
        } else if bytes > 6 {
            Err(7)
        } else if rest.len() != 6 {
            Err(1)
        } else {
            match (
                hex_byte(rest.subrange(0, 2)),
                hex_byte(rest.subrange(2, 4)),
                hex_byte(rest.subrange(4, 6)),
            ) {
                (None, _, _) => Err(1),
                (Some(_), None, _) => Err(3),
                (Some(_), Some(_), None) => Err(5),
                (Some(r), Some(g), Some(b)) => Ok(Color { red: r, green: g, blue: b }),
            }
        }
    }
}

/// The uppercase hexadecimal digit for `v < 16`.
pub open spec fn hex_char(v: u8) -> char {
    if v < 10 {
        ((v + '0' as u32) as u32) as char
    } else {
        ((v - 10 + 'A' as u32) as u32) as char
    }
}

/// Can a component be written with one digit: are its two digits equal?
pub open spec fn can_be_shortened(b: u8) -> bool {
    b / 16 == b % 16
}

/// The CSS string of a color: `#RGB` when every component has two equal digits, `#RRGGBB`
/// otherwise, with uppercase digits.
pub open spec fn css_string(c: Color) -> Seq<char> {
    if can_be_shortened(c.red) && can_be_shortened(c.green) && can_be_shortened(c.blue) {
        seq!['#', hex_char(c.red % 16), hex_char(c.green % 16), hex_char(c.blue % 16)]
    } else {
        seq![
            '#',
            hex_char(c.red / 16),
            hex_char(c.red % 16),
            hex_char(c.green / 16),
            hex_char(c.green % 16),
            hex_char(c.blue / 16),
            hex_char(c.blue % 16),
        ]
    }
}

/// The value of a hexadecimal digit.
fn hex_digit_value(c: char) -> (r: Option<u8>)
    ensures
        r == hex_value(c),
{
    if '0' <= c && c <= '9' {
        Some((c as u32 - '0' as u32) as u8)
    } else if 'a' <= c && c <= 'f' {
        Some((c as u32 - 'a' as u32 + 10) as u8)
    } else if 'A' <= c && c <= 'F' {
        Some((c as u32 - 'A' as u32 + 10) as u8)
    } else {
        None
    }
}

/// The byte that the characters `s[from..from + 2]` read as a hexadecimal number.
fn hex_pair(s: &Vec<char>, from: usize) -> (r: Option<u8>)
    requires
        from + 2 <= s.len(),
    ensures
        r == hex_byte(s@.subrange(from as int, from + 2)),
{
    let ghost p = s@.subrange(from as int, from + 2);
    assert(p[0] == s@[from as int] && p[1] == s@[from + 1]);
    if s[from] == '+' {
        return hex_digit_value(s[from + 1]);
    }
    match (hex_digit_value(s[from]), hex_digit_value(s[from + 1])) {
        (Some(a), Some(b)) => {
            assert(a * 16 + b <= 255) by (nonlinear_arith)
                requires
                    a < 16,
                    b < 16,
            ;
            Some(a * 16 + b)
        },
        _ => None,
    }
}

/// The uppercase hexadecimal digit for `v < 16`.
fn hex_digit_char(v: u8) -> (r: char)
    requires
        v < 16,
    ensures
        r == hex_char(v),
{
    if v < 10 {
        ((v as u32 + '0' as u32) as u8) as char
    } else {
        ((v as u32 - 10 + 'A' as u32) as u8) as char
    }
}

impl Color {
    /// The color white. Namely rgb(255, 255, 255)
    pub fn white() -> (r: Color)
        ensures
            r == (Color { red: 0xFF, green: 0xFF, blue: 0xFF }),
    {
        Color { red: 0xFF, green: 0xFF, blue: 0xFF }
    }

    /// The color black. Namely rgb(0, 0, 0)
    pub fn black() -> (r: Color)
        ensures
            r == (Color { red: 0, green: 0, blue: 0 }),
    {
        Color { red: 0, green: 0, blue: 0 }
    }

    /// Parse a CSS color string, `#RGB` or `#RRGGBB`. On failure, returns the offset at which the
    /// string is wrong (see [`spec_parse_color`]).
    pub fn parse(s: &str) -> (r: Result<Color, usize>)
        ensures
            match spec_parse_color(s@) {
                Ok(c) => r == Ok::<Color, usize>(c),
                Err(e) => r == Err::<Color, usize>(min_int(e as int, usize::MAX as int) as usize),
            },
    {
        let c = chars_of(s);
        let n = c.len();
        if n == 0 || c[0] != '#' {
            return Err(0);
        }
        let ghost rest = s@.skip(1);
        assert(c@.subrange(1, n as int) =~= rest);
        let bytes = utf8_len_between(&c, 1, n);
        if bytes < 3 {
            return Err(bytes + 1);
        }
        if bytes == 3 {
            if n - 1 != 3 {
                return Err(1);
            }
            assert(rest[0] == c@[1] && rest[1] == c@[2] && rest[2] == c@[3]);
            let r = match hex_digit_value(c[1]) {
                Some(v) => v,
                None => {
                    return Err(1);
                },
            };
            let g = match hex_digit_value(c[2]) {
                Some(v) => v,
                None => {
                    return Err(2);
                },
            };
            let b = match hex_digit_value(c[3]) {
                Some(v) => v,
                None => {
                    return Err(3);
                },
            };
            return Ok(Color { red: r * 17, green: g * 17, blue: b * 17 });
        }
        if bytes < 6 {
            return Err(bytes + 1);
        }
        if bytes > 6 {
            return Err(7);
        }
        if n - 1 != 6 {
            return Err(1);
        }
        assert(rest.subrange(0, 2) =~= c@.subrange(1, 3));
        assert(rest.subrange(2, 4) =~= c@.subrange(3, 5));
        assert(rest.subrange(4, 6) =~= c@.subrange(5, 7));
        let r = match hex_pair(&c, 1) {
            Some(v) => v,
            None => {
                return Err(1);
            },
        };
        let g = match hex_pair(&c, 3) {
            Some(v) => v,
            None => {
                return Err(3);
            },
        };
        let b = match hex_pair(&c, 5) {
            Some(v) => v,
            None => {
                return Err(5);
            },
        };
        Ok(Color { red: r, green: g, blue: b })
    }

    /// The CSS string of the color (see [`css_string`]).
    pub fn to_string(&self) -> (r: String)
        ensures
            r@ == css_string(*self),
    {
        let mut out = String::from_str("#");
        proof {
            reveal_strlit("#");
        }
        if self.red / 16 == self.red % 16 && self.green / 16 == self.green % 16 && self.blue / 16
            == self.blue % 16 {
            push_char(&mut out, hex_digit_char(self.red % 16));
            push_char(&mut out, hex_digit_char(self.green % 16));
            push_char(&mut out, hex_digit_char(self.blue % 16));
        } else {
            push_char(&mut out, hex_digit_char(self.red / 16));
            push_char(&mut out, hex_digit_char(self.red % 16));
            push_char(&mut out, hex_digit_char(self.green / 16));
            push_char(&mut out, hex_digit_char(self.green % 16));
            push_char(&mut out, hex_digit_char(self.blue / 16));
            push_char(&mut out, hex_digit_char(self.blue % 16));
        }
        assert(out@ =~= css_string(*self));
        out
    }
}

impl std::str::FromStr for Color {
    type Err = usize;

    fn from_str(s: &str) -> (r: Result<Color, usize>)
        ensures
            match spec_parse_color(s@) {
                Ok(c) => r == Ok::<Color, usize>(c),
                Err(e) => r == Err::<Color, usize>(min_int(e as int, usize::MAX as int) as usize),
            },
    {
        Color::parse(s)
    }
}

/// A hexadecimal digit written by [`hex_char`] reads back as its value.
proof fn lemma_hex_round_trip(v: u8)
    requires
        v < 16,
    ensures
        hex_value(hex_char(v)) == Some(v),
        (hex_char(v) as u32) < 128,
        hex_char(v) != '+',
{
}

/// The UTF-8 length of ASCII characters is their count.
proof fn lemma_ascii_utf8_len(s: Seq<char>)
    requires
        forall|i: int| 0 <= i < s.len() ==> (#[trigger] s[i] as u32) < 128,
    ensures
        utf8_len(s) == s.len(),
    decreases s.len(),
{
    if s.len() > 0 {
        lemma_ascii_utf8_len(s.drop_last());
    }
}

/// Writing a color and parsing the string back gives the color again.
pub proof fn lemma_parse_to_string(c: Color)
    ensures
        spec_parse_color(css_string(c)) == Ok::<Color, nat>(c),
{
    let s = css_string(c);
    let rest = s.skip(1);
    lemma_hex_round_trip(c.red / 16);
    lemma_hex_round_trip(c.red % 16);
    lemma_hex_round_trip(c.green / 16);
    lemma_hex_round_trip(c.green % 16);
    lemma_hex_round_trip(c.blue / 16);
    lemma_hex_round_trip(c.blue % 16);
    assert forall|i: int| 0 <= i < rest.len() implies (#[trigger] rest[i] as u32) < 128 by {
        assert(rest[i] == s[i + 1]);
    }
    lemma_ascii_utf8_len(rest);
    if can_be_shortened(c.red) && can_be_shortened(c.green) && can_be_shortened(c.blue) {
        assert(rest =~= seq![hex_char(c.red % 16), hex_char(c.green % 16), hex_char(c.blue % 16)]);
        assert((c.red % 16) * 17 == c.red) by (nonlinear_arith)
            requires
                c.red / 16 == c.red % 16,
        ;
        assert((c.green % 16) * 17 == c.green) by (nonlinear_arith)
            requires
                c.green / 16 == c.green % 16,
        ;
        assert((c.blue % 16) * 17 == c.blue) by (nonlinear_arith)
            requires
                c.blue / 16 == c.blue % 16,
        ;
    } else {
        assert(rest.subrange(0, 2) =~= seq![hex_char(c.red / 16), hex_char(c.red % 16)]);
        assert(rest.subrange(2, 4) =~= seq![hex_char(c.green / 16), hex_char(c.green % 16)]);
        assert(rest.subrange(4, 6) =~= seq![hex_char(c.blue / 16), hex_char(c.blue % 16)]);
    }
}

/// The color packed in a `u32`: an opaque alpha byte, then the red, green and blue bytes.
pub open spec fn packed(c: Color) -> u32 {
    (0xFF00_0000 + c.red * 0x1_0000 + c.green * 0x100 + c.blue) as u32
}

/// The color whose red, green and blue bytes are the three low bytes of `v`.
pub open spec fn unpacked(v: u32) -> Color {
    Color {
        red: ((v / 0x1_0000) % 0x100) as u8,
        green: ((v / 0x100) % 0x100) as u8,
        blue: (v % 0x100) as u8,
    }
}

/// An optional color packed in a `u32`: zero for none.
pub open spec fn opt_packed(c: Option<Color>) -> u32 {
    match c {
        Some(c) => packed(c),
        None => 0,
    }
}

/// The optional color of `v`: none where the alpha byte is zero.
pub open spec fn opt_unpacked(v: u32) -> Option<Color> {
    if v / 0x100_0000 == 0 {
        None
    } else {
        Some(unpacked(v))
    }
}

/// The color of the three low bytes of `value`, the alpha byte being ignored.
pub fn parse_color(value: u32) -> (r: Color)
    ensures
        r == unpacked(value),
{
    let red = (value & 0x00FF_0000) >> 16;
    let green = (value & 0x0000_FF00) >> 8;
    let blue = value & 0x0000_00FF;
    assert(red == (value / 0x1_0000) % 0x100 && red < 0x100) by (bit_vector)
        requires
            red == (value & 0x00FF_0000) >> 16,
    ;
    assert(green == (value / 0x100) % 0x100 && green < 0x100) by (bit_vector)
        requires
            green == (value & 0x0000_FF00) >> 8,
    ;
    assert(blue == value % 0x100 && blue < 0x100) by (bit_vector)
        requires
            blue == value & 0x0000_00FF,
    ;
    Color { red: red as u8, green: green as u8, blue: blue as u8 }
}

/// The optional color of `value`: none where its alpha byte is zero, else the color of its
/// three low bytes.
pub fn parse_opt_color(value: u32) -> (r: Option<Color>)
    ensures
        r == opt_unpacked(value),
{
    let alpha = value & 0xFF00_0000;
    assert((alpha == 0) == (value / 0x100_0000 == 0)) by (bit_vector)
        requires
            alpha == value & 0xFF00_0000,
    ;
    if alpha == 0 {
        return None;
    }
    Some(parse_color(value))
}

/// The color packed in a `u32`, with an opaque alpha byte.
pub fn serialize_color(color: &Color) -> (r: u32)
    ensures
        r == packed(*color),
{
    let red = color.red as u32;
    let green = color.green as u32;
    let blue = color.blue as u32;
    let r = (0xFFu32 << 24) | (red << 16) | (green << 8) | blue;
    assert(r == 0xFF00_0000 + red * 0x1_0000 + green * 0x100 + blue) by (bit_vector)
        requires
            red < 0x100,
            green < 0x100,
            blue < 0x100,
            r == (0xFFu32 << 24) | (red << 16) | (green << 8) | blue,
    ;
    r
}

/// The optional color packed in a `u32`, zero standing for none.
pub fn serialize_opt_color(color: &Option<Color>) -> (r: u32)
    ensures
        r == opt_packed(*color),
{
    match color {
        Some(c) => serialize_color(c),
        None => 0,
    }
}

/// Unpacking a packed color gives the color again.
pub proof fn lemma_unpack_packed(c: Color)
    ensures
        unpacked(packed(c)) == c,
        opt_unpacked(packed(c)) == Some(c),
{
    let (r, g, b) = (c.red as u32, c.green as u32, c.blue as u32);
    let v: u32 = packed(c);
    assert(v == 0xFF00_0000 + r * 0x1_0000 + g * 0x100 + b);
    assert((v / 0x1_0000) % 0x100 == r && (v / 0x100) % 0x100 == g && v % 0x100 == b
        && v / 0x100_0000 == 0xFF) by (bit_vector)
        requires
            r < 0x100,
            g < 0x100,
            b < 0x100,
            v == 0xFF00_0000 + r * 0x1_0000 + g * 0x100 + b,
    ;
}

/// Unpacking a packed optional color gives the optional color again.
pub proof fn lemma_unpack_packed_opt(c: Option<Color>)
    ensures
        opt_unpacked(opt_packed(c)) == c,
{
    if let Some(k) = c {
        lemma_unpack_packed(k);
    }
}

/// Packing the color of a value with an opaque alpha byte gives the value again.
pub proof fn lemma_pack_unpacked(v: u32)
    requires
        v / 0x100_0000 == 0xFF,
    ensures
        packed(unpacked(v)) == v,
{
    let (r, g, b) = ((v / 0x1_0000) % 0x100, (v / 0x100) % 0x100, v % 0x100);
    assert(v == 0xFF00_0000 + r * 0x1_0000 + g * 0x100 + b) by (bit_vector)
        requires
            v / 0x100_0000 == 0xFF,
            r == (v / 0x1_0000) % 0x100,
            g == (v / 0x100) % 0x100,
            b == v % 0x100,
    ;
}

} // verus!
