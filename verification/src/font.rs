//! The widths of texts drawn in Helvetica, from a table of the widths of the ASCII characters.
use vstd::prelude::*;
use vstd::string::{StrSliceExecFns, StringExecFns};

use crate::text::min_int;

verus! {

/// The font that is used to measure the widths of texts.
///
/// Only the widths of ASCII characters are known; the width of any other character is
/// overestimated.
#[derive(Debug, Clone, Copy)]
pub struct Font {}

impl Default for Font {
    fn default() -> (r: Font) {
        Font {}
    }
}

/// The advance of an ASCII character, in units of a 2048 units em.
pub open spec fn ascii_advance(c: u32) -> nat {
    match c {
        9 | 10 | 13 | 32 | 33 | 44 | 46 | 47 | 58 | 59 | 73 | 91 | 92 | 93 | 102 | 116 => 569,
        34 => 727,
        35 | 36 | 48 | 49 | 50 | 51 | 52 | 53 | 54 | 55 | 56 | 57 | 63 | 76 | 95 | 97 | 98 | 100 | 101 | 103 | 104 | 110 | 111 | 112 | 113 | 117 => 1139,
        37 => 1821,
        38 | 65 | 66 | 69 | 75 | 80 | 83 | 86 | 88 | 89 => 1366,
        39 => 391,
        40 | 41 | 45 | 96 | 114 => 682,
        42 => 797,
        43 | 60 | 61 | 62 | 126 => 1196,
        64 => 2079,
        67 | 68 | 72 | 78 | 82 | 85 | 119 => 1479,
        70 | 84 | 90 => 1251,
        71 | 79 | 81 => 1593,
        74 | 99 | 107 | 115 | 118 | 120 | 121 | 122 => 1024,
        77 | 109 => 1706,
        87 => 1933,
        94 => 961,
        105 | 106 | 108 => 455,
        123 | 125 => 684,
        124 => 532,
        _ => 0,
    }
}

/// The advance of a character, in units of a 2048 units em: the table's for ASCII and 2052 for
/// any other character.
pub open spec fn char_advance(c: char) -> nat {
    if (c as u32) < 128 {
        ascii_advance(c as u32)
    } else {
        2052
    }
}

/// The advance of a text: the sum of the advances of its characters.
pub open spec fn text_advance(s: Seq<char>) -> nat
    decreases s.len(),
{
    if s.len() == 0 {
        0
    } else {
        text_advance(s.drop_last()) + char_advance(s.last())
    }
}

/// The width of a text at `font_size`: the advance scaled from 2048 units to the font size and
/// rounded up, saturated at `u32::MAX`.
pub open spec fn text_width(s: Seq<char>, font_size: u32) -> nat {
    min_int((text_advance(s) * font_size + 2047) / 2048, u32::MAX as int) as nat
}

/// The advance of an ASCII character.
fn ascii_char_advance(c: u32) -> (r: u128)
    ensures
        r == ascii_advance(c),
{
    match c {
        9 | 10 | 13 | 32 | 33 | 44 | 46 | 47 | 58 | 59 | 73 | 91 | 92 | 93 | 102 | 116 => 569,
        34 => 727,
        35 | 36 | 48 | 49 | 50 | 51 | 52 | 53 | 54 | 55 | 56 | 57 | 63 | 76 | 95 | 97 | 98 | 100 | 101 | 103 | 104 | 110 | 111 | 112 | 113 | 117 => 1139,
        37 => 1821,
        38 | 65 | 66 | 69 | 75 | 80 | 83 | 86 | 88 | 89 => 1366,
        39 => 391,
        40 | 41 | 45 | 96 | 114 => 682,
        42 => 797,
        43 | 60 | 61 | 62 | 126 => 1196,
        64 => 2079,
        67 | 68 | 72 | 78 | 82 | 85 | 119 => 1479,
        70 | 84 | 90 => 1251,
        71 | 79 | 81 => 1593,
        74 | 99 | 107 | 115 | 118 | 120 | 121 | 122 => 1024,
        77 | 109 => 1706,
        87 => 1933,
        94 => 961,
        105 | 106 | 108 => 455,
        123 | 125 => 684,
        124 => 532,
        _ => 0,
    }
}

impl Font {
    /// The advance of a text.
    fn text_advance(&self, s: &str) -> (r: u128)
        ensures
            r == text_advance(s@),
            r <= 2079 * s@.len(),
            s@.len() <= usize::MAX,
    {
        let n = s.unicode_len();
        let mut total: u128 = 0;
        let mut i: usize = 0;
        while i < n
            invariant
                n == s@.len(),
                i <= n,
                total == text_advance(s@.subrange(0, i as int)),
                total <= 2079 * i,
            decreases n - i,
        {
            let c = s.get_char(i);
            let a = if (c as u32) < 128 {
                ascii_char_advance(c as u32)
            } else {
                2052
            };
            assert(s@.subrange(0, i + 1).drop_last() =~= s@.subrange(0, i as int));
            assert(a <= 2079);
            total = total + a;
            i = i + 1;
        }
        assert(s@.subrange(0, n as int) =~= s@);
        total
    }

    /// Get an upper bound on the width of the text `s` at `font_size`: the advance of the text
    /// scaled to the font size, rounded up (see [`text_width`]).
    pub fn get_text_width(&self, s: &str, font_size: u32) -> (r: u32)
        ensures
            r == text_width(s@, font_size),
    {
        let advance = self.text_advance(s);
        assert(advance <= 2079 * 0xffff_ffff_ffff_ffff) by (nonlinear_arith)
            requires
                advance <= 2079 * s@.len(),
                s@.len() <= 0xffff_ffff_ffff_ffff,
        ;
        let fs = font_size as u128;
        assert(advance * fs <= 2079 * 0xffff_ffff_ffff_ffff * 0xffff_ffff) by (nonlinear_arith)
            requires
                advance <= 2079 * 0xffff_ffff_ffff_ffff,
                fs <= 0xffff_ffff,
        ;
        let w = (advance * fs + 2047) / 2048;
        if w > 0xffff_ffff {
            0xffff_ffff
        } else {
            w as u32
        }
    }

    /// The name of the font family.
    pub fn get_font_family_name(&self) -> (r: Option<String>)
        ensures
            r matches Some(n) && n@ == "Helvetica"@,
    {
        Some(String::from_str("Helvetica"))
    }
}

} // verus!
