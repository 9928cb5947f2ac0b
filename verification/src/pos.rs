//! Grid coordinates in a 16x16 texture atlas.
//!
//! A coordinate is a (column, row) pair, each in `[0, 16)`, packed into one
//! byte with the row in the high nibble and the column in the low nibble, so
//! that the byte order is row-major order. Its textual form is exactly two
//! lowercase hexadecimal digits, row digit first.

use vstd::prelude::*;
use vstd::string::StrSliceExecFns;
use vstd::string::StringExecFns;

verus! {

/// A position in a 16x16 atlas grid, packed as one byte: row in the high
/// nibble, column in the low nibble. Every byte is a valid position, and the
/// byte order is row-major order over (row, column).
#[derive(Debug, Clone, Copy, PartialEq, Eq, Structural)]
pub struct AtlasPos {
    pub code: u8,
}

/// Why a textual position was rejected: `InvalidFormat` when the input is not
/// exactly two characters, `InvalidDigits` when a character is not a
/// hexadecimal digit.
#[derive(Debug, Clone, Copy, PartialEq, Eq, Structural)]
pub enum ParseError {
    InvalidFormat,
    InvalidDigits,
}

impl AtlasPos {
    /// The column encoded in the low nibble.
    pub open spec fn col(self) -> u8 {
        self.code % 16
    }

    /// The row encoded in the high nibble.
    pub open spec fn row(self) -> u8 {
        self.code / 16
    }

    /// The packed byte for a (column, row) pair.
    pub open spec fn spec_from_pos(x: u8, y: u8) -> AtlasPos
        recommends
            x < 16,
            y < 16,
    {
        AtlasPos { code: (y * 16 + x) as u8 }
    }

    /// Packs a column `x` and a row `y`, both in `[0, 16)`, into a position.
    pub fn from_pos(x: u8, y: u8) -> (r: AtlasPos)
        requires
            x < 16,
            y < 16,
        ensures
            r == AtlasPos::spec_from_pos(x, y),
            r.col() == x,
            r.row() == y,
    {
        AtlasPos { code: y * 16 + x }
    }

    /// The two lowercase hex digits of a position: row digit, then column
    /// digit.
    pub open spec fn spec_format(self) -> Seq<char> {
        seq![hex_char(self.row()), hex_char(self.col())]
    }

    /// What parsing a piece of text yields: the position whose row digit
    /// comes first, or the error the text deserves.
    pub open spec fn spec_parse(s: Seq<char>) -> Result<AtlasPos, ParseError> {
        if s.len() != 2 {
            Err(ParseError::InvalidFormat)
        } else if !is_hex_digit(s[0]) || !is_hex_digit(s[1]) {
            Err(ParseError::InvalidDigits)
        } else {
            Ok(AtlasPos { code: (hex_val(s[0]) * 16 + hex_val(s[1])) as u8 })
        }
    }

    /// Formats the position as exactly two lowercase hex digits, row then
    /// column: the inverse of [`AtlasPos::parse`].
    pub fn format(&self) -> (r: String)
        ensures
            r@ == self.spec_format(),
    {
        let hi = self.code / 16;
        let lo = self.code % 16;
        let s = String::from_str(hex_str(hi));
        let r = s.concat(hex_str(lo));
        proof {
            assert(r@ =~= self.spec_format());
        }
        r
    }

    /// Parses exactly two hexadecimal digits, row digit then column digit.
    /// Rejects any other length with `InvalidFormat` and any non-hex
    /// character with `InvalidDigits`.
    pub fn parse(s: &str) -> (r: Result<AtlasPos, ParseError>)
        ensures
            r == AtlasPos::spec_parse(s@),
    {
        let n = s.unicode_len();
        if n != 2 {
            return Err(ParseError::InvalidFormat);
        }
        let c0 = s.get_char(0);
        let c1 = s.get_char(1);
        if !is_hex_digit_exec(c0) || !is_hex_digit_exec(c1) {
            return Err(ParseError::InvalidDigits);
        }
        let hi = hex_val_exec(c0);
        let lo = hex_val_exec(c1);
        Ok(AtlasPos { code: hi * 16 + lo })
    }
}

/// Whether `c` is an ASCII hexadecimal digit, either case.
pub open spec fn is_hex_digit(c: char) -> bool {
    (48 <= c as u32 && c as u32 <= 57)  // '0' ..= '9'
    || (97 <= c as u32 && c as u32 <= 102)  // 'a' ..= 'f'
    || (65 <= c as u32 && c as u32 <= 70)  // 'A' ..= 'F'
}

/// The value of a hexadecimal digit; zero for anything else.
pub open spec fn hex_val(c: char) -> u8 {
    if 48 <= c as u32 && c as u32 <= 57 {
        (c as u32 - 48) as u8
    } else if 97 <= c as u32 && c as u32 <= 102 {
        (c as u32 - 87) as u8
    } else if 65 <= c as u32 && c as u32 <= 70 {
        (c as u32 - 55) as u8
    } else {
        0
    }
}

/// The lowercase hex digit for a nibble; `'0'` for anything above 15.
pub open spec fn hex_char(n: u8) -> char {
    if n == 0 { '0' }
    else if n == 1 { '1' }
    else if n == 2 { '2' }
    else if n == 3 { '3' }
    else if n == 4 { '4' }
    else if n == 5 { '5' }
    else if n == 6 { '6' }
    else if n == 7 { '7' }
    else if n == 8 { '8' }
    else if n == 9 { '9' }
    else if n == 10 { 'a' }
    else if n == 11 { 'b' }
    else if n == 12 { 'c' }
    else if n == 13 { 'd' }
    else if n == 14 { 'e' }
    else if n == 15 { 'f' }
    else { '0' }
}

fn is_hex_digit_exec(c: char) -> (r: bool)
    ensures
        r == is_hex_digit(c),
{
    let v = c as u32;
    (48 <= v && v <= 57) || (97 <= v && v <= 102) || (65 <= v && v <= 70)
}

fn hex_val_exec(c: char) -> (r: u8)
    requires
        is_hex_digit(c),
    ensures
        r == hex_val(c),
        r < 16,
{
    let v = c as u32;
    if v <= 57 {
        (v - 48) as u8
    } else if v >= 97 {
        (v - 87) as u8
    } else {
        (v - 55) as u8
    }
}

fn hex_str(n: u8) -> (r: &'static str)
    requires
        n < 16,
    ensures
        r@ == seq![hex_char(n)],
{
    if n == 0 { proof { reveal_strlit("0"); assert("0"@ =~= seq![hex_char(0u8)]); } "0" }
    else if n == 1 { proof { reveal_strlit("1"); assert("1"@ =~= seq![hex_char(1u8)]); } "1" }
    else if n == 2 { proof { reveal_strlit("2"); assert("2"@ =~= seq![hex_char(2u8)]); } "2" }
    else if n == 3 { proof { reveal_strlit("3"); assert("3"@ =~= seq![hex_char(3u8)]); } "3" }
    else if n == 4 { proof { reveal_strlit("4"); assert("4"@ =~= seq![hex_char(4u8)]); } "4" }
    else if n == 5 { proof { reveal_strlit("5"); assert("5"@ =~= seq![hex_char(5u8)]); } "5" }
    else if n == 6 { proof { reveal_strlit("6"); assert("6"@ =~= seq![hex_char(6u8)]); } "6" }
    else if n == 7 { proof { reveal_strlit("7"); assert("7"@ =~= seq![hex_char(7u8)]); } "7" }
    else if n == 8 { proof { reveal_strlit("8"); assert("8"@ =~= seq![hex_char(8u8)]); } "8" }
    else if n == 9 { proof { reveal_strlit("9"); assert("9"@ =~= seq![hex_char(9u8)]); } "9" }
    else if n == 10 { proof { reveal_strlit("a"); assert("a"@ =~= seq![hex_char(10u8)]); } "a" }
    else if n == 11 { proof { reveal_strlit("b"); assert("b"@ =~= seq![hex_char(11u8)]); } "b" }
    else if n == 12 { proof { reveal_strlit("c"); assert("c"@ =~= seq![hex_char(12u8)]); } "c" }
    else if n == 13 { proof { reveal_strlit("d"); assert("d"@ =~= seq![hex_char(13u8)]); } "d" }
    else if n == 14 { proof { reveal_strlit("e"); assert("e"@ =~= seq![hex_char(14u8)]); } "e" }
    else { proof { reveal_strlit("f"); assert("f"@ =~= seq![hex_char(15u8)]); } "f" }
}

impl PartialOrd for AtlasPos {
    /// Positions compare by the packed byte, hence in row-major order.
    fn partial_cmp(&self, other: &Self) -> (r: Option<core::cmp::Ordering>) {
        if self.code < other.code {
            Some(core::cmp::Ordering::Less)
        } else if self.code == other.code {
            Some(core::cmp::Ordering::Equal)
        } else {
            Some(core::cmp::Ordering::Greater)
        }
    }
}

impl vstd::std_specs::cmp::PartialOrdSpecImpl for AtlasPos {
    open spec fn obeys_partial_cmp_spec() -> bool {
        true
    }

    open spec fn partial_cmp_spec(&self, other: &Self) -> Option<core::cmp::Ordering> {
        if self.code < other.code {
            Some(core::cmp::Ordering::Less)
        } else if self.code == other.code {
            Some(core::cmp::Ordering::Equal)
        } else {
            Some(core::cmp::Ordering::Greater)
        }
    }
}

/// Round trip: formatting any constructible position and parsing the result
/// gives the same position back.
pub proof fn lemma_format_parse_round_trip(x: u8, y: u8)
    requires
        x < 16,
        y < 16,
    ensures
        AtlasPos::spec_parse(AtlasPos::spec_from_pos(x, y).spec_format())
            == Ok::<AtlasPos, ParseError>(AtlasPos::spec_from_pos(x, y)),
{
    let p = AtlasPos::spec_from_pos(x, y);
    assert(p.row() == y && p.col() == x);
    assert(hex_val(hex_char(y)) == y && is_hex_digit(hex_char(y)));
    assert(hex_val(hex_char(x)) == x && is_hex_digit(hex_char(x)));
}

/// Parsing fails with `InvalidFormat` exactly on inputs whose length is not
/// 2, and with `InvalidDigits` exactly on two-character inputs holding a
/// non-hex character.
pub proof fn lemma_parse_errors(s: Seq<char>)
    ensures
        AtlasPos::spec_parse(s) == Err::<AtlasPos, ParseError>(ParseError::InvalidFormat)
            <==> s.len() != 2,
        AtlasPos::spec_parse(s) == Err::<AtlasPos, ParseError>(ParseError::InvalidDigits)
            <==> s.len() == 2 && !(is_hex_digit(s[0]) && is_hex_digit(s[1])),
{
}

/// The packed byte orders positions in row-major order: first by row, then by
/// column.
pub proof fn lemma_row_major_order(x1: u8, y1: u8, x2: u8, y2: u8)
    requires
        x1 < 16,
        y1 < 16,
        x2 < 16,
        y2 < 16,
    ensures
        AtlasPos::spec_from_pos(x1, y1).code < AtlasPos::spec_from_pos(x2, y2).code
            <==> (y1 < y2 || (y1 == y2 && x1 < x2)),
{
}

} // verus!
