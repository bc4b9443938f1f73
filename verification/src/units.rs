//! Display units: columns, rows, positions and sizes.

use vstd::prelude::*;

verus! {

/// A count of terminal cells (columns or rows).
pub type ChUnit = usize;

/// A place in the document: a display column on a row.
#[derive(Clone, Copy, Debug, PartialEq, Eq, Hash, Structural)]
pub struct Position {
    pub col_index: ChUnit,
    pub row_index: ChUnit,
}

impl Position {
    pub fn new(col_index: ChUnit, row_index: ChUnit) -> (p: Position)
        ensures
            p.col_index == col_index,
            p.row_index == row_index,
    {
        Position { col_index, row_index }
    }
}

impl Default for Position {
    fn default() -> (p: Position)
        ensures
            p.col_index == 0,
            p.row_index == 0,
    {
        Position { col_index: 0, row_index: 0 }
    }
}

/// The extent of a rectangle of terminal cells.
#[derive(Clone, Copy, Debug, PartialEq, Eq, Hash, Structural)]
pub struct Size {
    pub col_count: ChUnit,
    pub row_count: ChUnit,
}

impl Size {
    pub fn new(col_count: ChUnit, row_count: ChUnit) -> (s: Size)
        ensures
            s.col_count == col_count,
            s.row_count == row_count,
    {
        Size { col_count, row_count }
    }
}

impl Default for Size {
    fn default() -> (s: Size)
        ensures
            s.col_count == 0,
            s.row_count == 0,
    {
        Size { col_count: 0, row_count: 0 }
    }
}

/// The ten digits.
pub open spec fn digit_of(d: nat) -> char {
    seq!['0', '1', '2', '3', '4', '5', '6', '7', '8', '9'][d as int]
}

/// A number written in decimal digits, without leading zeros.
pub open spec fn decimal_text(n: nat) -> Seq<char>
    decreases n,
{
    if n < 10 {
        seq![digit_of(n)]
    } else {
        decimal_text(n / 10).push(digit_of(n % 10))
    }
}

/// Calls `String::from` on a character. Believed of it, as std documents:
/// the string holds that one character.
#[verifier::external_body]
pub(crate) fn char_to_string(character: char) -> (text: String)
    ensures
        text@ == seq![character],
{
    String::from(character)
}

/// The character of a digit.
fn digit_to_char(d: usize) -> (c: char)
    requires
        d < 10,
    ensures
        c == digit_of(d as nat),
{
    if d == 0 {
        '0'
    } else if d == 1 {
        '1'
    } else if d == 2 {
        '2'
    } else if d == 3 {
        '3'
    } else if d == 4 {
        '4'
    } else if d == 5 {
        '5'
    } else if d == 6 {
        '6'
    } else if d == 7 {
        '7'
    } else if d == 8 {
        '8'
    } else {
        '9'
    }
}

/// A number written in decimal digits.
pub fn usize_to_string(n: usize) -> (text: String)
    ensures
        text@ == decimal_text(n as nat),
    decreases n,
{
    if n < 10 {
        char_to_string(digit_to_char(n))
    } else {
        let mut text = usize_to_string(n / 10);
        text.append(char_to_string(digit_to_char(n % 10)).as_str());
        text
    }
}

/// `a - b`, and 0 where `b` is the larger.
pub open spec fn clamped_sub(a: int, b: int) -> int {
    if a >= b {
        a - b
    } else {
        0
    }
}

/// `a + b`, and `usize::MAX` where the sum is larger.
pub open spec fn clamped_add(a: int, b: int) -> int {
    if a + b <= usize::MAX {
        a + b
    } else {
        usize::MAX as int
    }
}

/// Subtraction that stops at 0.
pub fn sub_unsigned(a: ChUnit, b: ChUnit) -> (r: ChUnit)
    ensures
        r == clamped_sub(a as int, b as int),
{
    if a >= b {
        a - b
    } else {
        0
    }
}

/// Addition that stops at `usize::MAX`.
pub fn add_unsigned(a: ChUnit, b: ChUnit) -> (r: ChUnit)
    ensures
        r == clamped_add(a as int, b as int),
{
    if b <= usize::MAX - a {
        a + b
    } else {
        usize::MAX
    }
}

} // verus!
