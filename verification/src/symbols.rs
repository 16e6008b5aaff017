//! The Unicode symbols with which boards are drawn.

use vstd::prelude::*;

verus! {

#[derive(Copy, Clone, Debug, PartialEq, Eq, Structural)]
pub enum Color {
    White,
    Black,
    Red,
    Orange,
    Yellow,
    Green,
    Blue,
    Purple,
    Brown,
}

/// The symbol of an empty place.
pub open spec fn empty_symbol() -> Seq<char> {
    "\u{2b1b}"@
}

/// The symbol of which borders between places are made.
pub open spec fn border_symbol() -> Seq<char> {
    "\u{2b1c}"@
}

/// The symbol of a part of a board that ended in a tie.
pub open spec fn tie_symbol() -> Seq<char> {
    "\u{1f7e6}"@
}

/// The coloured square symbols.
pub open spec fn square_symbol(color: Color) -> Seq<char> {
    match color {
        Color::White => "\u{2b1c}"@,
        Color::Black => "\u{2b1b}"@,
        Color::Red => "\u{1f7e5}"@,
        Color::Orange => "\u{1f7e7}"@,
        Color::Yellow => "\u{1f7e8}"@,
        Color::Green => "\u{1f7e9}"@,
        Color::Blue => "\u{1f7e6}"@,
        Color::Purple => "\u{1f7ea}"@,
        Color::Brown => "\u{1f7eb}"@,
    }
}

/// The coloured circle symbols.
pub open spec fn circle_symbol(color: Color) -> Seq<char> {
    match color {
        Color::White => "\u{26aa}\u{fe0f}"@,
        Color::Black => "\u{26ab}\u{fe0f}"@,
        Color::Red => "\u{1f534}"@,
        Color::Orange => "\u{1f7e0}"@,
        Color::Yellow => "\u{1f7e1}"@,
        Color::Green => "\u{1f7e2}"@,
        Color::Blue => "\u{1f535}"@,
        Color::Purple => "\u{1f7e3}"@,
        Color::Brown => "\u{1f7e4}"@,
    }
}

/// The keycap symbol of a decimal digit: the digit, a variation selector and
/// the enclosing keycap.
pub open spec fn number_symbol(num: int) -> Seq<char> {
    if num == 0 {
        "0\u{fe0f}\u{20e3}"@
    } else if num == 1 {
        "1\u{fe0f}\u{20e3}"@
    } else if num == 2 {
        "2\u{fe0f}\u{20e3}"@
    } else if num == 3 {
        "3\u{fe0f}\u{20e3}"@
    } else if num == 4 {
        "4\u{fe0f}\u{20e3}"@
    } else if num == 5 {
        "5\u{fe0f}\u{20e3}"@
    } else if num == 6 {
        "6\u{fe0f}\u{20e3}"@
    } else if num == 7 {
        "7\u{fe0f}\u{20e3}"@
    } else if num == 8 {
        "8\u{fe0f}\u{20e3}"@
    } else {
        "9\u{fe0f}\u{20e3}"@
    }
}

/// The decimal digit characters.
pub open spec fn digit_char(num: int) -> char {
    if num == 0 {
        '0'
    } else if num == 1 {
        '1'
    } else if num == 2 {
        '2'
    } else if num == 3 {
        '3'
    } else if num == 4 {
        '4'
    } else if num == 5 {
        '5'
    } else if num == 6 {
        '6'
    } else if num == 7 {
        '7'
    } else if num == 8 {
        '8'
    } else {
        '9'
    }
}

/// A keycap symbol is three characters long and begins with its digit.
pub proof fn number_symbol_shape(num: int)
    requires
        0 <= num < 10,
    ensures
        number_symbol(num) == seq![digit_char(num), '\u{fe0f}', '\u{20e3}'],
{
    reveal_strlit("0\u{fe0f}\u{20e3}");
    reveal_strlit("1\u{fe0f}\u{20e3}");
    reveal_strlit("2\u{fe0f}\u{20e3}");
    reveal_strlit("3\u{fe0f}\u{20e3}");
    reveal_strlit("4\u{fe0f}\u{20e3}");
    reveal_strlit("5\u{fe0f}\u{20e3}");
    reveal_strlit("6\u{fe0f}\u{20e3}");
    reveal_strlit("7\u{fe0f}\u{20e3}");
    reveal_strlit("8\u{fe0f}\u{20e3}");
    reveal_strlit("9\u{fe0f}\u{20e3}");
    assert(number_symbol(num) =~= seq![digit_char(num), '\u{fe0f}', '\u{20e3}']);
}

/// The symbol of an empty place.
pub fn empty_str() -> (s: &'static str)
    ensures
        s@ == empty_symbol(),
{
    "\u{2b1b}"
}

/// The symbol of a border.
pub fn border_str() -> (s: &'static str)
    ensures
        s@ == border_symbol(),
{
    "\u{2b1c}"
}

/// The symbol of a tied part.
pub fn tie_str() -> (s: &'static str)
    ensures
        s@ == tie_symbol(),
{
    "\u{1f7e6}"
}

/// The keycap symbol of the digit `num`.
pub fn number_str(num: usize) -> (s: &'static str)
    requires
        num < 10,
    ensures
        s@ == number_symbol(num as int),
{
    if num == 0 {
        "0\u{fe0f}\u{20e3}"
    } else if num == 1 {
        "1\u{fe0f}\u{20e3}"
    } else if num == 2 {
        "2\u{fe0f}\u{20e3}"
    } else if num == 3 {
        "3\u{fe0f}\u{20e3}"
    } else if num == 4 {
        "4\u{fe0f}\u{20e3}"
    } else if num == 5 {
        "5\u{fe0f}\u{20e3}"
    } else if num == 6 {
        "6\u{fe0f}\u{20e3}"
    } else if num == 7 {
        "7\u{fe0f}\u{20e3}"
    } else if num == 8 {
        "8\u{fe0f}\u{20e3}"
    } else {
        "9\u{fe0f}\u{20e3}"
    }
}

/// The keycap symbol of the digit `num`, as the text of a reaction.
pub fn number_emoji(num: usize) -> (s: String)
    requires
        num < 10,
    ensures
        s@ == number_symbol(num as int),
        s@ == seq![digit_char(num as int), '\u{fe0f}', '\u{20e3}'],
{
    proof {
        number_symbol_shape(num as int);
    }
    String::from_str(number_str(num))
}

/// The square of the given colour.
pub fn square(color: Color) -> (s: &'static str)
    ensures
        s@ == square_symbol(color),
{
    match color {
        Color::White => "\u{2b1c}",
        Color::Black => "\u{2b1b}",
        Color::Red => "\u{1f7e5}",
        Color::Orange => "\u{1f7e7}",
        Color::Yellow => "\u{1f7e8}",
        Color::Green => "\u{1f7e9}",
        Color::Blue => "\u{1f7e6}",
        Color::Purple => "\u{1f7ea}",
        Color::Brown => "\u{1f7eb}",
    }
}

/// The circle of the given colour.
pub fn circle(color: Color) -> (s: &'static str)
    ensures
        s@ == circle_symbol(color),
{
    match color {
        Color::White => "\u{26aa}\u{fe0f}",
        Color::Black => "\u{26ab}\u{fe0f}",
        Color::Red => "\u{1f534}",
        Color::Orange => "\u{1f7e0}",
        Color::Yellow => "\u{1f7e1}",
        Color::Green => "\u{1f7e2}",
        Color::Blue => "\u{1f535}",
        Color::Purple => "\u{1f7e3}",
        Color::Brown => "\u{1f7e4}",
    }
}

} // verus!
