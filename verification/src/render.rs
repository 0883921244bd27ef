//! What the library hands to a renderer: for each cell one directive that
//! says where to draw which glyph in which colours. Drawing itself is left to
//! the caller.

use vstd::prelude::*;
use crate::components::CellColor;

verus! {

/// One glyph to draw: its column and row on the character grid, its
/// foreground and background colours and its number in code page 437.
#[derive(Clone, Copy, Debug, PartialEq)]
pub struct DrawDirective {
    pub x: i32,
    pub y: i32,
    pub fg: CellColor,
    pub bg: CellColor,
    pub glyph: u16,
}

/// The character that shows a cell: `O` for a living cell, a blank for a dead
/// one.
pub open spec fn cell_symbol(alive: bool) -> char {
    if alive {
        'O'
    } else {
        ' '
    }
}

/// The number of a cell's character in code page 437.
pub open spec fn cell_glyph(alive: bool) -> u16 {
    if alive {
        79
    } else {
        32
    }
}

/// The background of every cell.
pub open spec fn black() -> CellColor {
    CellColor { r: 0, g: 0, b: 0 }
}

/// The directive that draws a cell.
pub open spec fn cell_drawing(x: i32, y: i32, alive: bool, color: CellColor) -> DrawDirective {
    DrawDirective { x, y, fg: color, bg: black(), glyph: cell_glyph(alive) }
}

/// Looks a character up with `bracket_lib`'s `to_cp437`, a table from
/// characters to their numbers in code page 437. The table gives `O` the
/// number 79 and the blank the number 32; the contract is stated for these
/// two characters only.
#[verifier::external_body]
fn code_page_437(symbol: char) -> (glyph: u16)
    requires
        symbol == 'O' || symbol == ' ',
    ensures
        glyph == (if symbol == 'O' { 79u16 } else { 32u16 }),
{
    bracket_lib::prelude::to_cp437(symbol)
}

/// Makes the directive that draws a cell.
pub fn draw_cell(x: i32, y: i32, alive: bool, color: CellColor) -> (directive: DrawDirective)
    ensures
        directive == cell_drawing(x, y, alive, color),
{
    let symbol = if alive {
        'O'
    } else {
        ' '
    };
    DrawDirective {
        x,
        y,
        fg: color,
        bg: CellColor { r: 0, g: 0, b: 0 },
        glyph: code_page_437(symbol),
    }
}

} // verus!
