//! The per-cell attributes that an entity of the simulation carries.

use vstd::prelude::*;

verus! {

/// Where a cell sits on the board. A cell keeps its position for its whole life.
#[derive(Clone, Copy, Debug, PartialEq)]
pub struct Position {
    pub x: i32,
    pub y: i32,
}

/// The current state of a cell.
#[derive(Clone, Copy, Debug, PartialEq)]
pub struct Cell {
    pub alive: bool,
}

/// The state that a cell will take when the generation under computation is
/// committed. It exists only between staging and cleanup of one tick.
#[derive(Clone, Copy, Debug, PartialEq)]
pub struct NextCell {
    pub alive: bool,
}

/// For how many consecutive ticks a cell has been alive.
#[derive(Clone, Copy, Debug, PartialEq)]
pub struct Age {
    pub value: u32,
}

impl Default for Age {
    fn default() -> (age: Age)
        ensures
            age.value == 0,
    {
        Age { value: 0 }
    }
}

/// The colour a cell is drawn in. It is derived from the cell's age.
#[derive(Clone, Copy, Debug, PartialEq)]
pub struct CellColor {
    pub r: u8,
    pub g: u8,
    pub b: u8,
}

impl Default for CellColor {
    fn default() -> (color: CellColor)
        ensures
            color.r == 255,
            color.g == 255,
            color.b == 255,
    {
        CellColor { r: 255, g: 255, b: 255 }
    }
}

} // verus!
