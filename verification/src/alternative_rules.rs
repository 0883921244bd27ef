//! The two variants of Conway's rule, each as a value of its own type.

use vstd::prelude::*;
use crate::resources::{day_and_night_next, highlife_next, CellularRule};

verus! {

/// HighLife: birth with three or six living neighbours, survival with two or
/// three.
#[derive(Clone, Copy, Debug)]
pub struct HighLifeRule;

impl CellularRule for HighLifeRule {
    open spec fn transition(&self, alive: bool, neighbours: int) -> bool {
        highlife_next(alive, neighbours)
    }

    fn check(&self, curr_state: bool, neighbours_alive: i32) -> (next: bool) {
        if curr_state {
            neighbours_alive == 2 || neighbours_alive == 3
        } else {
            neighbours_alive == 3 || neighbours_alive == 6
        }
    }
}

/// Day & Night: birth with 3, 6, 7 or 8 living neighbours, survival with 3,
/// 4, 6, 7 or 8.
#[derive(Clone, Copy, Debug)]
pub struct DayAndNightRule;

impl CellularRule for DayAndNightRule {
    open spec fn transition(&self, alive: bool, neighbours: int) -> bool {
        day_and_night_next(alive, neighbours)
    }

    fn check(&self, curr_state: bool, neighbours_alive: i32) -> (next: bool) {
        if curr_state {
            neighbours_alive == 3 || neighbours_alive == 4 || neighbours_alive == 6
                || neighbours_alive == 7 || neighbours_alive == 8
        } else {
            neighbours_alive == 3 || neighbours_alive == 6 || neighbours_alive == 7
                || neighbours_alive == 8
        }
    }
}

} // verus!
