//! A cellular automaton on a bounded rectangular board: Conway's Game of Life
//! and its birth/survival variants.
//!
//! The library holds two engines. `GridWorld` keeps the board as a map from
//! positions to states and steps it under any `Rule`. `game::GameState` keeps
//! the cells as entities of a store and runs the systems of `systems` on them
//! each tick, which also track each cell's age and colour.

use std::collections::BTreeMap;
use vstd::prelude::*;

pub mod alternative_rules;
pub mod components;
pub mod game;
pub mod neighbours;
pub mod render;
pub mod resources;
pub mod rule_text;
pub mod rules;
pub mod seeder;
pub mod store;
pub mod systems;

pub use crate::rules::Rule;
pub use crate::seeder::Seeder;

use crate::neighbours::{
    count_around, if_on_board, lemma_neighbours_lie_on_board, neighbours, neighbours_on_board,
    on_board, one_if_living,
};
use crate::components::CellColor;
use crate::render::{cell_drawing, draw_cell, DrawDirective};
use crate::seeder::{is_binary_board, is_board, lemma_seeded_board_is_binary, Grid};

verus! {

broadcast use vstd::laws_cmp::group_laws_cmp;

/// A board with its rule.
pub struct GridWorld {
    pub width: i32,
    pub height: i32,
    pub grid: Grid,
    pub rule: Rule,
}

/// The positions at which a grid holds the state 1.
pub open spec fn living_on(grid: Map<(i32, i32), i32>) -> spec_fn(int, int) -> bool {
    |x: int, y: int| grid.contains_key((x as i32, y as i32)) && grid[(x as i32, y as i32)] == 1
}

/// The sum of the states of the given positions.
pub open spec fn states_sum(grid: Map<(i32, i32), i32>, points: Seq<(i32, i32)>) -> int
    decreases points.len(),
{
    if points.len() == 0 {
        0
    } else {
        states_sum(grid, points.drop_last()) + grid[points.last()]
    }
}

proof fn lemma_states_sum_of_two(
    grid: Map<(i32, i32), i32>,
    front: Seq<(i32, i32)>,
    back: Seq<(i32, i32)>,
)
    ensures
        states_sum(grid, front + back) == states_sum(grid, front) + states_sum(grid, back),
    decreases back.len(),
{
    if back.len() == 0 {
        assert(front + back == front);
    } else {
        assert((front + back).drop_last() == front + back.drop_last());
        lemma_states_sum_of_two(grid, front, back.drop_last());
    }
}

proof fn lemma_states_sum_of_one(
    grid: Map<(i32, i32), i32>,
    width: int,
    height: int,
    x: int,
    y: int,
)
    requires
        is_binary_board(grid, width, height),
        width <= i32::MAX,
        height <= i32::MAX,
    ensures
        states_sum(grid, if_on_board(width, height, x, y)) == one_if_living(
            living_on(grid),
            width,
            height,
            x,
            y,
        ),
{
    if on_board(width, height, x, y) {
        let point = (x as i32, y as i32);
        assert(grid.contains_key((x as i32, y as i32)));
        assert(seq![point].drop_last() == Seq::<(i32, i32)>::empty());
        assert(seq![point].last() == point);
        reveal_with_fuel(states_sum, 2);
    }
}

/// On a board of states 0 and 1, the states of a cell's neighbours add up to
/// the number of its living neighbours.
pub proof fn lemma_states_sum_counts_the_living(
    grid: Map<(i32, i32), i32>,
    width: int,
    height: int,
    x: int,
    y: int,
)
    requires
        is_binary_board(grid, width, height),
        width <= i32::MAX,
        height <= i32::MAX,
    ensures
        states_sum(grid, neighbours_on_board(width, height, x, y)) == count_around(
            living_on(grid),
            width,
            height,
            x,
            y,
        ),
{
    let lo_lo = if_on_board(width, height, x - 1, y - 1);
    let lo_mid = if_on_board(width, height, x - 1, y);
    let lo_hi = if_on_board(width, height, x - 1, y + 1);
    let mid_lo = if_on_board(width, height, x, y - 1);
    let mid_hi = if_on_board(width, height, x, y + 1);
    let hi_lo = if_on_board(width, height, x + 1, y - 1);
    let hi_mid = if_on_board(width, height, x + 1, y);
    let hi_hi = if_on_board(width, height, x + 1, y + 1);
    lemma_states_sum_of_two(grid, lo_lo, lo_mid);
    lemma_states_sum_of_two(grid, lo_lo + lo_mid, lo_hi);
    lemma_states_sum_of_two(grid, lo_lo + lo_mid + lo_hi, mid_lo);
    lemma_states_sum_of_two(grid, lo_lo + lo_mid + lo_hi + mid_lo, mid_hi);
    lemma_states_sum_of_two(grid, lo_lo + lo_mid + lo_hi + mid_lo + mid_hi, hi_lo);
    lemma_states_sum_of_two(grid, lo_lo + lo_mid + lo_hi + mid_lo + mid_hi + hi_lo, hi_mid);
    lemma_states_sum_of_two(grid, lo_lo + lo_mid + lo_hi + mid_lo + mid_hi + hi_lo + hi_mid, hi_hi);
    lemma_states_sum_of_one(grid, width, height, x - 1, y - 1);
    lemma_states_sum_of_one(grid, width, height, x - 1, y);
    lemma_states_sum_of_one(grid, width, height, x - 1, y + 1);
    lemma_states_sum_of_one(grid, width, height, x, y - 1);
    lemma_states_sum_of_one(grid, width, height, x, y + 1);
    lemma_states_sum_of_one(grid, width, height, x + 1, y - 1);
    lemma_states_sum_of_one(grid, width, height, x + 1, y);
    lemma_states_sum_of_one(grid, width, height, x + 1, y + 1);
}

/// The character that `print` writes for a state: `O` for 1, `-` for any
/// other.
pub open spec fn state_symbol(state: i32) -> char {
    if state == 1 {
        'O'
    } else {
        '-'
    }
}

/// The first `cells` characters of the column `x`.
pub open spec fn column_text(grid: Map<(i32, i32), i32>, x: i32, cells: int) -> Seq<char>
    decreases cells,
{
    if cells <= 0 {
        Seq::empty()
    } else {
        column_text(grid, x, cells - 1).push(state_symbol(grid[(x, (cells - 1) as i32)]))
    }
}

/// The first `columns` columns, each of `height` characters, with a line
/// break between one column and the next.
pub open spec fn columns_text(grid: Map<(i32, i32), i32>, height: int, columns: int) -> Seq<char>
    decreases columns,
{
    if columns <= 0 {
        Seq::empty()
    } else if columns == 1 {
        column_text(grid, 0, height)
    } else {
        columns_text(grid, height, columns - 1).push('\n') + column_text(
            grid,
            (columns - 1) as i32,
            height,
        )
    }
}

/// The directive that draws the cell at `(x, y)` of a grid, white on black.
pub open spec fn state_drawing(grid: Map<(i32, i32), i32>, x: i32, y: i32) -> DrawDirective {
    cell_drawing(x, y, grid[(x, y)] == 1, CellColor { r: 255, g: 255, b: 255 })
}

/// The directives of the first `cells` cells of the column `x`.
pub open spec fn column_drawings(grid: Map<(i32, i32), i32>, x: i32, cells: int) -> Seq<
    DrawDirective,
>
    decreases cells,
{
    if cells <= 0 {
        Seq::empty()
    } else {
        column_drawings(grid, x, cells - 1).push(state_drawing(grid, x, (cells - 1) as i32))
    }
}

/// The directives of the first `columns` columns, each of `height` cells.
pub open spec fn columns_drawings(grid: Map<(i32, i32), i32>, height: int, columns: int) -> Seq<
    DrawDirective,
>
    decreases columns,
{
    if columns <= 0 {
        Seq::empty()
    } else {
        columns_drawings(grid, height, columns - 1) + column_drawings(
            grid,
            (columns - 1) as i32,
            height,
        )
    }
}

impl GridWorld {
    /// The grid has one state for each position of the board, 0 or 1.
    pub open spec fn well_formed(&self) -> bool {
        is_binary_board(self.grid@, self.width as int, self.height as int)
    }

    /// Tests whether the grid has one state for each position of the board,
    /// 0 or 1, and no state for any other position.
    pub fn is_well_formed(&self) -> (ok: bool)
        ensures
            ok == self.well_formed(),
    {
        is_board(&self.grid, self.width, self.height)
    }

    /// The state of `(x, y)` in the next generation: what the rule gives for
    /// the cell's state and the number of its living neighbours, both taken
    /// from this generation.
    pub open spec fn next_state_at(&self, x: i32, y: i32) -> int {
        self.rule.next_state(
            self.grid@[(x, y)] as int,
            count_around(
                living_on(self.grid@),
                self.width as int,
                self.height as int,
                x as int,
                y as int,
            ),
        )
    }

    /// A board of the given size, filled by the seeder.
    pub fn new(width: i32, height: i32, seeder: &Seeder, rule: Rule) -> (world: GridWorld)
        ensures
            world.width == width,
            world.height == height,
            world.rule == rule,
            seeder.admits(width as int, height as int, world.grid@),
            world.well_formed(),
    {
        let grid = seeder.seed(width, height);
        proof {
            lemma_seeded_board_is_binary(*seeder, width as int, height as int, grid@);
        }
        GridWorld { width, height, grid, rule }
    }

    /// Adds up the states of the neighbours of `(x, y)`.
    fn neighbours_state(&self, x: i32, y: i32) -> (total: i32)
        requires
            self.well_formed(),
        ensures
            total == count_around(
                living_on(self.grid@),
                self.width as int,
                self.height as int,
                x as int,
                y as int,
            ),
    {
        let points = neighbours((x, y), self.width, self.height);
        proof {
            lemma_neighbours_lie_on_board(
                self.width as int,
                self.height as int,
                x as int,
                y as int,
            );
            lemma_states_sum_counts_the_living(
                self.grid@,
                self.width as int,
                self.height as int,
                x as int,
                y as int,
            );
        }
        let mut total: i32 = 0;
        let mut i: usize = 0;
        while i < points.len()
            invariant
                i <= points.len(),
                points@.len() <= 8,
                self.well_formed(),
                forall|j: int|
                    0 <= j < points@.len() ==> on_board(
                        self.width as int,
                        self.height as int,
                        (#[trigger] points@[j]).0 as int,
                        points@[j].1 as int,
                    ),
                total == states_sum(self.grid@, points@.take(i as int)),
                0 <= total <= i,
            decreases points.len() - i,
        {
            let point = points[i];
            assert(points@.take(i + 1).drop_last() == points@.take(i as int));
            assert(self.grid@.contains_key((point.0, point.1)));
            let state: i32 = match self.grid.get(&point) {
                Some(state) => *state,
                None => 0,
            };
            total = total + state;
            i = i + 1;
        }
        assert(points@.take(points@.len() as int) == points@);
        total
    }

    /// The next generation. Every state of it is computed from this
    /// generation, which stays as it is.
    pub fn next(&self) -> (next: GridWorld)
        requires
            self.well_formed(),
        ensures
            next.width == self.width,
            next.height == self.height,
            next.rule.borns@ == self.rule.borns@,
            next.rule.stays@ == self.rule.stays@,
            next.well_formed(),
            forall|x: i32, y: i32|
                #![trigger next.grid@[(x, y)]]
                on_board(self.width as int, self.height as int, x as int, y as int) ==> next.grid@[(
                    x,
                    y,
                )] == self.next_state_at(x, y),
    {
        let mut next_grid: Grid = BTreeMap::new();
        let mut x: i32 = 0;
        while x < self.width
            invariant
                0 <= x,
                x <= self.width || x == 0,
                self.well_formed(),
                forall|a: i32, b: i32|
                    #![trigger next_grid@.contains_key((a, b))]
                    next_grid@.contains_key((a, b)) <==> 0 <= a < x && 0 <= b < self.height,
                forall|a: i32, b: i32|
                    #![trigger next_grid@.contains_key((a, b))]
                    next_grid@.contains_key((a, b)) ==> next_grid@[(a, b)] == self.next_state_at(
                        a,
                        b,
                    ),
            decreases self.width - x,
        {
            let mut y: i32 = 0;
            while y < self.height
                invariant
                    0 <= x < self.width,
                    0 <= y,
                    y <= self.height || y == 0,
                    self.well_formed(),
                    forall|a: i32, b: i32|
                        #![trigger next_grid@.contains_key((a, b))]
                        next_grid@.contains_key((a, b)) <==> ((0 <= a < x && 0 <= b < self.height)
                            || (a == x && 0 <= b < y)),
                    forall|a: i32, b: i32|
                        #![trigger next_grid@.contains_key((a, b))]
                        next_grid@.contains_key((a, b)) ==> next_grid@[(a, b)]
                            == self.next_state_at(a, b),
                decreases self.height - y,
            {
                assert(self.grid@.contains_key((x, y)));
                let state: i32 = match self.grid.get(&(x, y)) {
                    Some(state) => *state,
                    None => 0,
                };
                let total: i32 = self.neighbours_state(x, y);
                let new_state: i32 = self.rule.check(state, total);
                next_grid.insert((x, y), new_state);
                y = y + 1;
            }
            x = x + 1;
        }
        assert forall|a: i32, b: i32|
            #![trigger next_grid@[(a, b)]]
            on_board(self.width as int, self.height as int, a as int, b as int) implies next_grid@[(
            a,
            b,
        )] == self.next_state_at(a, b) by {
            assert(next_grid@.contains_key((a, b)));
        }
        GridWorld {
            width: self.width,
            height: self.height,
            grid: next_grid,
            rule: Rule { borns: self.rule.borns.clone(), stays: self.rule.stays.clone() },
        }
    }

    /// The board as `print` shows it: the columns in order, one line each,
    /// and a line break at the end. A board without cells is a single line
    /// break.
    pub open spec fn text(&self) -> Seq<char> {
        if self.height > 0 {
            columns_text(self.grid@, self.height as int, self.width as int).push('\n')
        } else {
            seq!['\n']
        }
    }

    /// Writes the board as text, for the caller to print.
    pub fn print(&self) -> (text: String)
        requires
            self.well_formed(),
        ensures
            text@ == self.text(),
    {
        let mut text = String::new();
        proof {
            reveal_strlit("\n");
            reveal_strlit("O");
            reveal_strlit("-");
        }
        if self.height > 0 {
            let mut x: i32 = 0;
            while x < self.width
                invariant
                    0 <= x,
                    x <= self.width || x == 0,
                    self.height > 0,
                    self.well_formed(),
                    "\n"@ == seq!['\n'],
                    "O"@ == seq!['O'],
                    "-"@ == seq!['-'],
                    text@ == columns_text(self.grid@, self.height as int, x as int),
                decreases self.width - x,
            {
                if x > 0 {
                    text.append("\n");
                }
                let ghost start = text@;
                let mut y: i32 = 0;
                while y < self.height
                    invariant
                        0 <= x < self.width,
                        0 <= y <= self.height,
                        self.well_formed(),
                        "O"@ == seq!['O'],
                        "-"@ == seq!['-'],
                        text@ == start + column_text(self.grid@, x, y as int),
                    decreases self.height - y,
                {
                    assert(self.grid@.contains_key((x, y)));
                    let alive = match self.grid.get(&(x, y)) {
                        Some(state) => *state == 1,
                        None => false,
                    };
                    if alive {
                        text.append("O");
                    } else {
                        text.append("-");
                    }
                    y = y + 1;
                }
                x = x + 1;
            }
        }
        text.append("\n");
        text
    }

    /// The directives that draw the board, column by column: the glyph of
    /// each cell, white on black.
    pub open spec fn drawings(&self) -> Seq<DrawDirective> {
        columns_drawings(self.grid@, self.height as int, self.width as int)
    }

    /// Makes the directives that draw the board, for the caller to render.
    pub fn render(&self) -> (frame: Vec<DrawDirective>)
        requires
            self.well_formed(),
        ensures
            frame@ == self.drawings(),
    {
        let mut frame: Vec<DrawDirective> = Vec::new();
        let mut x: i32 = 0;
        while x < self.width
            invariant
                0 <= x,
                x <= self.width || x == 0,
                self.well_formed(),
                frame@ == columns_drawings(self.grid@, self.height as int, x as int),
            decreases self.width - x,
        {
            let ghost start = frame@;
            let mut y: i32 = 0;
            while y < self.height
                invariant
                    0 <= x < self.width,
                    0 <= y,
                    y <= self.height || y == 0,
                    self.well_formed(),
                    frame@ == start + column_drawings(self.grid@, x, y as int),
                decreases self.height - y,
            {
                assert(self.grid@.contains_key((x, y)));
                let alive = match self.grid.get(&(x, y)) {
                    Some(state) => *state == 1,
                    None => false,
                };
                frame.push(draw_cell(x, y, alive, CellColor::default()));
                y = y + 1;
            }
            assert(column_drawings(self.grid@, x, y as int) == column_drawings(
                self.grid@,
                x,
                self.height as int,
            ));
            x = x + 1;
        }
        frame
    }
}

} // verus!
