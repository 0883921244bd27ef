//! The simulation as a whole: the store of cells, what the systems share,
//! and the tick that runs the systems in their fixed order.

use vstd::prelude::*;
use crate::components::{Age, Cell, CellColor, Position};
use crate::neighbours::on_board;
use crate::render::DrawDirective;
use crate::resources::{Dimensions, InputState, PositionIndex, RuleKind};
use crate::seeder::{covers_board, Grid, Seeder};
use crate::store::{empty_world, fresh_row, spawn, world_rows, Row, Rows};
use crate::systems::{
    age_update, aged, cleanup_next, cleared, color_of_age, color_update, colored, committed, draws,
    live_neighbours, mouse_toggle, neighbor_counting, next_age, render_system, staged,
    state_update, toggled,
};

verus! {

broadcast use vstd::laws_cmp::group_laws_cmp;

/// The store after one tick: the click is applied, every cell's next state
/// is staged from the states after the click and committed, the staged
/// states are taken away, and age and colour follow the new states.
pub open spec fn ticked(
    rows: Rows,
    dimensions: Dimensions,
    rule: RuleKind,
    input: InputState,
    index: PositionIndex,
) -> Rows {
    colored(aged(cleared(committed(staged(toggled(rows, input, index), dimensions, rule)))))
}

/// The colour of a cell that has not been coloured yet.
pub open spec fn white() -> CellColor {
    CellColor { r: 255, g: 255, b: 255 }
}

/// The row of the cell that is created for `(x, y)` in state `state`: alive
/// iff the state is 1, of age zero, and white.
pub open spec fn seeded_row(x: i32, y: i32, state: i32) -> Row {
    fresh_row(Position { x, y }, Cell { alive: state == 1 }, Age { value: 0 }, white())
}

/// The store and the index hold the cells of `grid` and nothing else: each
/// position of the grid has its entity, found through the index, and every
/// entity of the store is that of a position of the grid.
pub open spec fn holds_grid(rows: Rows, index: PositionIndex, grid: Map<(i32, i32), i32>) -> bool {
    &&& forall|x: i32, y: i32|
        #![trigger index.entity_at(x, y)]
        match index.entity_at(x, y) {
            Some(entity) => grid.contains_key((x, y)) && rows.contains_key(entity) && rows[entity]
                == seeded_row(x, y, grid[(x, y)]),
            None => !grid.contains_key((x, y)),
        }
    &&& forall|entity: legion::Entity| #[trigger]
        rows.contains_key(entity) ==> exists|x: i32, y: i32|
            index.entity_at(x, y) == Some(entity)
}

/// A tick keeps every entity and adds none, and no entity changes its
/// position.
pub proof fn lemma_tick_keeps_every_cell_in_place(
    rows: Rows,
    dimensions: Dimensions,
    rule: RuleKind,
    input: InputState,
    index: PositionIndex,
    entity: legion::Entity,
)
    ensures
        ticked(rows, dimensions, rule, input, index).contains_key(entity) == rows.contains_key(
            entity,
        ),
        rows.contains_key(entity) ==> ticked(rows, dimensions, rule, input, index)[entity].position
            == rows[entity].position,
{
}

/// What a tick does to one cell. Its new state is what the rule gives for
/// its state and the number of its living neighbours, both as they are once
/// the click is applied and before any cell takes its new state. Nothing
/// stays staged. Its age and colour follow from the new state.
pub proof fn lemma_tick_of_a_cell(
    rows: Rows,
    dimensions: Dimensions,
    rule: RuleKind,
    input: InputState,
    index: PositionIndex,
    entity: legion::Entity,
)
    requires
        rows.contains_key(entity),
        rows[entity].position is Some,
        rows[entity].cell is Some,
    ensures
        ({
            let before = toggled(rows, input, index);
            let after = ticked(rows, dimensions, rule, input, index);
            let position = rows[entity].position->0;
            let alive = rule.next(
                before[entity].cell->0.alive,
                live_neighbours(before, dimensions, position.x as int, position.y as int),
            );
            &&& after[entity].cell == Some(Cell { alive })
            &&& after[entity].next is None
            &&& rows[entity].age matches Some(age) ==> {
                &&& after[entity].age == Some(Age { value: next_age(alive, age.value) })
                &&& rows[entity].color is Some ==> after[entity].color == Some(
                    color_of_age(next_age(alive, age.value)),
                )
            }
        }),
{
}

/// What a tick hands to the caller.
pub struct Frame {
    /// Whether the caller should stop the simulation.
    pub quit: bool,
    /// The directives that draw the board after the tick.
    pub glyphs: Vec<DrawDirective>,
}

/// A running simulation.
pub struct GameState {
    ecs: legion::World,
    dimensions: Dimensions,
    rule: RuleKind,
    index: PositionIndex,
    input: InputState,
}

impl GameState {
    /// What the store holds.
    pub closed spec fn rows(&self) -> Rows {
        world_rows(self.ecs)
    }

    /// The size of the board.
    pub closed spec fn dimensions(&self) -> Dimensions {
        self.dimensions
    }

    /// The rule of the simulation.
    pub closed spec fn rule(&self) -> RuleKind {
        self.rule
    }

    /// The index from positions to entities.
    pub closed spec fn index(&self) -> PositionIndex {
        self.index
    }

    /// The pointer input of the last tick.
    pub closed spec fn input(&self) -> InputState {
        self.input
    }

    /// The invariant of the simulation between ticks. Every position of the
    /// board has one cell and there are no other entities; every cell has a
    /// state, an age and a colour, and nothing is staged; the index leads
    /// from each position to its cell.
    pub open spec fn well_formed(&self) -> bool {
        &&& forall|x: i32, y: i32|
            #![trigger self.index().entity_at(x, y)]
            match self.index().entity_at(x, y) {
                Some(entity) => {
                    &&& on_board(
                        self.dimensions().width as int,
                        self.dimensions().height as int,
                        x as int,
                        y as int,
                    )
                    &&& self.rows().contains_key(entity)
                    &&& self.rows()[entity].position == Some(Position { x, y })
                },
                None => !on_board(
                    self.dimensions().width as int,
                    self.dimensions().height as int,
                    x as int,
                    y as int,
                ),
            }
        &&& forall|entity: legion::Entity| #[trigger]
            self.rows().contains_key(entity) ==> {
                &&& self.rows()[entity].position matches Some(position)
                &&& self.index().entity_at(position.x, position.y) == Some(entity)
                &&& self.rows()[entity].cell is Some
                &&& self.rows()[entity].age is Some
                &&& self.rows()[entity].color is Some
                &&& self.rows()[entity].next is None
            }
    }

    /// Builds the simulation from a grid of first states: one cell for each
    /// position, alive where the state is 1.
    pub fn from_grid(width: i32, height: i32, grid: &Grid, rule: RuleKind) -> (state: GameState)
        requires
            covers_board(grid@, width as int, height as int),
        ensures
            state.well_formed(),
            holds_grid(state.rows(), state.index(), grid@),
            state.dimensions() == (Dimensions { width, height }),
            state.rule() == rule,
            state.input() == (InputState { mouse_pos: (0i32, 0i32), mouse_left: false }),
    {
        let mut ecs = empty_world();
        let mut index = PositionIndex::new();
        let mut x: i32 = 0;
        while x < width
            invariant
                0 <= x,
                x <= width || x == 0,
                covers_board(grid@, width as int, height as int),
                forall|a: i32, b: i32|
                    #![trigger index.entity_at(a, b)]
                    match index.entity_at(a, b) {
                        Some(entity) => 0 <= a < x && 0 <= b < height && world_rows(
                            ecs,
                        ).contains_key(entity) && world_rows(ecs)[entity] == seeded_row(
                            a,
                            b,
                            grid@[(a, b)],
                        ),
                        None => !(0 <= a < x && 0 <= b < height),
                    },
                forall|entity: legion::Entity| #[trigger]
                    world_rows(ecs).contains_key(entity) ==> {
                        &&& world_rows(ecs)[entity].position matches Some(position)
                        &&& index.entity_at(position.x, position.y) == Some(entity)
                    },
            decreases width - x,
        {
            let mut y: i32 = 0;
            while y < height
                invariant
                    0 <= x < width,
                    0 <= y,
                    y <= height || y == 0,
                    covers_board(grid@, width as int, height as int),
                    forall|a: i32, b: i32|
                        #![trigger index.entity_at(a, b)]
                        match index.entity_at(a, b) {
                            Some(entity) => ((0 <= a < x && 0 <= b < height) || (a == x && 0 <= b
                                < y)) && world_rows(ecs).contains_key(entity) && world_rows(
                                ecs,
                            )[entity] == seeded_row(a, b, grid@[(a, b)]),
                            None => !((0 <= a < x && 0 <= b < height) || (a == x && 0 <= b < y)),
                        },
                    forall|entity: legion::Entity| #[trigger]
                        world_rows(ecs).contains_key(entity) ==> {
                            &&& world_rows(ecs)[entity].position matches Some(position)
                            &&& index.entity_at(position.x, position.y) == Some(entity)
                        },
                decreases height - y,
            {
                assert(grid@.contains_key((x, y)));
                let alive = match grid.get(&(x, y)) {
                    Some(state) => *state == 1,
                    None => false,
                };
                let ghost rows_before = world_rows(ecs);
                let ghost index_before = index;
                let entity = spawn(
                    &mut ecs,
                    Position { x, y },
                    Cell { alive },
                    Age::default(),
                    CellColor::default(),
                );
                index.insert((x, y), entity);
                assert forall|other: legion::Entity| #[trigger]
                    world_rows(ecs).contains_key(other) implies {
                    &&& world_rows(ecs)[other].position matches Some(position)
                    &&& index.entity_at(position.x, position.y) == Some(other)
                } by {
                    if other != entity {
                        assert(rows_before.contains_key(other));
                        let position = rows_before[other].position->0;
                        assert(index_before.entity_at(position.x, position.y) == Some(other));
                    }
                }
                y = y + 1;
            }
            x = x + 1;
        }
        let state = GameState {
            ecs,
            dimensions: Dimensions { width, height },
            rule,
            index,
            input: InputState::default(),
        };
        proof {
            assert forall|entity: legion::Entity| #[trigger]
                state.rows().contains_key(entity) implies exists|a: i32, b: i32|
                state.index().entity_at(a, b) == Some(entity) by {
                let position = state.rows()[entity].position->0;
                assert(state.index().entity_at(position.x, position.y) == Some(entity));
            }
        }
        state
    }

    /// Builds the simulation on a board that the seeder fills.
    pub fn new(width: i32, height: i32, seeder: &Seeder, rule: RuleKind) -> (state: GameState)
        ensures
            state.well_formed(),
            exists|grid: Map<(i32, i32), i32>|
                seeder.admits(width as int, height as int, grid) && #[trigger] holds_grid(
                    state.rows(),
                    state.index(),
                    grid,
                ),
            state.dimensions() == (Dimensions { width, height }),
            state.rule() == rule,
            state.input() == (InputState { mouse_pos: (0i32, 0i32), mouse_left: false }),
    {
        let grid = seeder.seed(width, height);
        GameState::from_grid(width, height, &grid, rule)
    }

    /// The store, for reading.
    pub fn world(&self) -> (world: &legion::World)
        ensures
            world_rows(*world) == self.rows(),
    {
        &self.ecs
    }

    /// Runs one tick. The pointer input is taken as it was sampled; the
    /// systems run in their order; the frame draws the board as it is after
    /// them. A pressed escape key asks the caller to stop, and the tick runs
    /// all the same.
    pub fn tick(&mut self, escape_pressed: bool, mouse_pos: (i32, i32), mouse_left: bool) -> (frame:
        Frame)
        requires
            old(self).well_formed(),
        ensures
            final(self).well_formed(),
            final(self).input() == (InputState { mouse_pos, mouse_left }),
            final(self).rows() == ticked(
                old(self).rows(),
                old(self).dimensions(),
                old(self).rule(),
                final(self).input(),
                old(self).index(),
            ),
            final(self).dimensions() == old(self).dimensions(),
            final(self).rule() == old(self).rule(),
            final(self).index() == old(self).index(),
            frame.quit == escape_pressed,
            draws(frame.glyphs@, final(self).rows()),
    {
        self.input = InputState { mouse_pos, mouse_left };
        mouse_toggle(&mut self.ecs, &self.input, &self.index);
        neighbor_counting(&mut self.ecs, &self.dimensions, self.rule);
        state_update(&mut self.ecs);
        cleanup_next(&mut self.ecs);
        age_update(&mut self.ecs);
        color_update(&mut self.ecs);
        let glyphs = render_system(&self.ecs);
        Frame { quit: escape_pressed, glyphs }
    }
}

} // verus!
