use bedelli::components::{Age, Cell, CellColor, NextCell, Position};
use bedelli::game::GameState;
use bedelli::render::{draw_cell, DrawDirective};
use bedelli::resources::RuleKind;
use bedelli::seeder::{Grid, Seeder};
use bedelli::systems::render_system;
use legion::{IntoQuery, World};

fn grid_with_pattern(pattern: &[(i32, i32)], width: i32, height: i32) -> Grid {
    let mut grid = Grid::new();
    for x in 0..width {
        for y in 0..height {
            grid.insert((x, y), if pattern.contains(&(x, y)) { 1 } else { 0 });
        }
    }
    grid
}

fn alive_positions(state: &GameState) -> Vec<(i32, i32)> {
    let mut alive: Vec<(i32, i32)> = <(&Position, &Cell)>::query()
        .iter(state.world())
        .filter(|(_, cell)| cell.alive)
        .map(|(pos, _)| (pos.x, pos.y))
        .collect();
    alive.sort();
    alive
}

fn look(state: &GameState, x: i32, y: i32) -> (Cell, Age, CellColor) {
    let found: Vec<(Cell, Age, CellColor)> = <(&Position, &Cell, &Age, &CellColor)>::query()
        .iter(state.world())
        .filter(|(pos, _, _, _)| pos.x == x && pos.y == y)
        .map(|(_, cell, age, color)| (*cell, *age, *color))
        .collect();
    assert_eq!(found.len(), 1);
    found[0]
}

#[test]
fn game_state_holds_one_cell_for_each_position() {
    let grid = grid_with_pattern(&[(1, 1)], 4, 3);
    let state = GameState::from_grid(4, 3, &grid, RuleKind::Conway);
    assert_eq!(state.world().len(), 12);
    let mut positions: Vec<(i32, i32)> =
        <&Position>::query().iter(state.world()).map(|pos| (pos.x, pos.y)).collect();
    positions.sort();
    let expected: Vec<(i32, i32)> = grid.keys().copied().collect();
    assert_eq!(positions, expected);
}

#[test]
fn game_state_starts_with_age_zero_and_white() {
    let grid = grid_with_pattern(&[(1, 1)], 3, 3);
    let state = GameState::from_grid(3, 3, &grid, RuleKind::Conway);
    assert_eq!(alive_positions(&state), vec![(1, 1)]);
    let white = CellColor { r: 255, g: 255, b: 255 };
    assert_eq!(look(&state, 1, 1), (Cell { alive: true }, Age { value: 0 }, white));
    assert_eq!(look(&state, 0, 2), (Cell { alive: false }, Age { value: 0 }, white));
    assert_eq!(<&NextCell>::query().iter(state.world()).count(), 0);
}

#[test]
fn game_state_counts_only_the_state_one_as_alive() {
    let mut grid = grid_with_pattern(&[], 2, 2);
    grid.insert((0, 0), 2);
    grid.insert((1, 1), 1);
    grid.insert((0, 1), -1);
    let state = GameState::from_grid(2, 2, &grid, RuleKind::Conway);
    assert_eq!(alive_positions(&state), vec![(1, 1)]);
}

#[test]
fn game_state_new_seeds_the_board() {
    let state = GameState::new(10, 10, &Seeder::Glider, RuleKind::Conway);
    assert_eq!(state.world().len(), 100);
    assert_eq!(alive_positions(&state), vec![(1, 2), (2, 3), (3, 1), (3, 2), (3, 3)]);

    let random = GameState::new(6, 7, &Seeder::Random, RuleKind::HighLife);
    assert_eq!(random.world().len(), 42);
}

#[test]
fn tick_single_cell_dies() {
    let grid = grid_with_pattern(&[(2, 2)], 5, 5);
    let mut state = GameState::from_grid(5, 5, &grid, RuleKind::Conway);
    state.tick(false, (0, 0), false);
    assert_eq!(alive_positions(&state), vec![]);
    assert_eq!(state.world().len(), 25);
}

#[test]
fn tick_block_stays() {
    let block = [(1, 1), (1, 2), (2, 1), (2, 2)];
    let grid = grid_with_pattern(&block, 5, 5);
    let mut state = GameState::from_grid(5, 5, &grid, RuleKind::Conway);
    state.tick(false, (0, 0), false);
    assert_eq!(alive_positions(&state), block.to_vec());
}

#[test]
fn tick_blinker_oscillates() {
    let grid = grid_with_pattern(&[(2, 1), (2, 2), (2, 3)], 5, 5);
    let mut state = GameState::from_grid(5, 5, &grid, RuleKind::Conway);
    state.tick(false, (0, 0), false);
    assert_eq!(alive_positions(&state), vec![(1, 2), (2, 2), (3, 2)]);
    state.tick(false, (0, 0), false);
    assert_eq!(alive_positions(&state), vec![(2, 1), (2, 2), (2, 3)]);
}

#[test]
fn tick_glider_moves_one_cell_in_four_ticks() {
    let mut state = GameState::new(10, 10, &Seeder::Glider, RuleKind::Conway);
    let start = alive_positions(&state);
    for _ in 0..4 {
        state.tick(false, (0, 0), false);
    }
    let after = alive_positions(&state);
    assert_eq!(after.len(), 5);
    assert_ne!(after, start);
    let moved: Vec<(i32, i32)> = start.iter().map(|&(x, y)| (x + 1, y + 1)).collect();
    assert_eq!(after, moved);
}

#[test]
fn tick_leaves_nothing_staged() {
    let grid = grid_with_pattern(&[(2, 1), (2, 2), (2, 3)], 5, 5);
    let mut state = GameState::from_grid(5, 5, &grid, RuleKind::Conway);
    state.tick(false, (0, 0), false);
    assert_eq!(<&NextCell>::query().iter(state.world()).count(), 0);
}

#[test]
fn tick_tracks_age_and_colour() {
    let block = [(1, 1), (1, 2), (2, 1), (2, 2)];
    let grid = grid_with_pattern(&block, 4, 4);
    let mut state = GameState::from_grid(4, 4, &grid, RuleKind::Conway);

    state.tick(false, (0, 0), false);
    assert_eq!(
        look(&state, 1, 1),
        (Cell { alive: true }, Age { value: 1 }, CellColor { r: 253, g: 255, b: 255 })
    );
    assert_eq!(
        look(&state, 0, 0),
        (Cell { alive: false }, Age { value: 0 }, CellColor { r: 255, g: 255, b: 255 })
    );

    for _ in 0..99 {
        state.tick(false, (0, 0), false);
    }
    assert_eq!(
        look(&state, 2, 2),
        (Cell { alive: true }, Age { value: 100 }, CellColor { r: 105, g: 155, b: 255 })
    );
}

#[test]
fn tick_resets_the_age_of_a_cell_that_dies() {
    let grid = grid_with_pattern(&[(2, 1), (2, 2), (2, 3)], 5, 5);
    let mut state = GameState::from_grid(5, 5, &grid, RuleKind::Conway);
    state.tick(false, (0, 0), false);
    assert_eq!(look(&state, 2, 2).1, Age { value: 1 });
    assert_eq!(look(&state, 1, 2).1, Age { value: 1 });
    assert_eq!(look(&state, 2, 1).1, Age { value: 0 });
    state.tick(false, (0, 0), false);
    assert_eq!(look(&state, 2, 2).1, Age { value: 2 });
    assert_eq!(look(&state, 1, 2).1, Age { value: 0 });
    assert_eq!(look(&state, 2, 1).1, Age { value: 1 });
}

#[test]
fn tick_applies_the_click_before_the_transition() {
    let grid = grid_with_pattern(&[(2, 1), (2, 3)], 5, 5);
    let mut state = GameState::from_grid(5, 5, &grid, RuleKind::Conway);
    state.tick(false, (2, 2), true);
    assert_eq!(alive_positions(&state), vec![(1, 2), (2, 2), (3, 2)]);
}

#[test]
fn tick_ignores_a_click_off_the_board() {
    let block = [(1, 1), (1, 2), (2, 1), (2, 2)];
    let grid = grid_with_pattern(&block, 4, 4);
    let mut state = GameState::from_grid(4, 4, &grid, RuleKind::Conway);
    state.tick(false, (4, 4), true);
    state.tick(false, (-1, 0), true);
    state.tick(false, (0, 0), false);
    assert_eq!(alive_positions(&state), block.to_vec());
}

#[test]
fn tick_asks_to_quit_on_escape_and_runs_all_the_same() {
    let grid = grid_with_pattern(&[(2, 2)], 5, 5);
    let mut state = GameState::from_grid(5, 5, &grid, RuleKind::Conway);
    let frame = state.tick(true, (0, 0), false);
    assert_eq!(frame.quit, true);
    assert_eq!(frame.glyphs.len(), 25);
    assert_eq!(alive_positions(&state), vec![]);
    let frame = state.tick(false, (0, 0), false);
    assert_eq!(frame.quit, false);
}

#[test]
fn tick_draws_each_cell_once() {
    let block = [(1, 1), (1, 2), (2, 1), (2, 2)];
    let grid = grid_with_pattern(&block, 4, 4);
    let mut state = GameState::from_grid(4, 4, &grid, RuleKind::Conway);
    let frame = state.tick(false, (0, 0), false);

    assert_eq!(frame.glyphs.len(), 16);
    let mut drawn: Vec<(i32, i32)> = frame.glyphs.iter().map(|d| (d.x, d.y)).collect();
    drawn.sort();
    let expected: Vec<(i32, i32)> = grid.keys().copied().collect();
    assert_eq!(drawn, expected);

    let black = CellColor { r: 0, g: 0, b: 0 };
    for directive in &frame.glyphs {
        let alive = block.contains(&(directive.x, directive.y));
        let expected = if alive {
            DrawDirective {
                x: directive.x,
                y: directive.y,
                fg: CellColor { r: 253, g: 255, b: 255 },
                bg: black,
                glyph: 79,
            }
        } else {
            DrawDirective {
                x: directive.x,
                y: directive.y,
                fg: CellColor { r: 255, g: 255, b: 255 },
                bg: black,
                glyph: 32,
            }
        };
        assert_eq!(*directive, expected);
    }
}

#[test]
fn tick_runs_under_each_named_rule() {
    let six = [(0, 0), (0, 1), (0, 2), (1, 0), (1, 2), (2, 1)];
    let grid = grid_with_pattern(&six, 3, 3);

    let mut conway = GameState::from_grid(3, 3, &grid, RuleKind::Conway);
    conway.tick(false, (0, 0), false);
    assert_eq!(look(&conway, 1, 1).0, Cell { alive: false });

    let mut highlife = GameState::from_grid(3, 3, &grid, RuleKind::HighLife);
    highlife.tick(false, (0, 0), false);
    assert_eq!(look(&highlife, 1, 1).0, Cell { alive: true });

    let mut day_and_night = GameState::from_grid(3, 3, &grid, RuleKind::DayAndNight);
    day_and_night.tick(false, (0, 0), false);
    assert_eq!(look(&day_and_night, 1, 1).0, Cell { alive: true });
    assert_eq!(look(&day_and_night, 0, 1).0, Cell { alive: true });
    assert_eq!(look(&day_and_night, 2, 1).0, Cell { alive: false });
}

#[test]
fn render_system_draws_what_can_be_drawn() {
    let mut world = World::default();
    let red = CellColor { r: 200, g: 10, b: 10 };
    world.push((Position { x: 3, y: 4 }, Cell { alive: true }, red));
    world.push((Position { x: 5, y: 6 }, Cell { alive: false }, red));
    world.push((Position { x: 7, y: 8 }, Cell { alive: true }));
    world.push((Cell { alive: true }, red));

    let mut frame = render_system(&world);
    frame.sort_by_key(|d| (d.x, d.y));
    let black = CellColor { r: 0, g: 0, b: 0 };
    assert_eq!(
        frame,
        vec![
            DrawDirective { x: 3, y: 4, fg: red, bg: black, glyph: 79 },
            DrawDirective { x: 5, y: 6, fg: red, bg: black, glyph: 32 },
        ]
    );
}

#[test]
fn draw_cell_uses_the_glyphs_of_code_page_437() {
    let color = CellColor { r: 1, g: 2, b: 3 };
    let black = CellColor { r: 0, g: 0, b: 0 };
    assert_eq!(
        draw_cell(9, -4, true, color),
        DrawDirective { x: 9, y: -4, fg: color, bg: black, glyph: 'O' as u16 }
    );
    assert_eq!(
        draw_cell(0, 0, false, color),
        DrawDirective { x: 0, y: 0, fg: color, bg: black, glyph: ' ' as u16 }
    );
}
