use bedelli::components::CellColor;
use bedelli::render::DrawDirective;
use bedelli::rules::Rule;
use bedelli::seeder::{Grid, Seeder};
use bedelli::GridWorld;

fn world_with_pattern(pattern: &[(i32, i32)], width: i32, height: i32, rule: &str) -> GridWorld {
    let mut grid = Grid::new();
    for x in 0..width {
        for y in 0..height {
            grid.insert((x, y), if pattern.contains(&(x, y)) { 1 } else { 0 });
        }
    }
    GridWorld { width, height, grid, rule: Rule::new(rule) }
}

fn alive_positions(world: &GridWorld) -> Vec<(i32, i32)> {
    world.grid.iter().filter(|(_, &state)| state == 1).map(|(&key, _)| key).collect()
}

#[test]
fn grid_world_new_takes_the_seeded_board() {
    let world = GridWorld::new(10, 8, &Seeder::Glider, Rule::new("b3s23"));
    assert_eq!(world.width, 10);
    assert_eq!(world.height, 8);
    assert_eq!(world.grid.len(), 80);
    assert_eq!(alive_positions(&world), vec![(1, 2), (2, 3), (3, 1), (3, 2), (3, 3)]);
    assert_eq!(world.rule.borns, vec![3]);
    assert_eq!(world.rule.stays, vec![2, 3]);
}

#[test]
fn grid_world_single_cell_dies() {
    let world = world_with_pattern(&[(2, 2)], 5, 5, "b3s23");
    let next = world.next();
    assert_eq!(alive_positions(&next), vec![]);
    assert_eq!(next.grid.len(), 25);
    assert_eq!(alive_positions(&world), vec![(2, 2)]);
}

#[test]
fn grid_world_block_stays() {
    let block = [(1, 1), (1, 2), (2, 1), (2, 2)];
    let world = world_with_pattern(&block, 5, 5, "b3s23");
    assert_eq!(alive_positions(&world.next()), block.to_vec());
}

#[test]
fn grid_world_blinker_oscillates() {
    let world = world_with_pattern(&[(2, 1), (2, 2), (2, 3)], 5, 5, "b3s23");
    let once = world.next();
    assert_eq!(alive_positions(&once), vec![(1, 2), (2, 2), (3, 2)]);
    let twice = once.next();
    assert_eq!(alive_positions(&twice), vec![(2, 1), (2, 2), (2, 3)]);
}

#[test]
fn grid_world_glider_moves_one_cell_in_four_steps() {
    let mut world = GridWorld::new(10, 10, &Seeder::Glider, Rule::new("b3s23"));
    let start = alive_positions(&world);
    for _ in 0..4 {
        world = world.next();
    }
    let moved: Vec<(i32, i32)> = start.iter().map(|&(x, y)| (x + 1, y + 1)).collect();
    assert_eq!(alive_positions(&world), moved);
}

#[test]
fn grid_world_next_keeps_size_and_rule() {
    let world = world_with_pattern(&[(0, 0)], 3, 4, "b36s23");
    let next = world.next();
    assert_eq!(next.width, 3);
    assert_eq!(next.height, 4);
    assert_eq!(next.grid.len(), 12);
    assert_eq!(next.rule.borns, vec![3, 6]);
    assert_eq!(next.rule.stays, vec![2, 3]);
}

#[test]
fn grid_world_steps_under_highlife() {
    let six = [(0, 0), (0, 1), (0, 2), (1, 0), (1, 2), (2, 1)];
    let conway = world_with_pattern(&six, 3, 3, "b3s23").next();
    let highlife = world_with_pattern(&six, 3, 3, "b36s23").next();
    assert_eq!(conway.grid.get(&(1, 1)), Some(&0));
    assert_eq!(highlife.grid.get(&(1, 1)), Some(&1));
}

#[test]
fn grid_world_edges_do_not_wrap() {
    let world = world_with_pattern(&[(0, 0), (0, 4), (4, 0)], 5, 5, "b3s23");
    let next = world.next();
    assert_eq!(alive_positions(&next), vec![]);
}

#[test]
fn grid_world_step_of_an_empty_board_is_empty() {
    let world = GridWorld::new(0, 0, &Seeder::CenterOne, Rule::new("b3s23"));
    let next = world.next();
    assert_eq!(next.grid.len(), 0);
}

#[test]
fn grid_world_print_writes_one_line_for_each_column() {
    let world = world_with_pattern(&[(0, 1), (2, 0)], 3, 2, "b3s23");
    assert_eq!(world.print(), "-O\n--\nO-\n");
}

#[test]
fn grid_world_print_of_a_single_column() {
    let world = world_with_pattern(&[(0, 0), (0, 2)], 1, 3, "b3s23");
    assert_eq!(world.print(), "O-O\n");
}

#[test]
fn grid_world_print_of_an_empty_board_is_a_line_break() {
    let world = world_with_pattern(&[], 0, 0, "b3s23");
    assert_eq!(world.print(), "\n");
    let world = world_with_pattern(&[], 3, 0, "b3s23");
    assert_eq!(world.print(), "\n");
    let world = world_with_pattern(&[], 0, 3, "b3s23");
    assert_eq!(world.print(), "\n");
}

#[test]
fn grid_world_render_draws_every_cell_white_on_black() {
    let world = world_with_pattern(&[(0, 1), (1, 0)], 2, 2, "b3s23");
    let white = CellColor { r: 255, g: 255, b: 255 };
    let black = CellColor { r: 0, g: 0, b: 0 };
    assert_eq!(
        world.render(),
        vec![
            DrawDirective { x: 0, y: 0, fg: white, bg: black, glyph: 32 },
            DrawDirective { x: 0, y: 1, fg: white, bg: black, glyph: 79 },
            DrawDirective { x: 1, y: 0, fg: white, bg: black, glyph: 79 },
            DrawDirective { x: 1, y: 1, fg: white, bg: black, glyph: 32 },
        ]
    );
}

#[test]
fn grid_world_render_of_an_empty_board_draws_nothing() {
    let world = world_with_pattern(&[], 0, 5, "b3s23");
    assert_eq!(world.render(), vec![]);
}

#[test]
fn grid_world_is_well_formed_accepts_a_full_board() {
    assert!(world_with_pattern(&[(0, 0), (2, 1)], 3, 2, "b3s23").is_well_formed());
    assert!(world_with_pattern(&[], 0, 0, "b3s23").is_well_formed());
    assert!(world_with_pattern(&[], -2, 5, "b3s23").is_well_formed());
    assert!(GridWorld::new(7, 9, &Seeder::Random, Rule::new("b3s23")).is_well_formed());
}

#[test]
fn grid_world_is_well_formed_refuses_a_gap() {
    let mut world = world_with_pattern(&[(1, 1)], 3, 3, "b3s23");
    world.grid.remove(&(2, 2));
    assert!(!world.is_well_formed());
}

#[test]
fn grid_world_is_well_formed_refuses_a_position_off_the_board() {
    let mut world = world_with_pattern(&[(1, 1)], 3, 3, "b3s23");
    world.grid.insert((3, 0), 0);
    assert!(!world.is_well_formed());

    let mut world = world_with_pattern(&[(1, 1)], 3, 3, "b3s23");
    world.grid.insert((0, -1), 1);
    assert!(!world.is_well_formed());
}

#[test]
fn grid_world_is_well_formed_refuses_a_state_other_than_zero_and_one() {
    let mut world = world_with_pattern(&[(1, 1)], 3, 3, "b3s23");
    world.grid.insert((0, 0), 2);
    assert!(!world.is_well_formed());
}

#[test]
fn grid_world_is_well_formed_refuses_a_board_of_another_size() {
    let mut world = world_with_pattern(&[(1, 1)], 3, 3, "b3s23");
    world.width = 4;
    assert!(!world.is_well_formed());
    world.width = 2;
    assert!(!world.is_well_formed());
}
