//! The systems: the passes over the entity store that make up one tick.
//!
//! A tick stages each cell's next state from the states before the tick,
//! commits all staged states at once, and then derives age and colour. Each
//! pass is total over the store and leaves every entity in place.

use std::collections::HashSet;
use vstd::prelude::*;
use crate::components::{Age, Cell, CellColor, NextCell};
use crate::render::{cell_drawing, draw_cell, DrawDirective};
use crate::neighbours::{count_around, lemma_count_around_agrees, on_board, one_if_living};
use crate::resources::{
    key_of, lemma_position_key_is_one_to_one, position_key, Dimensions, InputState, PositionIndex,
    RuleKind,
};
use crate::store::{
    drop_next, lists_rows, put_age, put_cell, put_color, put_next, read_row, read_rows, row_of,
    with_cell, world_rows, Row, Rows,
};

verus! {

/// The row of a living cell at `(x, y)`.
pub open spec fn lives_at(row: Row, x: int, y: int) -> bool {
    &&& row.position matches Some(position) && position.x == x && position.y == y
    &&& row.cell matches Some(cell) && cell.alive
}

/// Whether the store holds a living cell at `(x, y)`.
pub open spec fn alive_at(rows: Rows, x: int, y: int) -> bool {
    exists|entity: legion::Entity|
        rows.contains_key(entity) && #[trigger] lives_at(rows[entity], x, y)
}

/// The positions at which the store holds a living cell.
pub open spec fn living_in(rows: Rows) -> spec_fn(int, int) -> bool {
    |x: int, y: int| alive_at(rows, x, y)
}

/// The number of living neighbours of `(x, y)` in the store.
pub open spec fn live_neighbours(rows: Rows, dimensions: Dimensions, x: int, y: int) -> int {
    count_around(living_in(rows), dimensions.width as int, dimensions.height as int, x, y)
}

/// A row after staging: a cell with a position gets the state that the rule
/// gives it for its own state and its living neighbours in `rows`.
pub open spec fn staged_row(rows: Rows, dimensions: Dimensions, rule: RuleKind, row: Row) -> Row {
    match (row.position, row.cell) {
        (Some(position), Some(cell)) => Row {
            next: Some(
                NextCell {
                    alive: rule.next(
                        cell.alive,
                        live_neighbours(rows, dimensions, position.x as int, position.y as int),
                    ),
                },
            ),
            ..row
        },
        _ => row,
    }
}

/// The store after staging. Every next state is computed from `rows`, the
/// store as it was before any of them was staged.
pub open spec fn staged(rows: Rows, dimensions: Dimensions, rule: RuleKind) -> Rows {
    rows.map_values(|row: Row| staged_row(rows, dimensions, rule, row))
}

/// A row after the commit: a cell with a staged state takes it.
pub open spec fn committed_row(row: Row) -> Row {
    match (row.next, row.cell) {
        (Some(next), Some(_)) => Row { cell: Some(Cell { alive: next.alive }), ..row },
        _ => row,
    }
}

/// The store after the commit of all staged states.
pub open spec fn committed(rows: Rows) -> Rows {
    rows.map_values(|row: Row| committed_row(row))
}

/// A row after cleanup: nothing is staged.
pub open spec fn cleared_row(row: Row) -> Row {
    Row { next: None, ..row }
}

/// The store after cleanup.
pub open spec fn cleared(rows: Rows) -> Rows {
    rows.map_values(|row: Row| cleared_row(row))
}

/// The age of a cell after one more tick: one more for a living cell, up to
/// the largest age that can be written, and zero for a dead one.
pub open spec fn next_age(alive: bool, age: u32) -> u32 {
    if !alive {
        0
    } else if age == u32::MAX {
        age
    } else {
        (age + 1) as u32
    }
}

/// A row after ageing.
pub open spec fn aged_row(row: Row) -> Row {
    match (row.cell, row.age) {
        (Some(cell), Some(age)) => Row {
            age: Some(Age { value: next_age(cell.alive, age.value) }),
            ..row
        },
        _ => row,
    }
}

/// The store after ageing.
pub open spec fn aged(rows: Rows) -> Rows {
    rows.map_values(|row: Row| aged_row(row))
}

/// The age from which on a cell's colour no longer changes.
pub open spec fn age_ceiling() -> int {
    60
}

/// How bright a cell of the given age is: 255 less two and a half for each
/// tick of age up to the ceiling, with what is taken off rounded down.
pub open spec fn intensity(age: u32) -> int {
    let capped = if age <= age_ceiling() {
        age as int
    } else {
        age_ceiling()
    };
    255 - (capped * 5) / 2
}

/// The colour of a cell of the given age.
pub open spec fn color_of_age(age: u32) -> CellColor {
    CellColor {
        r: intensity(age) as u8,
        g: (if intensity(age) + 50 <= 255 {
            intensity(age) + 50
        } else {
            255
        }) as u8,
        b: 255,
    }
}

/// A row after colouring.
pub open spec fn colored_row(row: Row) -> Row {
    match (row.age, row.color) {
        (Some(age), Some(_)) => Row { color: Some(color_of_age(age.value)), ..row },
        _ => row,
    }
}

/// The store after colouring.
pub open spec fn colored(rows: Rows) -> Rows {
    rows.map_values(|row: Row| colored_row(row))
}

/// The store after the pointer's click: the cell that the index files under
/// the pointer's position changes its state. Nothing happens without a
/// click, at a position without an entry, and for an entry whose entity the
/// store does not hold or that is no cell.
pub open spec fn toggled(rows: Rows, input: InputState, index: PositionIndex) -> Rows {
    if !input.mouse_left {
        rows
    } else {
        match index.entity_at(input.mouse_pos.0, input.mouse_pos.1) {
            Some(entity) => match row_of(rows, entity) {
                Some(Row { cell: Some(cell), .. }) => with_cell(
                    rows,
                    entity,
                    Cell { alive: !cell.alive },
                ),
                _ => rows,
            },
            None => rows,
        }
    }
}

/// Computes a cell's age after one more tick.
pub fn grow_older(alive: bool, age: u32) -> (older: u32)
    ensures
        older == next_age(alive, age),
{
    if !alive {
        0
    } else if age == u32::MAX {
        age
    } else {
        age + 1
    }
}

/// Computes the colour of a cell from its age.
pub fn color_for_age(age: u32) -> (color: CellColor)
    ensures
        color == color_of_age(age),
{
    let capped: u32 = if age <= 60 {
        age
    } else {
        60
    };
    let shade: u32 = 255 - (capped * 5) / 2;
    let green: u32 = if shade + 50 <= 255 {
        shade + 50
    } else {
        255
    };
    CellColor { r: shade as u8, g: green as u8, b: 255 }
}

/// Whether `entity` is among the first `n` of `listing`.
spec fn listed_before(listing: Seq<(legion::Entity, Row)>, n: int, entity: legion::Entity) -> bool {
    exists|j: int| 0 <= j < n && #[trigger] listing[j].0 == entity
}

/// `current` is `initial` with the rows of the first `n` listed entities
/// replaced by their rows in `target`.
spec fn partly_rewritten(
    initial: Rows,
    current: Rows,
    listing: Seq<(legion::Entity, Row)>,
    n: int,
    target: Rows,
) -> bool {
    &&& forall|entity: legion::Entity|
        current.contains_key(entity) == initial.contains_key(entity)
    &&& forall|entity: legion::Entity| #[trigger]
        initial.contains_key(entity) ==> current[entity] == (if listed_before(listing, n, entity) {
            target[entity]
        } else {
            initial[entity]
        })
}

/// The row of the next listed entity is still the one that was listed.
proof fn lemma_rewrite_next(
    initial: Rows,
    current: Rows,
    listing: Seq<(legion::Entity, Row)>,
    n: int,
    target: Rows,
)
    requires
        lists_rows(listing, initial),
        0 <= n < listing.len(),
        partly_rewritten(initial, current, listing, n, target),
    ensures
        current.contains_key(listing[n].0),
        current[listing[n].0] == listing[n].1,
        initial[listing[n].0] == listing[n].1,
{
    assert(initial.contains_key(listing[n].0));
    assert(!listed_before(listing, n, listing[n].0));
}

/// Rewriting the next listed entity's row extends the rewritten part by one.
proof fn lemma_rewrite_step(
    initial: Rows,
    current: Rows,
    after: Rows,
    listing: Seq<(legion::Entity, Row)>,
    n: int,
    target: Rows,
)
    requires
        lists_rows(listing, initial),
        0 <= n < listing.len(),
        partly_rewritten(initial, current, listing, n, target),
        after == current.insert(listing[n].0, target[listing[n].0]) || (after == current
            && target[listing[n].0] == initial[listing[n].0]),
    ensures
        partly_rewritten(initial, after, listing, n + 1, target),
{
    let entity_n = listing[n].0;
    assert(initial.contains_key(entity_n));
    assert(!listed_before(listing, n, entity_n));
    assert forall|entity: legion::Entity| #[trigger]
        initial.contains_key(entity) implies after[entity] == (if listed_before(
        listing,
        n + 1,
        entity,
    ) {
        target[entity]
    } else {
        initial[entity]
    }) by {
        if entity == entity_n {
            assert(listing[n].0 == entity);
            assert(listed_before(listing, n + 1, entity));
        } else {
            if listed_before(listing, n, entity) {
                let j = choose|j: int| 0 <= j < n && #[trigger] listing[j].0 == entity;
                assert(listing[j].0 == entity);
                assert(listed_before(listing, n + 1, entity));
            }
            if listed_before(listing, n + 1, entity) {
                let j = choose|j: int| 0 <= j < n + 1 && #[trigger] listing[j].0 == entity;
                assert(j != n);
                assert(listing[j].0 == entity);
                assert(listed_before(listing, n, entity));
            }
        }
    }
}

/// Once every listed entity's row is rewritten, the store is the target.
proof fn lemma_rewrite_end(
    initial: Rows,
    current: Rows,
    listing: Seq<(legion::Entity, Row)>,
    target: Rows,
)
    requires
        lists_rows(listing, initial),
        partly_rewritten(initial, current, listing, listing.len() as int, target),
        forall|entity: legion::Entity| target.contains_key(entity) == initial.contains_key(entity),
    ensures
        current == target,
{
    assert forall|entity: legion::Entity| current.contains_key(entity) implies current[entity]
        == target[entity] by {
        assert(initial.contains_key(entity));
        let j = choose|j: int| 0 <= j < listing.len() && #[trigger] listing[j].0 == entity;
        assert(listing[j].0 == entity);
        assert(listed_before(listing, listing.len() as int, entity));
    }
    assert(current =~= target);
}

/// Commits the staged states: every cell with a staged state takes it. The
/// staged states themselves stay until `cleanup_next`.
pub fn state_update(world: &mut legion::World)
    ensures
        world_rows(*final(world)) == committed(world_rows(*old(world))),
{
    let listing = read_rows(world);
    let ghost initial = world_rows(*world);
    let ghost target = committed(initial);
    let mut i: usize = 0;
    while i < listing.len()
        invariant
            i <= listing.len(),
            lists_rows(listing@, initial),
            target == committed(initial),
            partly_rewritten(initial, world_rows(*world), listing@, i as int, target),
        decreases listing.len() - i,
    {
        let entity = listing[i].0;
        let ghost current = world_rows(*world);
        proof {
            lemma_rewrite_next(initial, current, listing@, i as int, target);
        }
        match (listing[i].1.next, listing[i].1.cell) {
            (Some(next), Some(_)) => {
                put_cell(world, entity, Cell { alive: next.alive });
            },
            _ => {},
        }
        proof {
            lemma_rewrite_step(initial, current, world_rows(*world), listing@, i as int, target);
        }
        i = i + 1;
    }
    proof {
        lemma_rewrite_end(initial, world_rows(*world), listing@, target);
    }
}

/// Takes every staged state away.
pub fn cleanup_next(world: &mut legion::World)
    ensures
        world_rows(*final(world)) == cleared(world_rows(*old(world))),
{
    let listing = read_rows(world);
    let ghost initial = world_rows(*world);
    let ghost target = cleared(initial);
    let mut i: usize = 0;
    while i < listing.len()
        invariant
            i <= listing.len(),
            lists_rows(listing@, initial),
            target == cleared(initial),
            partly_rewritten(initial, world_rows(*world), listing@, i as int, target),
        decreases listing.len() - i,
    {
        let entity = listing[i].0;
        let ghost current = world_rows(*world);
        proof {
            lemma_rewrite_next(initial, current, listing@, i as int, target);
        }
        if listing[i].1.next.is_some() {
            drop_next(world, entity);
        }
        proof {
            lemma_rewrite_step(initial, current, world_rows(*world), listing@, i as int, target);
        }
        i = i + 1;
    }
    proof {
        lemma_rewrite_end(initial, world_rows(*world), listing@, target);
    }
}

/// Ages every cell by one tick: a living cell grows older, a dead one is
/// zero again.
pub fn age_update(world: &mut legion::World)
    ensures
        world_rows(*final(world)) == aged(world_rows(*old(world))),
{
    let listing = read_rows(world);
    let ghost initial = world_rows(*world);
    let ghost target = aged(initial);
    let mut i: usize = 0;
    while i < listing.len()
        invariant
            i <= listing.len(),
            lists_rows(listing@, initial),
            target == aged(initial),
            partly_rewritten(initial, world_rows(*world), listing@, i as int, target),
        decreases listing.len() - i,
    {
        let entity = listing[i].0;
        let ghost current = world_rows(*world);
        proof {
            lemma_rewrite_next(initial, current, listing@, i as int, target);
        }
        match (listing[i].1.cell, listing[i].1.age) {
            (Some(cell), Some(age)) => {
                put_age(world, entity, Age { value: grow_older(cell.alive, age.value) });
            },
            _ => {},
        }
        proof {
            lemma_rewrite_step(initial, current, world_rows(*world), listing@, i as int, target);
        }
        i = i + 1;
    }
    proof {
        lemma_rewrite_end(initial, world_rows(*world), listing@, target);
    }
}

/// Gives every cell the colour of its age. The colour is computed anew each
/// time and never from the colour before.
pub fn color_update(world: &mut legion::World)
    ensures
        world_rows(*final(world)) == colored(world_rows(*old(world))),
{
    let listing = read_rows(world);
    let ghost initial = world_rows(*world);
    let ghost target = colored(initial);
    let mut i: usize = 0;
    while i < listing.len()
        invariant
            i <= listing.len(),
            lists_rows(listing@, initial),
            target == colored(initial),
            partly_rewritten(initial, world_rows(*world), listing@, i as int, target),
        decreases listing.len() - i,
    {
        let entity = listing[i].0;
        let ghost current = world_rows(*world);
        proof {
            lemma_rewrite_next(initial, current, listing@, i as int, target);
        }
        match (listing[i].1.age, listing[i].1.color) {
            (Some(age), Some(_)) => {
                put_color(world, entity, color_for_age(age.value));
            },
            _ => {},
        }
        proof {
            lemma_rewrite_step(initial, current, world_rows(*world), listing@, i as int, target);
        }
        i = i + 1;
    }
    proof {
        lemma_rewrite_end(initial, world_rows(*world), listing@, target);
    }
}

/// Applies the pointer's click, if there was one, to the cell under the
/// pointer.
pub fn mouse_toggle(world: &mut legion::World, input: &InputState, index: &PositionIndex)
    ensures
        world_rows(*final(world)) == toggled(world_rows(*old(world)), *input, *index),
{
    if !input.mouse_left {
        return ;
    }
    if let Some(entity) = index.get(input.mouse_pos) {
        if let Some(row) = read_row(world, entity) {
            if let Some(cell) = row.cell {
                put_cell(world, entity, Cell { alive: !cell.alive });
            }
        }
    }
}

/// The key of the position at which a row holds a living cell.
spec fn living_key(row: Row) -> Option<i64> {
    match (row.position, row.cell) {
        (Some(position), Some(cell)) => if cell.alive {
            Some(position_key(position.x as int, position.y as int) as i64)
        } else {
            None
        },
        _ => None,
    }
}

/// `keys` holds the keys of the living cells of `listing`, and nothing else.
spec fn holds_living_keys(keys: Set<i64>, listing: Seq<(legion::Entity, Row)>, n: int) -> bool {
    forall|key: i64|
        keys.contains(key) <==> exists|j: int|
            0 <= j < n && #[trigger] living_key(listing[j].1) == Some(key)
}

/// The positions whose keys are in `keys`.
spec fn keyed_in(keys: Set<i64>) -> spec_fn(int, int) -> bool {
    |x: int, y: int| keys.contains(position_key(x, y) as i64)
}

/// A snapshot of the living cells: the set of their positions' keys.
fn living_keys(listing: &Vec<(legion::Entity, Row)>) -> (keys: HashSet<i64>)
    ensures
        holds_living_keys(keys@, listing@, listing@.len() as int),
{
    let mut keys: HashSet<i64> = HashSet::new();
    let mut i: usize = 0;
    while i < listing.len()
        invariant
            i <= listing.len(),
            holds_living_keys(keys@, listing@, i as int),
        decreases listing.len() - i,
    {
        let ghost before = keys@;
        match (listing[i].1.position, listing[i].1.cell) {
            (Some(position), Some(cell)) => {
                if cell.alive {
                    keys.insert(key_of(position.x, position.y));
                }
            },
            _ => {},
        }
        proof {
            assert forall|key: i64|
                keys@.contains(key) <==> exists|j: int|
                    0 <= j < i + 1 && #[trigger] living_key(listing@[j].1) == Some(key) by {
                if before.contains(key) {
                    let j = choose|j: int|
                        0 <= j < i && #[trigger] living_key(listing@[j].1) == Some(key);
                    assert(living_key(listing@[j].1) == Some(key));
                }
                if living_key(listing@[i as int].1) == Some(key) {
                    assert(keys@.contains(key));
                }
                if exists|j: int|
                    0 <= j < i + 1 && #[trigger] living_key(listing@[j].1) == Some(key) {
                    let j = choose|j: int|
                        0 <= j < i + 1 && #[trigger] living_key(listing@[j].1) == Some(key);
                    if j < i {
                        assert(living_key(listing@[j].1) == Some(key));
                        assert(before.contains(key));
                    }
                }
            }
        }
        i = i + 1;
    }
    keys
}

/// The snapshot tells for every position whether the store holds a living
/// cell there.
proof fn lemma_snapshot_is_faithful(
    keys: Set<i64>,
    listing: Seq<(legion::Entity, Row)>,
    rows: Rows,
    x: i32,
    y: i32,
)
    requires
        lists_rows(listing, rows),
        holds_living_keys(keys, listing, listing.len() as int),
    ensures
        keyed_in(keys)(x as int, y as int) == living_in(rows)(x as int, y as int),
{
    let key = position_key(x as int, y as int) as i64;
    lemma_position_key_is_one_to_one(x, y, x, y);
    if keys.contains(key) {
        let j = choose|j: int|
            0 <= j < listing.len() && #[trigger] living_key(listing[j].1) == Some(key);
        let row = listing[j].1;
        lemma_position_key_is_one_to_one(row.position->0.x, row.position->0.y, x, y);
        assert(rows.contains_key(listing[j].0));
        assert(lives_at(rows[listing[j].0], x as int, y as int));
    }
    if alive_at(rows, x as int, y as int) {
        let entity = choose|entity: legion::Entity|
            rows.contains_key(entity) && #[trigger] lives_at(rows[entity], x as int, y as int);
        let j = choose|j: int| 0 <= j < listing.len() && #[trigger] listing[j].0 == entity;
        assert(listing[j].0 == entity);
        assert(living_key(listing[j].1) == Some(key));
    }
}

/// Looks one neighbour up in the snapshot.
fn one_if_keyed(keys: &HashSet<i64>, dimensions: &Dimensions, x: i64, y: i64) -> (count: i32)
    ensures
        count == one_if_living(
            keyed_in(keys@),
            dimensions.width as int,
            dimensions.height as int,
            x as int,
            y as int,
        ),
{
    if 0 <= x && x < dimensions.width as i64 && 0 <= y && y < dimensions.height as i64 {
        if keys.contains(&key_of(x as i32, y as i32)) {
            1
        } else {
            0
        }
    } else {
        0
    }
}

/// Counts the living neighbours of `(x, y)` in the snapshot.
fn count_keyed(keys: &HashSet<i64>, dimensions: &Dimensions, x: i32, y: i32) -> (count: i32)
    ensures
        count == count_around(
            keyed_in(keys@),
            dimensions.width as int,
            dimensions.height as int,
            x as int,
            y as int,
        ),
{
    let x: i64 = x as i64;
    let y: i64 = y as i64;
    one_if_keyed(keys, dimensions, x - 1, y - 1) + one_if_keyed(keys, dimensions, x - 1, y)
        + one_if_keyed(keys, dimensions, x - 1, y + 1) + one_if_keyed(keys, dimensions, x, y - 1)
        + one_if_keyed(keys, dimensions, x, y + 1) + one_if_keyed(keys, dimensions, x + 1, y - 1)
        + one_if_keyed(keys, dimensions, x + 1, y) + one_if_keyed(keys, dimensions, x + 1, y + 1)
}

/// Stages the next state of every cell: the state that `rule` gives it for
/// its own state and the number of its living neighbours. All counts are
/// taken from a snapshot of the store as it is on entry, and no cell's
/// current state changes.
pub fn neighbor_counting(world: &mut legion::World, dimensions: &Dimensions, rule: RuleKind)
    ensures
        world_rows(*final(world)) == staged(world_rows(*old(world)), *dimensions, rule),
{
    let listing = read_rows(world);
    let keys = living_keys(&listing);
    let ghost initial = world_rows(*world);
    let ghost target = staged(initial, *dimensions, rule);
    let mut i: usize = 0;
    while i < listing.len()
        invariant
            i <= listing.len(),
            lists_rows(listing@, initial),
            holds_living_keys(keys@, listing@, listing@.len() as int),
            target == staged(initial, *dimensions, rule),
            partly_rewritten(initial, world_rows(*world), listing@, i as int, target),
        decreases listing.len() - i,
    {
        let entity = listing[i].0;
        let ghost current = world_rows(*world);
        proof {
            lemma_rewrite_next(initial, current, listing@, i as int, target);
        }
        match (listing[i].1.position, listing[i].1.cell) {
            (Some(position), Some(cell)) => {
                let count: i32 = count_keyed(&keys, dimensions, position.x, position.y);
                proof {
                    let width = dimensions.width as int;
                    let height = dimensions.height as int;
                    assert forall|a: int, b: int| on_board(width, height, a, b) implies keyed_in(
                        keys@,
                    )(a, b) == living_in(initial)(a, b) by {
                        lemma_snapshot_is_faithful(keys@, listing@, initial, a as i32, b as i32);
                    }
                    lemma_count_around_agrees(
                        keyed_in(keys@),
                        living_in(initial),
                        width,
                        height,
                        position.x as int,
                        position.y as int,
                    );
                }
                put_next(world, entity, NextCell { alive: rule.evaluate(cell.alive, count) });
            },
            _ => {},
        }
        proof {
            lemma_rewrite_step(initial, current, world_rows(*world), listing@, i as int, target);
        }
        i = i + 1;
    }
    proof {
        lemma_rewrite_end(initial, world_rows(*world), listing@, target);
    }
}

/// The directive that draws a row, if the row is that of a cell with a
/// position and a colour.
pub open spec fn drawing(row: Row) -> Option<DrawDirective> {
    match (row.position, row.cell, row.color) {
        (Some(position), Some(cell), Some(color)) => Some(
            cell_drawing(position.x, position.y, cell.alive, color),
        ),
        _ => None,
    }
}

/// The directives that draw the listed rows, in the order of the listing.
pub open spec fn drawings(listing: Seq<(legion::Entity, Row)>) -> Seq<DrawDirective>
    decreases listing.len(),
{
    if listing.len() == 0 {
        Seq::empty()
    } else {
        match drawing(listing.last().1) {
            Some(directive) => drawings(listing.drop_last()).push(directive),
            None => drawings(listing.drop_last()),
        }
    }
}

/// `frame` draws the store: it holds the directives of the store's entities
/// in one of the orders in which they can be listed.
pub open spec fn draws(frame: Seq<DrawDirective>, rows: Rows) -> bool {
    exists|listing: Seq<(legion::Entity, Row)>| #[trigger]
        lists_rows(listing, rows) && frame == drawings(listing)
}

/// Makes the frame: one directive for each cell of the store. The order of
/// the directives is that in which the store hands its entities out.
pub fn render_system(world: &legion::World) -> (frame: Vec<DrawDirective>)
    ensures
        draws(frame@, world_rows(*world)),
{
    let listing = read_rows(world);
    let mut frame: Vec<DrawDirective> = Vec::new();
    let mut i: usize = 0;
    while i < listing.len()
        invariant
            i <= listing.len(),
            frame@ == drawings(listing@.take(i as int)),
        decreases listing.len() - i,
    {
        assert(listing@.take(i + 1).drop_last() == listing@.take(i as int));
        match (listing[i].1.position, listing[i].1.cell, listing[i].1.color) {
            (Some(position), Some(cell), Some(color)) => {
                frame.push(draw_cell(position.x, position.y, cell.alive, color));
            },
            _ => {},
        }
        i = i + 1;
    }
    assert(listing@.take(listing@.len() as int) == listing@);
    assert(lists_rows(listing@, world_rows(*world)) && frame@ == drawings(listing@));
    frame
}

/// Where every listed row is that of a cell with a position and a colour,
/// the frame has one directive for each listed entity, at the entity's place
/// in the listing.
pub proof fn lemma_one_drawing_for_each_cell(listing: Seq<(legion::Entity, Row)>)
    requires
        forall|i: int| 0 <= i < listing.len() ==> drawing(#[trigger] listing[i].1) is Some,
    ensures
        drawings(listing).len() == listing.len(),
        forall|i: int|
            0 <= i < listing.len() ==> Some(#[trigger] drawings(listing)[i]) == drawing(
                listing[i].1,
            ),
    decreases listing.len(),
{
    if listing.len() > 0 {
        let front = listing.drop_last();
        assert forall|i: int| 0 <= i < front.len() implies drawing(
            #[trigger] front[i].1,
        ) is Some by {
            assert(front[i] == listing[i]);
        }
        lemma_one_drawing_for_each_cell(front);
        assert(drawing(listing.last().1) is Some);
        assert forall|i: int| 0 <= i < listing.len() implies Some(#[trigger] drawings(listing)[i])
            == drawing(listing[i].1) by {
            if i < front.len() {
                assert(front[i] == listing[i]);
                assert(drawings(listing)[i] == drawings(front)[i]);
            }
        }
    }
}

/// From the ceiling on, a cell's colour no longer changes with its age.
pub proof fn lemma_color_is_capped(age: u32)
    requires
        age >= age_ceiling(),
    ensures
        color_of_age(age) == color_of_age(60),
        color_of_age(age) == (CellColor { r: 105, g: 155, b: 255 }),
{
}

/// A colour is always bright enough to be told from black: red is between
/// 105 and 255, green is red and fifty where that fits, and blue is full.
pub proof fn lemma_color_range(age: u32)
    ensures
        105 <= color_of_age(age).r <= 255,
        color_of_age(age).g == (if color_of_age(age).r <= 205 {
            color_of_age(age).r + 50
        } else {
            255
        }),
        color_of_age(age).b == 255,
{
}

/// Colouring depends on the ages only: to colour a store twice is to colour
/// it once.
pub proof fn lemma_coloring_twice_changes_nothing(rows: Rows)
    ensures
        colored(colored(rows)) == colored(rows),
{
    assert(colored(colored(rows)) =~= colored(rows));
}

/// Staging shows nothing of the next generation in the current states: it
/// keeps every entity, with its position, state, age and colour.
pub proof fn lemma_staging_keeps_current_states(
    rows: Rows,
    dimensions: Dimensions,
    rule: RuleKind,
    entity: legion::Entity,
)
    ensures
        staged(rows, dimensions, rule).contains_key(entity) == rows.contains_key(entity),
        rows.contains_key(entity) ==> {
            &&& staged(rows, dimensions, rule)[entity].position == rows[entity].position
            &&& staged(rows, dimensions, rule)[entity].cell == rows[entity].cell
            &&& staged(rows, dimensions, rule)[entity].age == rows[entity].age
            &&& staged(rows, dimensions, rule)[entity].color == rows[entity].color
        },
{
}

/// The staged states are read by the commit only, so it does not matter
/// whether they are taken away before or after ageing and colouring.
pub proof fn lemma_cleanup_may_come_last(rows: Rows)
    ensures
        cleared(colored(aged(rows))) == colored(aged(cleared(rows))),
{
    assert(cleared(colored(aged(rows))) =~= colored(aged(cleared(rows))));
}

/// A living cell counts for each of its neighbours and not for itself: the
/// number of living neighbours does not depend on the cell's own state.
pub proof fn lemma_own_state_does_not_count(
    rows: Rows,
    other: Rows,
    dimensions: Dimensions,
    x: int,
    y: int,
)
    requires
        forall|a: int, b: int| (a, b) != (x, y) ==> alive_at(rows, a, b) == alive_at(other, a, b),
    ensures
        live_neighbours(rows, dimensions, x, y) == live_neighbours(other, dimensions, x, y),
{
    lemma_count_around_agrees(
        living_in(rows),
        living_in(other),
        dimensions.width as int,
        dimensions.height as int,
        x,
        y,
    );
}

} // verus!
