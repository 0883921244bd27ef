//! The entity store. The cells live as entities of a `legion::World`, each
//! with its components attached. This module says what the store holds, as a
//! map from entities to rows of components, and gives the few operations on it
//! that the systems are built from.

use vstd::prelude::*;
use crate::components::{Age, Cell, CellColor, NextCell, Position};

verus! {

/// The components of this library that one entity carries.
pub struct Row {
    pub position: Option<Position>,
    pub cell: Option<Cell>,
    pub next: Option<NextCell>,
    pub age: Option<Age>,
    pub color: Option<CellColor>,
}

/// `legion`'s container of entities, taken as it is.
#[verifier::external_type_specification]
#[verifier::external_body]
pub struct ExWorld(legion::World);

/// `legion`'s identifier of an entity, taken as it is.
#[verifier::external_type_specification]
#[verifier::external_body]
pub struct ExEntity(legion::Entity);

/// The view of a query that reads an entity and whichever of the five
/// components it carries.
type AllComponents = (
    legion::Entity,
    legion::TryRead<Position>,
    legion::TryRead<Cell>,
    legion::TryRead<NextCell>,
    legion::TryRead<Age>,
    legion::TryRead<CellColor>,
);

/// What a store holds: rows by entity.
pub type Rows = Map<legion::Entity, Row>;

/// What a world holds: its entities, each with its row.
pub uninterp spec fn world_rows(world: legion::World) -> Map<legion::Entity, Row>;

/// The row of a cell as it is created: no next state is staged yet.
pub open spec fn fresh_row(position: Position, cell: Cell, age: Age, color: CellColor) -> Row {
    Row {
        position: Some(position),
        cell: Some(cell),
        next: None,
        age: Some(age),
        color: Some(color),
    }
}

/// `listing` names every entity of `rows` once, each with its row.
pub open spec fn lists_rows(listing: Seq<(legion::Entity, Row)>, rows: Rows) -> bool {
    &&& forall|i: int, j: int| 0 <= i < j < listing.len() ==> listing[i].0 != listing[j].0
    &&& forall|i: int|
        0 <= i < listing.len() ==> rows.contains_key(#[trigger] listing[i].0) && rows[listing[i].0]
            == listing[i].1
    &&& forall|entity: legion::Entity|
        rows.contains_key(entity) ==> exists|i: int|
            0 <= i < listing.len() && #[trigger] listing[i].0 == entity
}

/// The row of `entity`, if the store holds it.
pub open spec fn row_of(rows: Rows, entity: legion::Entity) -> Option<Row> {
    if rows.contains_key(entity) {
        Some(rows[entity])
    } else {
        None
    }
}

/// `rows` with the cell of `entity` set; unchanged if `entity` is not there.
pub open spec fn with_cell(rows: Rows, entity: legion::Entity, cell: Cell) -> Rows {
    if rows.contains_key(entity) {
        rows.insert(entity, Row { cell: Some(cell), ..rows[entity] })
    } else {
        rows
    }
}

/// `rows` with the age of `entity` set; unchanged if `entity` is not there.
pub open spec fn with_age(rows: Rows, entity: legion::Entity, age: Age) -> Rows {
    if rows.contains_key(entity) {
        rows.insert(entity, Row { age: Some(age), ..rows[entity] })
    } else {
        rows
    }
}

/// `rows` with the colour of `entity` set; unchanged if `entity` is not there.
pub open spec fn with_color(rows: Rows, entity: legion::Entity, color: CellColor) -> Rows {
    if rows.contains_key(entity) {
        rows.insert(entity, Row { color: Some(color), ..rows[entity] })
    } else {
        rows
    }
}

/// `rows` with the staged state of `entity` set or taken away; unchanged if
/// `entity` is not there.
pub open spec fn with_next(rows: Rows, entity: legion::Entity, next: Option<NextCell>) -> Rows {
    if rows.contains_key(entity) {
        rows.insert(entity, Row { next, ..rows[entity] })
    } else {
        rows
    }
}

/// Makes a world with `legion::World::default`: it holds no entity.
#[verifier::external_body]
pub(crate) fn empty_world() -> (world: legion::World)
    ensures
        forall|entity: legion::Entity| !world_rows(world).contains_key(entity),
{
    legion::World::default()
}

/// Adds a cell with `legion::World::push`. The world gives the new entity an
/// identifier that none of its entities has, attaches the four components to
/// it and leaves the other entities as they are.
#[verifier::external_body]
pub(crate) fn spawn(
    world: &mut legion::World,
    position: Position,
    cell: Cell,
    age: Age,
    color: CellColor,
) -> (entity: legion::Entity)
    ensures
        !world_rows(*old(world)).contains_key(entity),
        world_rows(*final(world)) == world_rows(*old(world)).insert(
            entity,
            fresh_row(position, cell, age, color),
        ),
{
    world.push((position, cell, age, color))
}

/// Walks the world with a `legion` query that asks for the entity and, where
/// present, each of the five components (`TryRead`). Such a query passes
/// every entity, once, and hands out a component as `Some` exactly where the
/// entity carries it.
#[verifier::external_body]
pub(crate) fn read_rows(world: &legion::World) -> (listing: Vec<(legion::Entity, Row)>)
    ensures
        lists_rows(listing@, world_rows(*world)),
{
    let mut query = <AllComponents as legion::IntoQuery>::query();
    query.iter(world).map(
        |(entity, position, cell, next, age, color)| {
            let row = Row {
                position: position.copied(),
                cell: cell.copied(),
                next: next.copied(),
                age: age.copied(),
                color: color.copied(),
            };
            (*entity, row)
        },
    ).collect()
}

/// Looks one entity up with `legion::EntityStore::entry_ref`, which fails
/// for an entity that the world does not hold, and reads each component with
/// `EntryRef::get_component`, which fails where the entity does not carry it.
#[verifier::external_body]
pub(crate) fn read_row(world: &legion::World, entity: legion::Entity) -> (row: Option<Row>)
    ensures
        row == row_of(world_rows(*world), entity),
{
    let entry = legion::EntityStore::entry_ref(world, entity).ok()?;
    Some(
        Row {
            position: entry.get_component::<Position>().ok().copied(),
            cell: entry.get_component::<Cell>().ok().copied(),
            next: entry.get_component::<NextCell>().ok().copied(),
            age: entry.get_component::<Age>().ok().copied(),
            color: entry.get_component::<CellColor>().ok().copied(),
        },
    )
}

/// Sets an entity's cell with `legion::World::entry` and
/// `Entry::add_component`, which replaces the component's value where the
/// entity carries one and attaches it otherwise. Nothing happens for an entity
/// that the world does not hold.
#[verifier::external_body]
pub(crate) fn put_cell(world: &mut legion::World, entity: legion::Entity, cell: Cell)
    ensures
        world_rows(*final(world)) == with_cell(world_rows(*old(world)), entity, cell),
{
    if let Some(mut entry) = world.entry(entity) {
        entry.add_component(cell);
    }
}

/// Sets an entity's age, as `put_cell` sets its cell.
#[verifier::external_body]
pub(crate) fn put_age(world: &mut legion::World, entity: legion::Entity, age: Age)
    ensures
        world_rows(*final(world)) == with_age(world_rows(*old(world)), entity, age),
{
    if let Some(mut entry) = world.entry(entity) {
        entry.add_component(age);
    }
}

/// Sets an entity's colour, as `put_cell` sets its cell.
#[verifier::external_body]
pub(crate) fn put_color(world: &mut legion::World, entity: legion::Entity, color: CellColor)
    ensures
        world_rows(*final(world)) == with_color(world_rows(*old(world)), entity, color),
{
    if let Some(mut entry) = world.entry(entity) {
        entry.add_component(color);
    }
}

/// Stages an entity's next state, as `put_cell` sets its cell.
#[verifier::external_body]
pub(crate) fn put_next(world: &mut legion::World, entity: legion::Entity, next: NextCell)
    ensures
        world_rows(*final(world)) == with_next(world_rows(*old(world)), entity, Some(next)),
{
    if let Some(mut entry) = world.entry(entity) {
        entry.add_component(next);
    }
}

/// Takes an entity's staged state away with `legion::World::entry` and
/// `Entry::remove_component`, which does nothing where the entity carries
/// none. Nothing happens for an entity that the world does not hold.
#[verifier::external_body]
pub(crate) fn drop_next(world: &mut legion::World, entity: legion::Entity)
    ensures
        world_rows(*final(world)) == with_next(world_rows(*old(world)), entity, None),
{
    if let Some(mut entry) = world.entry(entity) {
        entry.remove_component::<NextCell>();
    }
}

} // verus!
