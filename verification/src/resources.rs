//! What the systems share: the named rules, the board's dimensions and the
//! pointer input.

use std::collections::HashMap;
use vstd::prelude::*;
use crate::rule_text::{
    born_counts, is_rule_text, rule_text_error, scan_rule_text, stay_counts, RuleTextError,
};
use crate::rules::{has_count, have_same_counts, rule_next, same_counts};

verus! {

/// Conway's Game of Life: a living cell survives with two or three living
/// neighbours, a dead cell is born with exactly three.
pub open spec fn conway_next(alive: bool, neighbours: int) -> bool {
    if alive {
        neighbours == 2 || neighbours == 3
    } else {
        neighbours == 3
    }
}

/// HighLife: Conway's rule, and a dead cell is also born with six living
/// neighbours.
pub open spec fn highlife_next(alive: bool, neighbours: int) -> bool {
    if alive {
        neighbours == 2 || neighbours == 3
    } else {
        neighbours == 3 || neighbours == 6
    }
}

/// Day & Night: survival with 3, 4, 6, 7 or 8 living neighbours, birth with
/// 3, 6, 7 or 8.
pub open spec fn day_and_night_next(alive: bool, neighbours: int) -> bool {
    if alive {
        neighbours == 3 || neighbours == 4 || neighbours == 6 || neighbours == 7 || neighbours
            == 8
    } else {
        neighbours == 3 || neighbours == 6 || neighbours == 7 || neighbours == 8
    }
}

/// Applies Conway's rule to one cell.
pub fn conway_rule(curr_state: bool, neighbours_alive: i32) -> (next: bool)
    ensures
        next == conway_next(curr_state, neighbours_alive as int),
{
    if curr_state {
        neighbours_alive == 2 || neighbours_alive == 3
    } else {
        neighbours_alive == 3
    }
}

/// Applies the HighLife rule to one cell.
pub fn highlife_rule(curr_state: bool, neighbours_alive: i32) -> (next: bool)
    ensures
        next == highlife_next(curr_state, neighbours_alive as int),
{
    if curr_state {
        neighbours_alive == 2 || neighbours_alive == 3
    } else {
        neighbours_alive == 3 || neighbours_alive == 6
    }
}

/// Applies the Day & Night rule to one cell.
pub fn day_and_night_rule(curr_state: bool, neighbours_alive: i32) -> (next: bool)
    ensures
        next == day_and_night_next(curr_state, neighbours_alive as int),
{
    if curr_state {
        neighbours_alive == 3 || neighbours_alive == 4 || neighbours_alive == 6
            || neighbours_alive == 7 || neighbours_alive == 8
    } else {
        neighbours_alive == 3 || neighbours_alive == 6 || neighbours_alive == 7
            || neighbours_alive == 8
    }
}

/// A rule as a value: what tells the next state of a cell from its state and
/// the number of its living neighbours.
pub trait CellularRule {
    /// The rule's transition of one cell.
    spec fn transition(&self, alive: bool, neighbours: int) -> bool;

    /// Applies the rule to one cell.
    fn check(&self, curr_state: bool, neighbours_alive: i32) -> (next: bool)
        ensures
            next == self.transition(curr_state, neighbours_alive as int),
    ;
}

/// One of the named rules. A simulation holds its rule by value and never
/// changes it.
#[derive(Clone, Copy, Debug, PartialEq, Eq)]
pub enum RuleKind {
    /// Birth with three living neighbours, survival with two or three.
    Conway,
    /// Birth with three or six living neighbours, survival with two or three.
    HighLife,
    /// Birth with 3, 6, 7 or 8 living neighbours, survival with 3, 4, 6, 7 or 8.
    DayAndNight,
}

impl RuleKind {
    /// The rule's transition of one cell.
    pub open spec fn next(self, alive: bool, neighbours: int) -> bool {
        match self {
            RuleKind::Conway => conway_next(alive, neighbours),
            RuleKind::HighLife => highlife_next(alive, neighbours),
            RuleKind::DayAndNight => day_and_night_next(alive, neighbours),
        }
    }

    /// The rule's birth counts.
    pub open spec fn borns(self) -> Seq<i32> {
        match self {
            RuleKind::Conway => seq![3i32],
            RuleKind::HighLife => seq![3i32, 6],
            RuleKind::DayAndNight => seq![3i32, 6, 7, 8],
        }
    }

    /// The rule's survival counts.
    pub open spec fn stays(self) -> Seq<i32> {
        match self {
            RuleKind::Conway => seq![2i32, 3],
            RuleKind::HighLife => seq![2i32, 3],
            RuleKind::DayAndNight => seq![3i32, 4, 6, 7, 8],
        }
    }

    /// Applies the rule to one cell.
    pub fn evaluate(self, alive: bool, live_neighbors: i32) -> (next: bool)
        ensures
            next == self.next(alive, live_neighbors as int),
    {
        match self {
            RuleKind::Conway => conway_rule(alive, live_neighbors),
            RuleKind::HighLife => highlife_rule(alive, live_neighbors),
            RuleKind::DayAndNight => day_and_night_rule(alive, live_neighbors),
        }
    }
}

/// Each named rule is the birth/survival rule of its two lists of counts.
pub proof fn lemma_named_rules_follow_their_counts(kind: RuleKind, alive: bool, neighbours: int)
    ensures
        kind.next(alive, neighbours) == rule_next(kind.borns(), kind.stays(), alive, neighbours),
{
    let counts = if alive {
        kind.stays()
    } else {
        kind.borns()
    };
    if kind.next(alive, neighbours) {
        assert(exists|i: int| 0 <= i < counts.len() && #[trigger] counts[i] == neighbours) by {
            if counts.len() > 0 && counts[0] == neighbours {
            } else if counts.len() > 1 && counts[1] == neighbours {
            } else if counts.len() > 2 && counts[2] == neighbours {
            } else if counts.len() > 3 && counts[3] == neighbours {
            } else {
                assert(counts[4] == neighbours);
            }
        }
    }
}

/// The counts of the named rules are numbers of neighbours that a cell can
/// have.
pub proof fn lemma_named_counts_are_in_range(kind: RuleKind)
    ensures
        forall|i: int| 0 <= i < kind.borns().len() ==> 0 <= #[trigger] kind.borns()[i] <= 8,
        forall|i: int| 0 <= i < kind.stays().len() ==> 0 <= #[trigger] kind.stays()[i] <= 8,
{
}

/// HighLife is Conway's rule with one more birth, at six living neighbours.
pub proof fn lemma_highlife_adds_one_birth(alive: bool, neighbours: int)
    ensures
        highlife_next(alive, neighbours) == (conway_next(alive, neighbours) || (!alive
            && neighbours == 6)),
{
}

/// Whether the two lists stand for the birth and survival sets of the named
/// rule. The order of the counts and their repetition do not matter.
pub open spec fn spells(borns: Seq<i32>, stays: Seq<i32>, kind: RuleKind) -> bool {
    same_counts(borns, kind.borns()) && same_counts(stays, kind.stays())
}

/// The named rule that two lists of counts select. Lists that spell none of
/// the named rules select Conway's.
pub open spec fn rule_for(borns: Seq<i32>, stays: Seq<i32>) -> RuleKind {
    if spells(borns, stays, RuleKind::HighLife) {
        RuleKind::HighLife
    } else if spells(borns, stays, RuleKind::DayAndNight) {
        RuleKind::DayAndNight
    } else {
        RuleKind::Conway
    }
}

/// No two named rules have the same counts: what the lists spell, they
/// select.
pub proof fn lemma_spelled_rule_is_selected(borns: Seq<i32>, stays: Seq<i32>, kind: RuleKind)
    requires
        spells(borns, stays, kind),
    ensures
        rule_for(borns, stays) == kind,
{
    let conway = RuleKind::Conway.borns();
    let highlife = RuleKind::HighLife.borns();
    let day_and_night = RuleKind::DayAndNight.borns();
    assert(highlife[1] == 6 && has_count(highlife, 6));
    assert(day_and_night[2] == 7 && has_count(day_and_night, 7));
    assert(day_and_night[1] == 6 && has_count(day_and_night, 6));
    assert(!has_count(conway, 6));
    assert(!has_count(highlife, 7));
    assert(has_count(borns, 6) == has_count(kind.borns(), 6));
    assert(has_count(borns, 7) == has_count(kind.borns(), 7));
}

/// The counts of a named rule select that rule.
pub proof fn lemma_counts_of_a_named_rule_select_it(kind: RuleKind)
    ensures
        rule_for(kind.borns(), kind.stays()) == kind,
{
    lemma_spelled_rule_is_selected(kind.borns(), kind.stays(), kind);
}

/// The selected rule is the rule of the lists wherever they spell a named
/// rule: a cell's next state under it is what the two sets of counts give.
pub proof fn lemma_selected_rule_follows_the_counts(
    borns: Seq<i32>,
    stays: Seq<i32>,
    kind: RuleKind,
    alive: bool,
    neighbours: int,
)
    requires
        spells(borns, stays, kind),
    ensures
        rule_for(borns, stays).next(alive, neighbours) == rule_next(
            borns,
            stays,
            alive,
            neighbours,
        ),
{
    lemma_spelled_rule_is_selected(borns, stays, kind);
    lemma_named_rules_follow_their_counts(kind, alive, neighbours);
}

/// Picks the named rule that the two lists of counts spell.
pub fn make_rule(borns: Vec<i32>, stays: Vec<i32>) -> (kind: RuleKind)
    ensures
        kind == rule_for(borns@, stays@),
{
    let borns = borns.as_slice();
    let stays = stays.as_slice();
    if have_same_counts(borns, &[3, 6]) && have_same_counts(stays, &[2, 3]) {
        RuleKind::HighLife
    } else if have_same_counts(borns, &[3, 6, 7, 8]) && have_same_counts(
        stays,
        &[3, 4, 6, 7, 8],
    ) {
        RuleKind::DayAndNight
    } else {
        RuleKind::Conway
    }
}

/// Reads a named rule from a text such as `b3s23`.
pub fn parse_rule(rule_str: &str) -> (kind: RuleKind)
    requires
        is_rule_text(rule_str@),
    ensures
        kind == rule_for(born_counts(rule_str@), stay_counts(rule_str@)),
{
    match scan_rule_text(rule_str) {
        Ok((borns, stays)) => make_rule(borns, stays),
        Err(_) => RuleKind::Conway,
    }
}

/// Reads a named rule from a text, or says why the text is no rule.
pub fn try_parse_rule(rule_str: &str) -> (parsed: Result<RuleKind, RuleTextError>)
    ensures
        match parsed {
            Ok(kind) => is_rule_text(rule_str@) && kind == rule_for(
                born_counts(rule_str@),
                stay_counts(rule_str@),
            ),
            Err(error) => rule_text_error(rule_str@) == Some(error),
        },
{
    match scan_rule_text(rule_str) {
        Ok(_) => Ok(parse_rule(rule_str)),
        Err(error) => Err(error),
    }
}

/// The board's width and height, in cells.
pub struct Dimensions {
    pub width: i32,
    pub height: i32,
}

/// The pointer as it was last sampled: the cell it is over, and whether its
/// left button was pressed.
pub struct InputState {
    pub mouse_pos: (i32, i32),
    pub mouse_left: bool,
}

impl Default for InputState {
    fn default() -> (input: InputState)
        ensures
            input.mouse_pos == (0i32, 0i32),
            !input.mouse_left,
    {
        InputState { mouse_pos: (0, 0), mouse_left: false }
    }
}

/// The number under which a position is filed. Two positions never share one.
pub open spec fn position_key(x: int, y: int) -> int {
    x * 0x1_0000_0000 + y + 0x8000_0000
}

/// Positions with the same key are the same position.
pub proof fn lemma_position_key_is_one_to_one(x1: i32, y1: i32, x2: i32, y2: i32)
    ensures
        position_key(x1 as int, y1 as int) == position_key(x2 as int, y2 as int) ==> x1 == x2 && y1
            == y2,
        i64::MIN <= position_key(x1 as int, y1 as int) <= i64::MAX,
{
}

/// Computes the key of a position.
pub fn key_of(x: i32, y: i32) -> (key: i64)
    ensures
        key == position_key(x as int, y as int),
{
    (x as i64) * 0x1_0000_0000i64 + (y as i64 + 0x8000_0000i64)
}

/// Finds the entity of the cell at a position without a search of the store.
/// The index is built with the store and is never the source of a cell's
/// state: an entry whose entity the store does not hold is ignored.
pub struct PositionIndex(pub HashMap<i64, legion::Entity>);

impl PositionIndex {
    /// The entity filed under `(x, y)`, if there is one.
    pub open spec fn entity_at(&self, x: i32, y: i32) -> Option<legion::Entity> {
        if self.0@.contains_key(position_key(x as int, y as int) as i64) {
            Some(self.0@[position_key(x as int, y as int) as i64])
        } else {
            None
        }
    }

    /// An index without entries.
    pub fn new() -> (index: PositionIndex)
        ensures
            forall|x: i32, y: i32| index.entity_at(x, y) is None,
    {
        PositionIndex(HashMap::new())
    }

    /// Files `entity` under `position`, in place of what was filed there.
    pub fn insert(&mut self, position: (i32, i32), entity: legion::Entity)
        ensures
            forall|x: i32, y: i32|
                final(self).entity_at(x, y) == (if (x, y) == position {
                    Some(entity)
                } else {
                    old(self).entity_at(x, y)
                }),
    {
        let key: i64 = key_of(position.0, position.1);
        self.0.insert(key, entity);
        assert forall|x: i32, y: i32|
            final(self).entity_at(x, y) == (if (x, y) == position {
                Some(entity)
            } else {
                old(self).entity_at(x, y)
            }) by {
            lemma_position_key_is_one_to_one(x, y, position.0, position.1);
        }
    }

    /// Looks up the entity filed under `position`.
    pub fn get(&self, position: (i32, i32)) -> (found: Option<legion::Entity>)
        ensures
            found == self.entity_at(position.0, position.1),
    {
        let key: i64 = key_of(position.0, position.1);
        match self.0.get(&key) {
            Some(entity) => Some(*entity),
            None => None,
        }
    }
}

} // verus!
