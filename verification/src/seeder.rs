//! The first generation. A seeder fills the whole board: one state, 0 for
//! dead or 1 for alive, for each position.

use std::collections::BTreeMap;
use vstd::prelude::*;
use vstd::std_specs::btree::spec_btree_map_iter;
use vstd::std_specs::iter::IteratorSpec;
use crate::neighbours::on_board;

verus! {

broadcast use {vstd::laws_cmp::group_laws_cmp, vstd::std_specs::btree::group_btree_axioms};

/// The states of a board's cells by position `(x, y)`.
pub type Grid = BTreeMap<(i32, i32), i32>;

/// The ways to fill the first board.
pub enum Seeder {
    /// Every cell is dead or alive by chance.
    Random,
    /// The five cells of a glider near the origin.
    Glider,
    /// One living cell in the middle.
    CenterOne,
    /// A run of five living cells that starts in the middle and goes up
    /// the middle column.
    CenterFive,
}

/// The state of `(x, y)` in the glider pattern.
pub open spec fn glider_state(x: int, y: int) -> int {
    if (x == 1 && y == 2) || (x == 2 && y == 3) || (x == 3 && (y == 1 || y == 2 || y == 3)) {
        1
    } else {
        0
    }
}

/// The state of `(x, y)` where only the middle of the board is alive.
pub open spec fn center_one_state(width: int, height: int, x: int, y: int) -> int {
    if x == width / 2 && y == height / 2 {
        1
    } else {
        0
    }
}

/// The state of `(x, y)` where the run of five cells from the middle is
/// alive: the middle cell and the four behind it in its column.
pub open spec fn center_five_state(width: int, height: int, x: int, y: int) -> int {
    if x == width / 2 && height / 2 <= y <= height / 2 + 4 {
        1
    } else {
        0
    }
}

/// The grid has a state for each position of the board and for no other.
pub open spec fn covers_board(grid: Map<(i32, i32), i32>, width: int, height: int) -> bool {
    forall|x: i32, y: i32|
        #![trigger grid.contains_key((x, y))]
        grid.contains_key((x, y)) <==> on_board(width, height, x as int, y as int)
}

/// The grid covers the board, and every state is 0 or 1.
pub open spec fn is_binary_board(grid: Map<(i32, i32), i32>, width: int, height: int) -> bool {
    &&& covers_board(grid, width, height)
    &&& forall|x: i32, y: i32|
        #![trigger grid.contains_key((x, y))]
        grid.contains_key((x, y)) ==> grid[(x, y)] == 0 || grid[(x, y)] == 1
}

impl Seeder {
    /// Whether the seeder may give `(x, y)` the state `state`. Only the
    /// random seeder leaves a choice.
    pub open spec fn admits_state(
        &self,
        width: int,
        height: int,
        x: int,
        y: int,
        state: int,
    ) -> bool {
        match self {
            Seeder::Random => state == 0 || state == 1,
            Seeder::Glider => state == glider_state(x, y),
            Seeder::CenterOne => state == center_one_state(width, height, x, y),
            Seeder::CenterFive => state == center_five_state(width, height, x, y),
        }
    }

    /// Whether `grid` is a board that the seeder may produce.
    pub open spec fn admits(&self, width: int, height: int, grid: Map<(i32, i32), i32>) -> bool {
        &&& covers_board(grid, width, height)
        &&& forall|x: i32, y: i32|
            #![trigger grid.contains_key((x, y))]
            grid.contains_key((x, y)) ==> self.admits_state(
                width,
                height,
                x as int,
                y as int,
                grid[(x, y)] as int,
            )
    }

    /// Fills a board of the given size. A size that is not positive gives
    /// an empty board.
    pub fn seed(&self, width: i32, height: i32) -> (grid: Grid)
        ensures
            self.admits(width as int, height as int, grid@),
    {
        match *self {
            Seeder::Glider => grid_glider(width, height),
            Seeder::Random => grid_random(width, height),
            Seeder::CenterOne => grid_center_one(width, height),
            Seeder::CenterFive => grid_center_five(width, height),
        }
    }

    /// The seeder with the given number.
    pub fn new(index: u32) -> (seeder: Seeder)
        requires
            index <= 3,
        ensures
            index == 0 ==> seeder is Random,
            index == 1 ==> seeder is Glider,
            index == 2 ==> seeder is CenterOne,
            index == 3 ==> seeder is CenterFive,
    {
        if index == 0 {
            Seeder::Random
        } else if index == 1 {
            Seeder::Glider
        } else if index == 2 {
            Seeder::CenterOne
        } else {
            Seeder::CenterFive
        }
    }
}

/// Draws a number below `bound` by chance, with `rand::thread_rng` and
/// `Rng::gen_range` on the range `0..bound`. A value drawn from a range lies
/// in it; which value it is, nothing says. An empty range is refused by
/// `gen_range`, so the bound has to be positive. The generator is seeded by
/// the operating system and fails only where the system has no randomness to
/// give.
#[verifier::external_body]
fn random_below(bound: i32) -> (value: i32)
    requires
        bound > 0,
    ensures
        0 <= value < bound,
{
    rand::Rng::gen_range(&mut rand::thread_rng(), 0..bound)
}

/// The state that a seeder gives one cell.
fn seed_state(seeder: &Seeder, width: i32, height: i32, x: i32, y: i32) -> (state: i32)
    requires
        on_board(width as int, height as int, x as int, y as int),
    ensures
        seeder.admits_state(width as int, height as int, x as int, y as int, state as int),
{
    let alive = match seeder {
        Seeder::Random => { return random_below(2); },
        Seeder::Glider => (x == 1 && y == 2) || (x == 2 && y == 3) || (x == 3 && (y == 1 || y == 2
            || y == 3)),
        Seeder::CenterOne => x == width / 2 && y == height / 2,
        Seeder::CenterFive => x == width / 2 && y >= height / 2 && y <= height / 2 + 4,
    };
    if alive {
        1
    } else {
        0
    }
}

/// Fills the board position by position.
fn fill(seeder: &Seeder, width: i32, height: i32) -> (grid: Grid)
    ensures
        seeder.admits(width as int, height as int, grid@),
{
    let mut grid: Grid = BTreeMap::new();
    let mut x: i32 = 0;
    while x < width
        invariant
            0 <= x,
            x <= width || x == 0,
            forall|a: i32, b: i32|
                #![trigger grid@.contains_key((a, b))]
                grid@.contains_key((a, b)) <==> 0 <= a < x && 0 <= b < height,
            forall|a: i32, b: i32|
                #![trigger grid@.contains_key((a, b))]
                grid@.contains_key((a, b)) ==> seeder.admits_state(
                    width as int,
                    height as int,
                    a as int,
                    b as int,
                    grid@[(a, b)] as int,
                ),
        decreases width - x,
    {
        let mut y: i32 = 0;
        while y < height
            invariant
                0 <= x < width,
                0 <= y,
                y <= height || y == 0,
                forall|a: i32, b: i32|
                    #![trigger grid@.contains_key((a, b))]
                    grid@.contains_key((a, b)) <==> (0 <= a < x && 0 <= b < height) || (a == x && 0
                        <= b < y),
                forall|a: i32, b: i32|
                    #![trigger grid@.contains_key((a, b))]
                    grid@.contains_key((a, b)) ==> seeder.admits_state(
                        width as int,
                        height as int,
                        a as int,
                        b as int,
                        grid@[(a, b)] as int,
                    ),
            decreases height - y,
        {
            let state: i32 = seed_state(seeder, width, height, x, y);
            grid.insert((x, y), state);
            y = y + 1;
        }
        x = x + 1;
    }
    grid
}

/// The glider on an otherwise dead board.
pub fn grid_glider(width: i32, height: i32) -> (grid: Grid)
    ensures
        Seeder::Glider.admits(width as int, height as int, grid@),
{
    fill(&Seeder::Glider, width, height)
}

/// A board on which every cell is dead or alive by chance.
pub fn grid_random(width: i32, height: i32) -> (grid: Grid)
    ensures
        Seeder::Random.admits(width as int, height as int, grid@),
{
    fill(&Seeder::Random, width, height)
}

/// A board on which only the middle cell is alive.
pub fn grid_center_one(width: i32, height: i32) -> (grid: Grid)
    ensures
        Seeder::CenterOne.admits(width as int, height as int, grid@),
{
    fill(&Seeder::CenterOne, width, height)
}

/// A board on which only the run of five cells from the middle is alive.
pub fn grid_center_five(width: i32, height: i32) -> (grid: Grid)
    ensures
        Seeder::CenterFive.admits(width as int, height as int, grid@),
{
    fill(&Seeder::CenterFive, width, height)
}

/// Tests whether a grid has one state for each position of the board, 0 or
/// 1, and no state for any other position.
pub fn is_board(grid: &Grid, width: i32, height: i32) -> (ok: bool)
    ensures
        ok == is_binary_board(grid@, width as int, height as int),
{
    for entry in it: grid.iter()
        invariant
            it.seq() == spec_btree_map_iter(grid).remaining(),
            forall|j: int|
                0 <= j < it.index() ==> {
                    &&& on_board(
                        width as int,
                        height as int,
                        (#[trigger] it.seq()[j]).0.0 as int,
                        it.seq()[j].0.1 as int,
                    )
                    &&& *it.seq()[j].1 == 0 || *it.seq()[j].1 == 1
                },
    {
        let (key, state) = entry;
        let on_the_board = 0 <= key.0 && key.0 < width && 0 <= key.1 && key.1 < height;
        if !on_the_board || !(*state == 0 || *state == 1) {
            proof {
                let j = it.index() as int;
                assert(grid@.contains_key(*it.seq()[j].0));
                assert(grid@.contains_key((key.0, key.1)));
                assert(grid@[(key.0, key.1)] == *state);
            }
            return false;
        }
    }
    proof {
        let listed = spec_btree_map_iter(grid).remaining();
        assert forall|x: i32, y: i32| #[trigger] grid@.contains_key((x, y)) implies {
            &&& on_board(width as int, height as int, x as int, y as int)
            &&& grid@[(x, y)] == 0 || grid@[(x, y)] == 1
        } by {
            let key = (x, y);
            assert(listed.contains((&key, &grid@[key])));
            let j = choose|j: int| 0 <= j < listed.len() && listed[j] == (&key, &grid@[key]);
            assert(*listed[j].0 == key);
        }
    }
    let mut x: i32 = 0;
    while x < width
        invariant
            0 <= x,
            x <= width || x == 0,
            forall|a: i32, b: i32|
                0 <= a < x && 0 <= b < height ==> #[trigger] grid@.contains_key((a, b)),
        decreases width - x,
    {
        let mut y: i32 = 0;
        while y < height
            invariant
                0 <= x < width,
                0 <= y,
                y <= height || y == 0,
                forall|a: i32, b: i32|
                    (0 <= a < x && 0 <= b < height) || (a == x && 0 <= b < y)
                        ==> #[trigger] grid@.contains_key((a, b)),
            decreases height - y,
        {
            if grid.get(&(x, y)).is_none() {
                assert(!grid@.contains_key((x, y)));
                return false;
            }
            y = y + 1;
        }
        x = x + 1;
    }
    true
}

/// What a seeder admits is a board of states 0 and 1.
pub proof fn lemma_seeded_board_is_binary(
    seeder: Seeder,
    width: int,
    height: int,
    grid: Map<(i32, i32), i32>,
)
    requires
        seeder.admits(width, height, grid),
    ensures
        is_binary_board(grid, width, height),
{
    assert forall|x: i32, y: i32| #[trigger] grid.contains_key((x, y)) implies grid[(x, y)] == 0
        || grid[(x, y)] == 1 by {
        assert(seeder.admits_state(width, height, x as int, y as int, grid[(x, y)] as int));
    }
}

/// But for the random one, a seeder admits one board only for each size.
pub proof fn lemma_seeders_fix_every_state(
    seeder: Seeder,
    width: int,
    height: int,
    first: Map<(i32, i32), i32>,
    second: Map<(i32, i32), i32>,
)
    requires
        !(seeder is Random),
        seeder.admits(width, height, first),
        seeder.admits(width, height, second),
    ensures
        first == second,
{
    assert forall|key: (i32, i32)| first.contains_key(key) == second.contains_key(key) by {
        assert(first.contains_key((key.0, key.1)) == second.contains_key((key.0, key.1)));
    }
    assert forall|key: (i32, i32)| first.contains_key(key) implies first[key] == second[key] by {
        assert(first.contains_key((key.0, key.1)));
        assert(second.contains_key((key.0, key.1)));
        assert(seeder.admits_state(width, height, key.0 as int, key.1 as int, first[key] as int));
        assert(seeder.admits_state(width, height, key.0 as int, key.1 as int, second[key] as int));
    }
    assert(first =~= second);
}

} // verus!
