//! The neighbourhood of a cell: the up to eight positions next to it that lie
//! on the board. The board does not wrap around, so a cell on the edge has
//! fewer neighbours.

use vstd::prelude::*;

verus! {

/// Whether `(x, y)` lies on a board of the given width and height.
pub open spec fn on_board(width: int, height: int, x: int, y: int) -> bool {
    0 <= x < width && 0 <= y < height
}

/// 1 if `(x, y)` lies on the board and is living, else 0. A position off the
/// board is never asked for its state.
pub open spec fn one_if_living(
    living: spec_fn(int, int) -> bool,
    width: int,
    height: int,
    x: int,
    y: int,
) -> int {
    if on_board(width, height, x, y) && living(x, y) {
        1
    } else {
        0
    }
}

/// The number of living cells among the neighbours of `(x, y)`, where
/// `living` tells which positions hold a living cell.
pub open spec fn count_around(
    living: spec_fn(int, int) -> bool,
    width: int,
    height: int,
    x: int,
    y: int,
) -> int {
    one_if_living(living, width, height, x - 1, y - 1) + one_if_living(
        living,
        width,
        height,
        x - 1,
        y,
    ) + one_if_living(living, width, height, x - 1, y + 1) + one_if_living(
        living,
        width,
        height,
        x,
        y - 1,
    ) + one_if_living(living, width, height, x, y + 1) + one_if_living(
        living,
        width,
        height,
        x + 1,
        y - 1,
    ) + one_if_living(living, width, height, x + 1, y) + one_if_living(
        living,
        width,
        height,
        x + 1,
        y + 1,
    )
}

/// A cell has between zero and eight living neighbours.
pub proof fn lemma_count_around_range(
    living: spec_fn(int, int) -> bool,
    width: int,
    height: int,
    x: int,
    y: int,
)
    ensures
        0 <= count_around(living, width, height, x, y) <= 8,
{
}

/// The count depends on the states of the positions on the board only, and
/// on those next to `(x, y)` only.
pub proof fn lemma_count_around_agrees(
    first: spec_fn(int, int) -> bool,
    second: spec_fn(int, int) -> bool,
    width: int,
    height: int,
    x: int,
    y: int,
)
    requires
        forall|a: int, b: int|
            on_board(width, height, a, b) && x - 1 <= a <= x + 1 && y - 1 <= b <= y + 1 && (a, b)
                != (x, y) ==> first(a, b) == second(a, b),
    ensures
        count_around(first, width, height, x, y) == count_around(second, width, height, x, y),
{
}

/// `(x, y)` alone if it lies on the board, else nothing.
pub open spec fn if_on_board(width: int, height: int, x: int, y: int) -> Seq<(i32, i32)> {
    if on_board(width, height, x, y) {
        seq![(x as i32, y as i32)]
    } else {
        Seq::empty()
    }
}

/// The neighbours of `(x, y)` that lie on the board, column by column.
pub open spec fn neighbours_on_board(width: int, height: int, x: int, y: int) -> Seq<(i32, i32)> {
    if_on_board(width, height, x - 1, y - 1) + if_on_board(width, height, x - 1, y) + if_on_board(
        width,
        height,
        x - 1,
        y + 1,
    ) + if_on_board(width, height, x, y - 1) + if_on_board(width, height, x, y + 1) + if_on_board(
        width,
        height,
        x + 1,
        y - 1,
    ) + if_on_board(width, height, x + 1, y) + if_on_board(width, height, x + 1, y + 1)
}

fn push_if_on_board(points: &mut Vec<(i32, i32)>, width: i32, height: i32, x: i64, y: i64)
    ensures
        final(points)@ == old(points)@ + if_on_board(
            width as int,
            height as int,
            x as int,
            y as int,
        ),
{
    if 0 <= x && x < width as i64 && 0 <= y && y < height as i64 {
        points.push((x as i32, y as i32));
        assert(final(points)@ == old(points)@ + seq![(x as i32, y as i32)]);
    } else {
        assert(final(points)@ == old(points)@ + Seq::<(i32, i32)>::empty());
    }
}

/// Lists the neighbours of `point` on a board of the given size.
pub fn neighbours(point: (i32, i32), max_width: i32, max_height: i32) -> (points: Vec<(i32, i32)>)
    ensures
        points@ == neighbours_on_board(
            max_width as int,
            max_height as int,
            point.0 as int,
            point.1 as int,
        ),
{
    let x: i64 = point.0 as i64;
    let y: i64 = point.1 as i64;
    let mut points: Vec<(i32, i32)> = Vec::new();
    assert(points@ == Seq::<(i32, i32)>::empty());
    push_if_on_board(&mut points, max_width, max_height, x - 1, y - 1);
    push_if_on_board(&mut points, max_width, max_height, x - 1, y);
    push_if_on_board(&mut points, max_width, max_height, x - 1, y + 1);
    push_if_on_board(&mut points, max_width, max_height, x, y - 1);
    push_if_on_board(&mut points, max_width, max_height, x, y + 1);
    push_if_on_board(&mut points, max_width, max_height, x + 1, y - 1);
    push_if_on_board(&mut points, max_width, max_height, x + 1, y);
    push_if_on_board(&mut points, max_width, max_height, x + 1, y + 1);
    points
}

/// The listed neighbours are at most eight, and each lies on the board.
pub proof fn lemma_neighbours_lie_on_board(width: int, height: int, x: int, y: int)
    requires
        width <= i32::MAX,
        height <= i32::MAX,
    ensures
        neighbours_on_board(width, height, x, y).len() <= 8,
        forall|i: int|
            0 <= i < neighbours_on_board(width, height, x, y).len() ==> on_board(
                width,
                height,
                (#[trigger] neighbours_on_board(width, height, x, y)[i]).0 as int,
                neighbours_on_board(width, height, x, y)[i].1 as int,
            ),
{
}

} // verus!
