use bedelli::neighbours::neighbours;

#[test]
fn neighbours_of_an_inner_cell_are_eight_in_order() {
    assert_eq!(
        neighbours((2, 2), 5, 5),
        vec![(1, 1), (1, 2), (1, 3), (2, 1), (2, 3), (3, 1), (3, 2), (3, 3)]
    );
}

#[test]
fn neighbours_of_a_corner_are_three() {
    assert_eq!(neighbours((0, 0), 5, 5), vec![(0, 1), (1, 0), (1, 1)]);
    assert_eq!(neighbours((4, 4), 5, 5), vec![(3, 3), (3, 4), (4, 3)]);
}

#[test]
fn neighbours_of_an_edge_cell_are_five() {
    assert_eq!(neighbours((0, 2), 5, 5), vec![(0, 1), (0, 3), (1, 1), (1, 2), (1, 3)]);
    assert_eq!(neighbours((2, 4), 5, 5), vec![(1, 3), (1, 4), (2, 3), (3, 3), (3, 4)]);
}

#[test]
fn neighbours_on_a_board_of_one_cell_are_none() {
    assert_eq!(neighbours((0, 0), 1, 1), vec![]);
}

#[test]
fn neighbours_on_an_empty_board_are_none() {
    assert_eq!(neighbours((0, 0), 0, 0), vec![]);
    assert_eq!(neighbours((3, 3), -5, 10), vec![]);
}

#[test]
fn neighbours_of_a_cell_off_the_board_are_those_on_it() {
    assert_eq!(neighbours((-1, -1), 3, 3), vec![(0, 0)]);
    assert_eq!(neighbours((3, 1), 3, 3), vec![(2, 0), (2, 1), (2, 2)]);
    assert_eq!(neighbours((10, 10), 3, 3), vec![]);
}

#[test]
fn neighbours_at_the_ends_of_the_number_range_do_not_wrap() {
    assert_eq!(neighbours((i32::MAX, i32::MAX), i32::MAX, i32::MAX), vec![(
        i32::MAX - 1,
        i32::MAX - 1
    )]);
    assert_eq!(neighbours((i32::MIN, i32::MIN), 5, 5), vec![]);
}
