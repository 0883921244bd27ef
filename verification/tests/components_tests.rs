use bedelli::components::{Age, Cell, CellColor, NextCell, Position};

#[test]
fn test_age_default() {
    let age = Age::default();
    assert_eq!(age.value, 0);
}

#[test]
fn test_cell_color_default() {
    let color = CellColor::default();
    assert_eq!(color.r, 255);
    assert_eq!(color.g, 255);
    assert_eq!(color.b, 255);
}

#[test]
fn test_position_creation() {
    let pos = Position { x: 5, y: 10 };
    assert_eq!(pos.x, 5);
    assert_eq!(pos.y, 10);
}

#[test]
fn test_cell_creation() {
    let cell = Cell { alive: true };
    assert_eq!(cell.alive, true);

    let dead_cell = Cell { alive: false };
    assert_eq!(dead_cell.alive, false);
}

#[test]
fn test_age_creation() {
    let age = Age { value: 42 };
    assert_eq!(age.value, 42);
}

#[test]
fn test_next_cell_is_a_value_of_its_own() {
    let next = NextCell { alive: true };
    let copy = next;
    assert_eq!(next, copy);
    assert_ne!(next, NextCell { alive: false });
}
