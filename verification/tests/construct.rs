use game_of_life::{Cell, GridError, Universe};

fn seed(i: usize) -> Cell {
    if i % 2 == 0 || i % 7 == 0 {
        Cell::Alive
    } else {
        Cell::Dead
    }
}

#[test]
fn new_grid_has_one_cell_for_each_row_and_column() {
    let universe = Universe::new(4, 5);
    assert_eq!(universe.width(), 4);
    assert_eq!(universe.height(), 5);
    assert_eq!(universe.get_cells().len(), 20);
    assert_eq!(universe.cells().len(), 20);
}

#[test]
fn new_grid_is_seeded_by_index() {
    let universe = Universe::new(6, 4);
    let cells = universe.get_cells();
    for i in 0..cells.len() {
        assert_eq!(cells[i], seed(i), "index {}", i);
    }
    assert_eq!(cells[0], Cell::Alive);
    assert_eq!(cells[1], Cell::Dead);
    assert_eq!(cells[2], Cell::Alive);
    assert_eq!(cells[7], Cell::Alive);
    assert_eq!(cells[9], Cell::Dead);
    assert_eq!(cells[21], Cell::Alive);
    assert_eq!(cells[23], Cell::Dead);
}

#[test]
fn smallest_grid_is_seeded() {
    let universe = Universe::new(2, 2);
    assert_eq!(
        universe.get_cells().to_vec(),
        vec![Cell::Alive, Cell::Dead, Cell::Alive, Cell::Dead]
    );
}

#[test]
fn largest_grid_is_seeded() {
    let universe = Universe::new(1024, 1024);
    let cells = universe.get_cells();
    assert_eq!(cells.len(), 1024 * 1024);
    assert_eq!(cells[1024 * 1024 - 1], seed(1024 * 1024 - 1));
    assert_eq!(cells[1024 * 1024 - 1], Cell::Dead);
    assert_eq!(cells[1048565], Cell::Alive);
    let live = cells.iter().filter(|c| **c == Cell::Alive).count();
    let expected = (0..1024 * 1024).filter(|i| i % 2 == 0 || i % 7 == 0).count();
    assert_eq!(live, expected);
}

#[test]
fn sides_may_differ() {
    let universe = Universe::new(2, 1024);
    assert_eq!(universe.width(), 2);
    assert_eq!(universe.height(), 1024);
    assert_eq!(universe.get_cells().len(), 2048);
    let universe = Universe::new(1024, 2);
    assert_eq!(universe.width(), 1024);
    assert_eq!(universe.height(), 2);
    assert_eq!(universe.get_cells().len(), 2048);
}

#[test]
fn try_new_makes_what_new_makes() {
    let made = Universe::try_new(7, 3);
    assert!(made.is_ok());
    let made = made.ok().unwrap();
    let plain = Universe::new(7, 3);
    assert_eq!(made.width(), 7);
    assert_eq!(made.height(), 3);
    assert_eq!(made.get_cells(), plain.get_cells());
}

#[test]
fn try_new_refuses_a_short_side() {
    assert!(matches!(Universe::try_new(0, 10), Err(GridError::InvalidDimension)));
    assert!(matches!(Universe::try_new(1, 10), Err(GridError::InvalidDimension)));
    assert!(matches!(Universe::try_new(10, 0), Err(GridError::InvalidDimension)));
    assert!(matches!(Universe::try_new(10, 1), Err(GridError::InvalidDimension)));
    assert!(matches!(Universe::try_new(1, 1), Err(GridError::InvalidDimension)));
}

#[test]
fn try_new_refuses_a_long_side() {
    assert!(matches!(Universe::try_new(1025, 10), Err(GridError::InvalidDimension)));
    assert!(matches!(Universe::try_new(10, 1025), Err(GridError::InvalidDimension)));
    assert!(matches!(Universe::try_new(u32::MAX, u32::MAX), Err(GridError::InvalidDimension)));
    assert!(matches!(Universe::try_new(65536, 65536), Err(GridError::InvalidDimension)));
}

#[test]
fn try_new_takes_the_limits() {
    assert!(Universe::try_new(2, 2).is_ok());
    assert!(Universe::try_new(1024, 1024).is_ok());
    assert!(Universe::try_new(2, 1024).is_ok());
    assert!(Universe::try_new(1024, 2).is_ok());
}
