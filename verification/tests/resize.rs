use game_of_life::{Cell, GridError, Universe};

#[test]
fn set_width_gives_a_dead_grid_of_the_new_size() {
    let mut universe = Universe::new(4, 5);
    assert_eq!(universe.set_width(7), Ok(()));
    assert_eq!(universe.width(), 7);
    assert_eq!(universe.height(), 5);
    assert_eq!(universe.get_cells().len(), 35);
    assert!(universe.get_cells().iter().all(|c| *c == Cell::Dead));
}

#[test]
fn set_height_gives_a_dead_grid_of_the_new_size() {
    let mut universe = Universe::new(4, 5);
    assert_eq!(universe.set_height(3), Ok(()));
    assert_eq!(universe.width(), 4);
    assert_eq!(universe.height(), 3);
    assert_eq!(universe.get_cells().len(), 12);
    assert!(universe.get_cells().iter().all(|c| *c == Cell::Dead));
}

#[test]
fn set_width_to_the_same_width_still_clears() {
    let mut universe = Universe::new(6, 6);
    assert!(universe.get_cells().iter().any(|c| *c == Cell::Alive));
    assert_eq!(universe.set_width(6), Ok(()));
    assert_eq!(universe.get_cells().len(), 36);
    assert!(universe.get_cells().iter().all(|c| *c == Cell::Dead));
}

#[test]
fn set_height_to_the_same_height_still_clears() {
    let mut universe = Universe::new(6, 6);
    assert_eq!(universe.set_height(6), Ok(()));
    assert_eq!(universe.get_cells().len(), 36);
    assert!(universe.get_cells().iter().all(|c| *c == Cell::Dead));
}

#[test]
fn resize_clears_whatever_was_there() {
    let mut universe = Universe::new(3, 3);
    assert_eq!(universe.set_width(3), Ok(()));
    assert_eq!(universe.set_cells(&[(0, 0), (1, 1), (2, 2)]), Ok(()));
    universe.tick();
    assert_eq!(universe.set_height(4), Ok(()));
    assert_eq!(universe.get_cells().to_vec(), vec![Cell::Dead; 12]);
    assert_eq!(universe.set_cells(&[(3, 2)]), Ok(()));
    assert_eq!(universe.set_width(2), Ok(()));
    assert_eq!(universe.get_cells().to_vec(), vec![Cell::Dead; 8]);
}

#[test]
fn resize_to_the_limits() {
    let mut universe = Universe::new(3, 3);
    assert_eq!(universe.set_width(1024), Ok(()));
    assert_eq!(universe.get_cells().len(), 3072);
    assert_eq!(universe.set_height(1024), Ok(()));
    assert_eq!(universe.get_cells().len(), 1024 * 1024);
    assert!(universe.get_cells().iter().all(|c| *c == Cell::Dead));
    assert_eq!(universe.set_width(2), Ok(()));
    assert_eq!(universe.set_height(2), Ok(()));
    assert_eq!(universe.get_cells().to_vec(), vec![Cell::Dead; 4]);
}

#[test]
fn set_width_refuses_a_width_outside_and_keeps_the_grid() {
    let mut universe = Universe::new(4, 5);
    let before = universe.get_cells().to_vec();
    assert_eq!(universe.set_width(0), Err(GridError::InvalidDimension));
    assert_eq!(universe.set_width(1), Err(GridError::InvalidDimension));
    assert_eq!(universe.set_width(1025), Err(GridError::InvalidDimension));
    assert_eq!(universe.set_width(u32::MAX), Err(GridError::InvalidDimension));
    assert_eq!(universe.width(), 4);
    assert_eq!(universe.height(), 5);
    assert_eq!(universe.get_cells(), &before[..]);
}

#[test]
fn set_height_refuses_a_height_outside_and_keeps_the_grid() {
    let mut universe = Universe::new(4, 5);
    let before = universe.get_cells().to_vec();
    assert_eq!(universe.set_height(0), Err(GridError::InvalidDimension));
    assert_eq!(universe.set_height(1), Err(GridError::InvalidDimension));
    assert_eq!(universe.set_height(1025), Err(GridError::InvalidDimension));
    assert_eq!(universe.set_height(u32::MAX), Err(GridError::InvalidDimension));
    assert_eq!(universe.width(), 4);
    assert_eq!(universe.height(), 5);
    assert_eq!(universe.get_cells(), &before[..]);
}

#[test]
fn dead_grid_stays_dead() {
    let mut universe = Universe::new(5, 4);
    assert_eq!(universe.set_width(5), Ok(()));
    for _ in 0..3 {
        universe.tick();
        assert_eq!(universe.get_cells().to_vec(), vec![Cell::Dead; 20]);
    }
}

#[test]
fn the_two_views_of_the_cells_agree() {
    let universe = Universe::new(9, 3);
    assert_eq!(universe.cells(), universe.get_cells());
    assert_eq!(universe.cells().as_ptr(), universe.get_cells().as_ptr());
}
