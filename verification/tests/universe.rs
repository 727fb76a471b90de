use rwr::universe::{UniverseError, MAX_CELLS};
use rwr::{Cell, Universe};

fn dead(width: u32, height: u32) -> Universe {
    let cells = vec![Cell::Dead; (width * height) as usize];
    Universe::from_cells(width, height, &cells).unwrap()
}

fn snapshot(universe: &Universe) -> Vec<Cell> {
    let mut cells = Vec::new();
    for row in 0..universe.height() {
        for column in 0..universe.width() {
            cells.push(universe.get(row, column));
        }
    }
    cells
}

#[test]
fn new_is_sixty_four_by_sixty_four() {
    let universe = Universe::new();
    assert_eq!(universe.width(), 64);
    assert_eq!(universe.height(), 64);
    assert_eq!(snapshot(&universe).len(), 64 * 64);
}

#[test]
fn new_holds_the_seeding_pattern() {
    let universe = Universe::new();
    for row in 0..64u32 {
        for column in 0..64u32 {
            let i = row * 64 + column;
            let expected = if i % 2 == 0 || i % 7 == 0 { Cell::Alive } else { Cell::Dead };
            assert_eq!(universe.get(row, column), expected, "cell {}", i);
        }
    }
}

#[test]
fn seeding_pattern_exact_values() {
    let universe = Universe::with_dimensions(5, 3).unwrap();
    let a = Cell::Alive;
    let d = Cell::Dead;
    // positions 0..15: alive at 0 2 4 6 7 8 10 12 14
    assert_eq!(snapshot(&universe), vec![a, d, a, d, a, d, a, a, a, d, a, d, a, d, a]);
}

#[test]
fn seeding_is_reproducible() {
    let first = Universe::new();
    let second = Universe::new();
    assert_eq!(first.cells(), second.cells());
    assert_eq!(snapshot(&first), snapshot(&second));
    assert_eq!(first.render(), second.render());

    let third = Universe::with_dimensions(64, 64).unwrap();
    assert_eq!(first.cells(), third.cells());

    let small = Universe::with_dimensions(9, 4).unwrap();
    let again = Universe::with_dimensions(9, 4).unwrap();
    assert_eq!(small.cells(), again.cells());
    assert_eq!(snapshot(&small), snapshot(&again));
}

#[test]
fn with_dimensions_keeps_the_dimensions() {
    let universe = Universe::with_dimensions(7, 3).unwrap();
    assert_eq!(universe.width(), 7);
    assert_eq!(universe.height(), 3);
}

#[test]
fn zero_dimension_is_rejected() {
    assert_eq!(Universe::with_dimensions(0, 5).err(), Some(UniverseError::ZeroDimension));
    assert_eq!(Universe::with_dimensions(5, 0).err(), Some(UniverseError::ZeroDimension));
    assert_eq!(Universe::with_dimensions(0, 0).err(), Some(UniverseError::ZeroDimension));
    assert_eq!(Universe::from_cells(0, 3, &[]).err(), Some(UniverseError::ZeroDimension));
    assert_eq!(Universe::from_cells(3, 0, &[]).err(), Some(UniverseError::ZeroDimension));
}

#[test]
fn zero_dimension_is_reported_before_size() {
    assert_eq!(Universe::with_dimensions(0, u32::MAX).err(), Some(UniverseError::ZeroDimension));
    assert_eq!(Universe::with_dimensions(u32::MAX, 0).err(), Some(UniverseError::ZeroDimension));
}

#[test]
fn too_many_cells_are_rejected() {
    assert_eq!(MAX_CELLS, u32::MAX);
    assert_eq!(Universe::with_dimensions(65536, 65536).err(), Some(UniverseError::TooLarge));
    assert_eq!(Universe::with_dimensions(u32::MAX, 2).err(), Some(UniverseError::TooLarge));
    assert_eq!(
        Universe::with_dimensions(u32::MAX, u32::MAX).err(),
        Some(UniverseError::TooLarge)
    );
    assert_eq!(
        Universe::from_cells(65536, 65536, &[Cell::Dead]).err(),
        Some(UniverseError::TooLarge)
    );
}

#[test]
fn wrong_number_of_cells_is_rejected() {
    let cells = vec![Cell::Dead; 5];
    assert_eq!(Universe::from_cells(2, 3, &cells).err(), Some(UniverseError::LengthMismatch));
    assert_eq!(Universe::from_cells(1, 4, &cells).err(), Some(UniverseError::LengthMismatch));
    assert_eq!(Universe::from_cells(1, 6, &cells).err(), Some(UniverseError::LengthMismatch));
    assert_eq!(Universe::from_cells(2, 2, &[]).err(), Some(UniverseError::LengthMismatch));
    assert!(Universe::from_cells(5, 1, &cells).is_ok());
    assert!(Universe::from_cells(1, 5, &cells).is_ok());
}

#[test]
fn from_cells_keeps_cells_in_row_major_order() {
    let a = Cell::Alive;
    let d = Cell::Dead;
    let cells = vec![a, d, d, d, a, a];
    let universe = Universe::from_cells(3, 2, &cells).unwrap();
    assert_eq!(universe.width(), 3);
    assert_eq!(universe.height(), 2);
    assert_eq!(universe.get(0, 0), a);
    assert_eq!(universe.get(0, 1), d);
    assert_eq!(universe.get(0, 2), d);
    assert_eq!(universe.get(1, 0), d);
    assert_eq!(universe.get(1, 1), a);
    assert_eq!(universe.get(1, 2), a);
    assert_eq!(snapshot(&universe), cells);
}

#[test]
fn get_index_is_row_major() {
    let universe = dead(7, 3);
    assert_eq!(universe.get_index(0, 0), 0);
    assert_eq!(universe.get_index(0, 6), 6);
    assert_eq!(universe.get_index(1, 0), 7);
    assert_eq!(universe.get_index(2, 4), 18);
    assert_eq!(universe.get_index(2, 6), 20);
}

#[test]
fn set_overwrites_one_cell_only() {
    let mut universe = dead(4, 3);
    universe.set(1, 2, Cell::Alive);
    for row in 0..3 {
        for column in 0..4 {
            let expected = if (row, column) == (1, 2) { Cell::Alive } else { Cell::Dead };
            assert_eq!(universe.get(row, column), expected);
        }
    }
    universe.set(1, 2, Cell::Dead);
    assert_eq!(snapshot(&universe), vec![Cell::Dead; 12]);
}

#[test]
fn set_is_idempotent() {
    let mut universe = dead(2, 2);
    universe.set(0, 1, Cell::Alive);
    universe.set(0, 1, Cell::Alive);
    assert_eq!(
        snapshot(&universe),
        vec![Cell::Dead, Cell::Alive, Cell::Dead, Cell::Dead]
    );
}

#[test]
fn duplicate_is_equal_and_independent() {
    let mut source = Universe::with_dimensions(6, 5).unwrap();
    let copy = source.duplicate();
    assert_eq!(copy.width(), 6);
    assert_eq!(copy.height(), 5);
    assert_eq!(snapshot(&copy), snapshot(&source));
    assert_eq!(copy.cells(), source.cells());

    let before = snapshot(&source);
    source.set(0, 1, Cell::Alive);
    source.tick();
    assert_eq!(snapshot(&copy), before);
    assert_ne!(snapshot(&source), before);
}

#[test]
fn length_is_width_times_height_before_and_after_ticks() {
    let mut universe = Universe::with_dimensions(10, 7).unwrap();
    for _ in 0..5 {
        assert_eq!(universe.width(), 10);
        assert_eq!(universe.height(), 7);
        assert_eq!(universe.cells().len(), (70 + 31) / 32);
        assert_eq!(universe.render().chars().count(), 7 * 11);
        universe.tick();
    }
}
