use sudokube::{Coordinate, Grid, SudokuError};

#[test]
fn new_grid_has_expected_dimensions() {
    let grid = Grid::new(9);
    assert_eq!(grid.len(), 9);
    assert_eq!(grid.rows.len(), 9);
    assert_eq!(grid.sub_grids.len(), 9);
    assert_eq!(grid.value_map.len(), 9);
    for row in &grid.rows {
        assert_eq!(row.cells.len(), 9);
    }
}

#[test]
fn cells_record_their_own_coordinate() {
    let grid = Grid::new(9);
    for x in 0..9u8 {
        for y in 0..9u8 {
            let cell = grid.get_cell(Coordinate(x, y));
            assert_eq!(cell.coordinate, Coordinate(x, y));
            assert_eq!(cell.value, None);
            assert!(cell.editable);
        }
    }
}

#[test]
fn cells_record_their_own_coordinate_on_other_sizes() {
    for size in [1u8, 4, 16] {
        let grid = Grid::new(size);
        for x in 0..size {
            for y in 0..size {
                assert_eq!(grid.get_cell(Coordinate(x, y)).coordinate, Coordinate(x, y));
            }
        }
    }
}

#[test]
fn set_cell_value_stores_the_value() {
    let mut grid = Grid::new(9);
    assert_eq!(grid.set_cell_value(Coordinate(2, 3), Some(7)), Ok(()));
    assert_eq!(grid.get_cell(Coordinate(2, 3)).value, Some(7));
    assert_eq!(grid.set_cell_value(Coordinate(2, 3), None), Ok(()));
    assert_eq!(grid.get_cell(Coordinate(2, 3)).value, None);
}

#[test]
fn set_cell_value_rejects_out_of_bound_coordinates() {
    let mut grid = Grid::new(9);
    grid.set_cell_value(Coordinate(1, 1), Some(4)).unwrap();

    let before: Vec<Coordinate> = grid.get_value_coors(4);
    let result = grid.set_cell_value(Coordinate(9, 0), Some(2));
    assert_eq!(result, Err(SudokuError::CellCoordinateOutOfBound));
    let result = grid.set_cell_value(Coordinate(0, 200), Some(2));
    assert_eq!(result, Err(SudokuError::CellCoordinateOutOfBound));

    // the grid is untouched: the cell and the reverse index are as before
    assert_eq!(grid.get_cell(Coordinate(1, 1)).value, Some(4));
    assert_eq!(grid.get_value_coors(4), before);
    assert_eq!(grid.get_value_coors(2), vec![]);
}

#[test]
fn set_cell_value_rejects_out_of_range_values() {
    let mut grid = Grid::new(9);
    assert_eq!(grid.set_cell_value(Coordinate(0, 0), Some(9)), Err(SudokuError::InvalidCellValue));
    assert_eq!(
        grid.set_cell_value(Coordinate(0, 0), Some(255)),
        Err(SudokuError::InvalidCellValue)
    );
    assert_eq!(grid.get_cell(Coordinate(0, 0)).value, None);
    // the largest in-range value is accepted
    assert_eq!(grid.set_cell_value(Coordinate(0, 0), Some(8)), Ok(()));
}

#[test]
fn value_index_tracks_every_mutation() {
    let mut grid = Grid::new(9);
    grid.set_cell_value(Coordinate(0, 0), Some(5)).unwrap();
    grid.set_cell_value(Coordinate(3, 4), Some(5)).unwrap();
    grid.set_cell_value(Coordinate(8, 8), Some(2)).unwrap();

    let fives = grid.get_value_coors(5);
    assert_eq!(fives.len(), 2);
    assert!(fives.contains(&Coordinate(0, 0)));
    assert!(fives.contains(&Coordinate(3, 4)));
    assert_eq!(grid.get_value_coors(2), vec![Coordinate(8, 8)]);

    // overwriting moves the coordinate from one digit's list to the other's
    grid.set_cell_value(Coordinate(0, 0), Some(2)).unwrap();
    assert_eq!(grid.get_value_coors(5), vec![Coordinate(3, 4)]);
    let twos = grid.get_value_coors(2);
    assert_eq!(twos.len(), 2);
    assert!(twos.contains(&Coordinate(8, 8)));
    assert!(twos.contains(&Coordinate(0, 0)));

    // clearing removes it
    grid.set_cell_value(Coordinate(0, 0), None).unwrap();
    assert_eq!(grid.get_value_coors(2), vec![Coordinate(8, 8)]);
}

#[test]
fn value_index_matches_a_full_rescan() {
    let mut grid = Grid::new(9);
    let writes = [
        (Coordinate(0, 0), Some(1)),
        (Coordinate(1, 1), Some(1)),
        (Coordinate(2, 2), Some(3)),
        (Coordinate(0, 0), Some(3)),
        (Coordinate(1, 1), None),
        (Coordinate(4, 7), Some(1)),
    ];
    for (coor, value) in writes {
        grid.set_cell_value(coor, value).unwrap();
    }
    for digit in 0..9u8 {
        let mut expected: Vec<Coordinate> = Vec::new();
        for x in 0..9u8 {
            for y in 0..9u8 {
                if grid.get_cell(Coordinate(x, y)).value == Some(digit) {
                    expected.push(Coordinate(x, y));
                }
            }
        }
        let mut listed = grid.get_value_coors(digit);
        listed.sort_by(|a, b| (a.0, a.1).cmp(&(b.0, b.1)));
        assert_eq!(listed, expected);
    }
}

#[test]
fn get_value_coors_of_unused_digit_is_empty() {
    let grid = Grid::new(9);
    assert_eq!(grid.get_value_coors(0), vec![]);
    assert_eq!(grid.get_value_coors(42), vec![]);
}

#[test]
fn row_col_and_sub_grid_coordinates() {
    let grid = Grid::new(9);
    let row = grid.get_row_coors(Coordinate(4, 7));
    assert_eq!(row.len(), 9);
    for (i, c) in row.iter().enumerate() {
        assert_eq!(*c, Coordinate(4, i as u8));
    }
    let col = grid.get_col_coors(Coordinate(4, 7));
    assert_eq!(col.len(), 9);
    for (i, c) in col.iter().enumerate() {
        assert_eq!(*c, Coordinate(i as u8, 7));
    }
    let sub = grid.get_sub_grid_coors(Coordinate(4, 7));
    assert_eq!(sub.len(), 9);
    for x in 3..6u8 {
        for y in 6..9u8 {
            assert!(sub.contains(&Coordinate(x, y)));
        }
    }
}

#[test]
fn sub_grid_lookup_and_membership() {
    let grid = Grid::new(9);
    let cell = *grid.get_cell(Coordinate(4, 7));
    let sub = grid.get_sub_grid(&cell);
    assert_eq!(sub.coordinate, Coordinate(1, 2));
    assert!(sub.has(&cell));
    let other = *grid.get_cell(Coordinate(0, 0));
    assert!(!sub.has(&other));
}

#[test]
fn cell_sub_grid_index_formula() {
    let grid = Grid::new(9);
    let cell = *grid.get_cell(Coordinate(4, 7));
    let (index, slot, coordinate) = cell.sub_grid(9);
    assert_eq!(index, 5);
    assert_eq!(slot, 4);
    assert_eq!(coordinate, Coordinate(1, 2));
}
