use sudokube::{CellRelation, Coordinate, Grid};

#[test]
fn a_cell_relates_to_itself_by_same_only() {
    let grid = Grid::new(9);
    for x in 0..9u8 {
        for y in 0..9u8 {
            let relations = grid.get_cells_relation(Coordinate(x, y), Coordinate(x, y));
            assert_eq!(relations, vec![CellRelation::Same]);
        }
    }
}

#[test]
fn same_sub_grid_different_row_and_col_is_sub_grid_only() {
    let grid = Grid::new(9);
    let relations = grid.get_cells_relation(Coordinate(0, 0), Coordinate(1, 1));
    assert_eq!(relations, vec![CellRelation::SubGrid]);
    let relations = grid.get_cells_relation(Coordinate(4, 4), Coordinate(3, 5));
    assert_eq!(relations, vec![CellRelation::SubGrid]);
}

#[test]
fn same_row_inside_one_sub_grid_reports_both() {
    let grid = Grid::new(9);
    let relations = grid.get_cells_relation(Coordinate(0, 0), Coordinate(0, 1));
    assert_eq!(relations, vec![CellRelation::Row, CellRelation::SubGrid]);
}

#[test]
fn same_col_inside_one_sub_grid_reports_both() {
    let grid = Grid::new(9);
    let relations = grid.get_cells_relation(Coordinate(0, 0), Coordinate(2, 0));
    assert_eq!(relations, vec![CellRelation::Col, CellRelation::SubGrid]);
}

#[test]
fn same_row_across_sub_grids_is_row_only() {
    let grid = Grid::new(9);
    let relations = grid.get_cells_relation(Coordinate(0, 0), Coordinate(0, 8));
    assert_eq!(relations, vec![CellRelation::Row]);
}

#[test]
fn same_col_across_sub_grids_is_col_only() {
    let grid = Grid::new(9);
    let relations = grid.get_cells_relation(Coordinate(0, 0), Coordinate(8, 0));
    assert_eq!(relations, vec![CellRelation::Col]);
}

#[test]
fn unrelated_cells_report_nothing() {
    let grid = Grid::new(9);
    let relations = grid.get_cells_relation(Coordinate(0, 0), Coordinate(4, 4));
    assert_eq!(relations, vec![]);
}

#[test]
fn relations_on_a_four_by_four_grid() {
    let grid = Grid::new(4);
    assert_eq!(
        grid.get_cells_relation(Coordinate(0, 0), Coordinate(1, 1)),
        vec![CellRelation::SubGrid]
    );
    assert_eq!(
        grid.get_cells_relation(Coordinate(0, 0), Coordinate(0, 3)),
        vec![CellRelation::Row]
    );
}
