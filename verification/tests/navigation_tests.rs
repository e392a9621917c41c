use sudokube::{
    cell_to_d_cell_coor, ColorsConfig, Coordinate, DGrid, Grid, Navigation, ScreenWrite,
    ValueLabels,
};

fn setup() -> (Grid, DGrid, ColorsConfig, ValueLabels) {
    let grid = Grid::new(9);
    let d_grid = DGrid::new(&grid, Coordinate(1, 2));
    (grid, d_grid, ColorsConfig::default(), ValueLabels::standard(9))
}

fn navigate(
    grid: &Grid,
    d_grid: &mut DGrid,
    colors: &ColorsConfig,
    labels: &ValueLabels,
    navigation: Navigation,
) -> Coordinate {
    let mut out: Vec<ScreenWrite> = Vec::new();
    d_grid.navigate(grid, true, colors, labels, navigation, &mut out)
}

#[test]
fn row_navigation_wraps_to_the_far_edge() {
    let (grid, mut d_grid, colors, labels) = setup();
    assert_eq!(d_grid.active, Coordinate(0, 0));
    navigate(&grid, &mut d_grid, &colors, &labels, Navigation::Row(-1));
    assert_eq!(d_grid.active, Coordinate(8, 0));
    navigate(&grid, &mut d_grid, &colors, &labels, Navigation::Row(1));
    assert_eq!(d_grid.active, Coordinate(0, 0));
}

#[test]
fn col_navigation_wraps_to_the_far_edge() {
    let (grid, mut d_grid, colors, labels) = setup();
    navigate(&grid, &mut d_grid, &colors, &labels, Navigation::Col(-1));
    assert_eq!(d_grid.active, Coordinate(0, 8));
    navigate(&grid, &mut d_grid, &colors, &labels, Navigation::Col(1));
    assert_eq!(d_grid.active, Coordinate(0, 0));
}

#[test]
fn plain_steps_move_one_cell() {
    let (grid, mut d_grid, colors, labels) = setup();
    navigate(&grid, &mut d_grid, &colors, &labels, Navigation::Row(1));
    assert_eq!(d_grid.active, Coordinate(1, 0));
    navigate(&grid, &mut d_grid, &colors, &labels, Navigation::Col(3));
    assert_eq!(d_grid.active, Coordinate(1, 3));
}

#[test]
fn group_navigation_moves_a_whole_sub_grid() {
    let (grid, mut d_grid, colors, labels) = setup();
    navigate(&grid, &mut d_grid, &colors, &labels, Navigation::Group(1));
    assert_eq!(d_grid.active, Coordinate(0, 3));
}

#[test]
fn group_navigation_carries_into_the_row() {
    let (grid, mut d_grid, colors, labels) = setup();
    let mut out: Vec<ScreenWrite> = Vec::new();
    d_grid.navigate_to(&grid, true, &colors, &labels, Coordinate(0, 6), &mut out);
    navigate(&grid, &mut d_grid, &colors, &labels, Navigation::Group(1));
    assert_eq!(d_grid.active, Coordinate(3, 0));
}

#[test]
fn group_navigation_backwards_wraps_toroidally() {
    let (grid, mut d_grid, colors, labels) = setup();
    navigate(&grid, &mut d_grid, &colors, &labels, Navigation::Group(-1));
    assert_eq!(d_grid.active, Coordinate(6, 6));
    // a forward step undoes it
    navigate(&grid, &mut d_grid, &colors, &labels, Navigation::Group(1));
    assert_eq!(d_grid.active, Coordinate(0, 0));
}

#[test]
fn navigation_returns_the_cursor_screen_position() {
    let (grid, mut d_grid, colors, labels) = setup();
    let cursor = navigate(&grid, &mut d_grid, &colors, &labels, Navigation::Row(1));
    // centre of (1, 0) is (3, 2), shifted by the origin (1, 2)
    assert_eq!(cursor, Coordinate(4, 4));
}

#[test]
fn navigate_to_sets_the_active_cell() {
    let (grid, mut d_grid, colors, labels) = setup();
    let mut out: Vec<ScreenWrite> = Vec::new();
    let cursor = d_grid.navigate_to(&grid, true, &colors, &labels, Coordinate(4, 4), &mut out);
    assert_eq!(d_grid.active, Coordinate(4, 4));
    assert_eq!(cursor, Coordinate(2 * 4 + 1 + 1, 4 * 4 + 2 + 2));
}

#[test]
fn projection_constants() {
    assert_eq!(cell_to_d_cell_coor(Coordinate(0, 0)), Coordinate(1, 2));
    assert_eq!(cell_to_d_cell_coor(Coordinate(1, 0)), Coordinate(3, 2));
    assert_eq!(cell_to_d_cell_coor(Coordinate(0, 1)), Coordinate(1, 6));
    assert_eq!(cell_to_d_cell_coor(Coordinate(8, 8)), Coordinate(17, 34));
}
