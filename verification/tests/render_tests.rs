use sudokube::{
    cell_to_d_cell_coor, ColorsConfig, Coordinate, DGrid, DisplayColor, Grid, Rgb, ScreenText,
    ScreenWrite, ValueLabels,
};

fn setup() -> (Grid, DGrid, ColorsConfig, ValueLabels) {
    let grid = Grid::new(9);
    let d_grid = DGrid::new(&grid, Coordinate(0, 0));
    (grid, d_grid, ColorsConfig::default(), ValueLabels::standard(9))
}

/// The last write at a logical cell's centre position, if any.
fn last_center_write(out: &[ScreenWrite], cell: Coordinate) -> Option<&ScreenWrite> {
    let at = cell_to_d_cell_coor(cell);
    out.iter().rev().find(|w| w.at == at)
}

fn text_of(w: &ScreenWrite) -> String {
    match &w.text {
        ScreenText::Glyph(c) => c.to_string(),
        ScreenText::Label(s) => s.clone(),
    }
}

fn error_color() -> DisplayColor {
    DisplayColor { bg: Some(Rgb(255, 0, 0)), color: Some(Rgb(255, 255, 255)) }
}

#[test]
fn conflicting_same_value_cell_is_marked_error_not_same_value() {
    let (mut grid, mut d_grid, colors, labels) = setup();
    grid.set_cell_value(Coordinate(0, 0), Some(5)).unwrap();
    grid.set_cell_value(Coordinate(0, 3), Some(5)).unwrap();

    let mut out: Vec<ScreenWrite> = Vec::new();
    d_grid.navigate_to(&grid, true, &colors, &labels, Coordinate(0, 0), &mut out);

    // (0, 3) shares a row with the active cell: the conflict highlight wins
    let write = last_center_write(&out, Coordinate(0, 3)).unwrap();
    assert_eq!(write.style, Some(error_color()));
    assert_eq!(text_of(write), "6");
}

#[test]
fn unrelated_same_value_cell_is_marked_same_value() {
    let (mut grid, mut d_grid, colors, labels) = setup();
    grid.set_cell_value(Coordinate(0, 0), Some(5)).unwrap();
    grid.set_cell_value(Coordinate(4, 4), Some(5)).unwrap();

    let mut out: Vec<ScreenWrite> = Vec::new();
    d_grid.navigate_to(&grid, true, &colors, &labels, Coordinate(0, 0), &mut out);

    let write = last_center_write(&out, Coordinate(4, 4)).unwrap();
    // the same-value colour sets only the foreground
    assert_eq!(write.style, Some(DisplayColor { bg: None, color: Some(Rgb(0, 215, 255)) }));
}

#[test]
fn related_empty_cells_get_the_directional_background() {
    let (grid, mut d_grid, colors, labels) = setup();
    let mut out: Vec<ScreenWrite> = Vec::new();
    d_grid.navigate_to(&grid, true, &colors, &labels, Coordinate(0, 0), &mut out);

    // (0, 8) shares the row with the new active cell
    let write = last_center_write(&out, Coordinate(0, 8)).unwrap();
    assert_eq!(write.style, Some(DisplayColor { bg: Some(Rgb(78, 78, 78)), color: None }));
    assert_eq!(text_of(write), " ");
    // (4, 4) is unrelated and empty: not repainted at all
    assert!(last_center_write(&out, Coordinate(4, 4)).is_none());
}

#[test]
fn non_editable_cells_always_paint_as_fixed() {
    let (mut grid, mut d_grid, colors, labels) = setup();
    grid.set_cell_value(Coordinate(0, 1), Some(3)).unwrap();
    grid.rows[0].cells[1].editable = false;

    let mut out: Vec<ScreenWrite> = Vec::new();
    d_grid.navigate_to(&grid, true, &colors, &labels, Coordinate(0, 0), &mut out);

    // (0, 1) is related to the active cell, but as a given it keeps the fixed
    // foreground instead of taking the directional variant's channels
    let write = last_center_write(&out, Coordinate(0, 1)).unwrap();
    assert_eq!(write.style, Some(DisplayColor { bg: None, color: Some(Rgb(0, 255, 0)) }));
    assert_eq!(text_of(write), "4");
}

#[test]
fn disabled_highlighting_writes_unstyled_text() {
    let (mut grid, mut d_grid, colors, labels) = setup();
    grid.set_cell_value(Coordinate(0, 0), Some(5)).unwrap();
    grid.set_cell_value(Coordinate(0, 3), Some(5)).unwrap();

    let mut out: Vec<ScreenWrite> = Vec::new();
    d_grid.navigate_to(&grid, false, &colors, &labels, Coordinate(0, 0), &mut out);

    for w in &out {
        assert_eq!(w.style, None);
    }
    let write = last_center_write(&out, Coordinate(0, 3)).unwrap();
    assert_eq!(text_of(write), "6");
}

#[test]
fn set_value_repaints_the_changed_cell_with_its_new_label() {
    let (mut grid, mut d_grid, colors, labels) = setup();
    grid.set_cell_value(Coordinate(2, 2), Some(0)).unwrap();

    let mut out: Vec<ScreenWrite> = Vec::new();
    d_grid.set_value(&grid, true, &colors, &labels, Coordinate(2, 2), None, Some(0), &mut out);

    let write = last_center_write(&out, Coordinate(2, 2)).unwrap();
    assert_eq!(text_of(write), "1");
    assert_eq!(write.style, Some(DisplayColor { bg: None, color: None }));
}

#[test]
fn clearing_a_value_resets_the_other_occurrence() {
    let (mut grid, mut d_grid, colors, labels) = setup();
    grid.set_cell_value(Coordinate(0, 0), Some(7)).unwrap();
    grid.set_cell_value(Coordinate(5, 5), Some(7)).unwrap();

    // the cursor sits on (0, 0); the cell is cleared
    let mut out: Vec<ScreenWrite> = Vec::new();
    d_grid.navigate_to(&grid, true, &colors, &labels, Coordinate(0, 0), &mut out);
    grid.set_cell_value(Coordinate(0, 0), None).unwrap();
    out.clear();
    d_grid.set_value(&grid, true, &colors, &labels, Coordinate(0, 0), Some(7), None, &mut out);

    // the old value's highlight on (5, 5) is cleared back to the baseline
    let write = last_center_write(&out, Coordinate(5, 5)).unwrap();
    assert_eq!(write.style, Some(DisplayColor { bg: None, color: None }));
    assert_eq!(text_of(write), "8");
}

#[test]
fn full_render_covers_every_cell() {
    let (grid, mut d_grid, colors, labels) = setup();
    let mut out: Vec<ScreenWrite> = Vec::new();
    d_grid.render(&grid, true, &colors, &labels, &mut out);

    for x in 0..9u8 {
        for y in 0..9u8 {
            assert!(last_center_write(&out, Coordinate(x, y)).is_some());
        }
    }
    // a 9x9 grid: 12 border writes and 1 centre write per cell, no same-value
    // repaints on a blank grid
    assert_eq!(out.len(), 81 * 13);
}

#[test]
fn full_render_draws_the_outer_corner_glyphs() {
    let (grid, mut d_grid, colors, labels) = setup();
    let mut out: Vec<ScreenWrite> = Vec::new();
    d_grid.render(&grid, true, &colors, &labels, &mut out);

    let top_left = out.iter().rev().find(|w| w.at == Coordinate(0, 0)).unwrap();
    assert_eq!(text_of(top_left), "┏");
    let bottom_right = out.iter().rev().find(|w| w.at == Coordinate(18, 36)).unwrap();
    assert_eq!(text_of(bottom_right), "┛");
}

#[test]
fn coordinate_guide_labels_rows_and_columns() {
    let mut out: Vec<ScreenWrite> = Vec::new();
    sudokube::render_coordinate_guide(Coordinate(0, 0), 9, &mut out);
    assert_eq!(out.len(), 18);
    assert_eq!(out[0].at, Coordinate(0, 4));
    assert_eq!(text_of(&out[0]), "1");
    assert_eq!(out[1].at, Coordinate(2, 0));
    assert_eq!(text_of(&out[1]), "1");
    assert_eq!(out[16].at, Coordinate(0, 36));
    assert_eq!(text_of(&out[16]), "9");
    assert_eq!(out[17].at, Coordinate(18, 0));
}

#[test]
fn value_labels_fall_back_to_a_space() {
    let labels = ValueLabels::standard(9);
    assert_eq!(labels.get(Some(0)), "1");
    assert_eq!(labels.get(Some(8)), "9");
    assert_eq!(labels.get(Some(42)), " ");
    assert_eq!(labels.get(None), " ");
    let custom = ValueLabels { labels: vec![String::from("A"), String::from("B")] };
    assert_eq!(custom.get(Some(1)), "B");
    assert_eq!(custom.get(Some(2)), " ");
}

#[test]
fn color_lookup_uses_configured_entries_and_builtins() {
    let blank = ColorsConfig::blank();
    assert_eq!(
        blank.get(sudokube::RenderVariant::Error),
        DisplayColor { bg: Some(Rgb(255, 0, 0)), color: Some(Rgb(255, 255, 255)) }
    );
    let mut custom = ColorsConfig::blank();
    custom.error = Some(DisplayColor { bg: None, color: Some(Rgb(1, 2, 3)) });
    assert_eq!(
        custom.get(sudokube::RenderVariant::Error),
        DisplayColor { bg: None, color: Some(Rgb(1, 2, 3)) }
    );
    let rgb = Rgb(10, 20, 30);
    assert_eq!(rgb.to_tuple(), (10, 20, 30));
    assert_eq!((rgb.r(), rgb.g(), rgb.b()), (10, 20, 30));
}
