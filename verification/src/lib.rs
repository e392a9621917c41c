//! A terminal sudoku editor core: an N x N grid (N a perfect square) with a
//! relation algebra over its cells, and a pure rendering engine that maps
//! logical cells to screen glyphs and computes incremental repaints.

mod box_drawing;
mod cell;
mod colors;
mod coordinate;
mod display;
mod enums;
mod error;
mod geometry;
mod grid;
mod labels;
mod session;
mod sub_grid;

pub use box_drawing::{
    build_corner_char, build_middle_char, CornerPosition, CornerRelative, MiddlePosition,
    MiddleRelative,
};
pub use cell::Cell;
pub use colors::{ColorsConfig, DisplayColor, Rgb};
pub use coordinate::Coordinate;
pub use display::{
    cell_to_d_cell_coor, render_coordinate_guide, DCell, DCellCoordinates, DCellRelations, DGrid,
    ScreenText, ScreenWrite, WriteView,
};
pub use enums::{CellRelation, Navigation, RenderVariant, SudokuEventType};
pub use error::SudokuError;
pub use grid::{CellRow, Grid};
pub use labels::{decimal_label, ValueLabels};
pub use session::{Mode, ModeSwitchEffect, Sudokube};
pub use sub_grid::SubGrid;
