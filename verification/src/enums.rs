use vstd::prelude::*;

verus! {

/// How two cells of the grid stand to one another.
#[derive(Debug, Clone, Copy, Eq, PartialEq, Structural)]
pub enum CellRelation {
    /// the same cell
    Same,
    /// a cell in the same sub grid
    SubGrid,
    /// a cell in the same row
    Row,
    /// a cell in the same column
    Col,
}

/// The kinds of change a grid reports to its surroundings.
#[derive(Debug, Clone, Copy, Eq, PartialEq, Structural)]
pub enum SudokuEventType {
    SetCellValue,
}

/// A cursor movement request, already decoded from raw input.
#[derive(Debug, Clone, Copy)]
pub enum Navigation {
    Col(i8),
    Row(i8),
    Group(i8),
}

/// The semantic category a cell is painted with.
#[derive(Debug, Hash, Eq, PartialEq, Copy, Clone, Structural)]
pub enum RenderVariant {
    Default,
    /// a cell with the same value in an invalid position (same row, column or sub grid)
    Error,
    /// a cell that is not editable
    Fixed,
    /// a cell in the same column, row or sub grid as the active cell
    DirectionalRelative,
    /// a cell with the same value as the active cell
    SameValue,
}

} // verus!
