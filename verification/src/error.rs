use vstd::prelude::*;

verus! {

/// A validation failure reported by the grid's mutation entry point.
#[derive(Debug, Clone, Copy, Eq, PartialEq, Structural)]
pub enum SudokuError {
    /// a value outside `0..N`
    InvalidCellValue,
    /// a coordinate component outside `0..N`
    CellCoordinateOutOfBound,
}

} // verus!
