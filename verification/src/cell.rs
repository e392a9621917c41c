use crate::coordinate::Coordinate;
use crate::geometry::{
    int_sqrt, is_square, lemma_sub_grid_bounds, spec_sqrt, sub_coor_of, sub_grid_index_of,
    sub_slot_of,
};
use vstd::prelude::*;

verus! {

/// A single grid position: its coordinate, its optional digit value, and
/// whether the player may edit it (`editable == false` marks a given).
#[derive(Debug, Copy, Clone, Eq, PartialEq, Structural)]
pub struct Cell {
    pub coordinate: Coordinate,
    pub value: Option<u8>,
    pub editable: bool,
}

impl Cell {
    /// An unset, editable cell at the grid origin.
    pub fn blank() -> (c: Cell)
        ensures
            c.coordinate == (Coordinate(0, 0)),
            c.value is None,
            c.editable,
    {
        Cell { coordinate: Coordinate(0, 0), value: None, editable: true }
    }

    /// Where this cell lives in the grid of sub grids: the sub grid's index,
    /// the cell's slot inside that sub grid, and the sub grid's own position.
    pub fn sub_grid(&self, grid_size: u8) -> (r: (usize, usize, Coordinate))
        requires
            is_square(grid_size),
            grid_size >= 1,
            self.coordinate.0 < grid_size,
            self.coordinate.1 < grid_size,
        ensures
            r.0 == sub_grid_index_of(self.coordinate, spec_sqrt(grid_size)),
            r.1 == sub_slot_of(self.coordinate, spec_sqrt(grid_size)),
            r.2 == sub_coor_of(self.coordinate, spec_sqrt(grid_size)),
            r.0 < grid_size,
            r.1 < grid_size,
    {
        let sub_grid_size = int_sqrt(grid_size);
        proof {
            lemma_sub_grid_bounds(self.coordinate, sub_grid_size);
        }
        let Coordinate(x, y) = self.coordinate;
        let sub_grid_x = x / sub_grid_size;
        let sub_grid_y = y / sub_grid_size;

        let sub_grid_index = (sub_grid_x as usize) * (sub_grid_size as usize) + (sub_grid_y
            as usize);
        let cell_index_in_sub_grid = ((x % sub_grid_size) as usize) * (sub_grid_size as usize) + ((y
            % sub_grid_size) as usize);

        (sub_grid_index, cell_index_in_sub_grid, Coordinate(sub_grid_x, sub_grid_y))
    }
}

} // verus!
