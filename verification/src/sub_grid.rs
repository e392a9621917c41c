use crate::cell::Cell;
use crate::coordinate::Coordinate;
use crate::geometry::{is_square, spec_sqrt, sub_coor_of, sub_slot_of};
use vstd::prelude::*;

verus! {

/// One sudoku box: its position in the grid of sub grids, and the fixed-order
/// list of the coordinates of its member cells.
#[derive(Debug)]
pub struct SubGrid {
    pub coordinate: Coordinate,
    pub cells: Vec<Coordinate>,
}

impl SubGrid {
    /// A sub grid at the origin whose `size` member slots all still point at
    /// the grid origin.
    pub fn blank(size: u8) -> (r: SubGrid)
        ensures
            r.coordinate == (Coordinate(0, 0)),
            r.cells@.len() == size,
            forall|i: int| 0 <= i < size ==> r.cells@[i] == (Coordinate(0, 0)),
    {
        let mut cells: Vec<Coordinate> = Vec::new();
        let mut i: u8 = 0;
        while i < size
            invariant
                i <= size,
                cells@.len() == i,
                forall|j: int| 0 <= j < i ==> cells@[j] == (Coordinate(0, 0)),
            decreases size - i,
        {
            cells.push(Coordinate(0, 0));
            i = i + 1;
        }
        SubGrid { coordinate: Coordinate(0, 0), cells }
    }

    /// Whether `cell` belongs to this sub grid: the sub grid position computed
    /// from the cell's coordinate must match this sub grid's own position, and
    /// the recorded member coordinate at the cell's computed slot must match
    /// the cell's coordinate (this defends against divergence between a cell
    /// and a cached sub grid layout).
    pub fn has(&self, cell: &Cell) -> (r: bool)
        requires
            self.cells@.len() <= 255,
            is_square(self.cells@.len() as u8),
            self.cells@.len() >= 1,
            cell.coordinate.0 < self.cells@.len(),
            cell.coordinate.1 < self.cells@.len(),
        ensures
            r == {
                let s = spec_sqrt(self.cells@.len() as u8);
                sub_coor_of(cell.coordinate, s) == self.coordinate && self.cells@[sub_slot_of(
                    cell.coordinate,
                    s,
                )] == cell.coordinate
            },
    {
        let (_, index_in_sub_grid, sub_grid_coordinate) = cell.sub_grid(self.cells.len() as u8);

        if sub_grid_coordinate != self.coordinate {
            return false;
        }
        let sub_grid_cell_coor = self.cells[index_in_sub_grid];
        sub_grid_cell_coor == cell.coordinate
    }
}

} // verus!
