use crate::cell::Cell;
use crate::coordinate::Coordinate;
use crate::enums::CellRelation;
use crate::error::SudokuError;
use crate::geometry::{
    int_sqrt, is_square, lemma_member_props, lemma_member_roundtrip, lemma_sqrt_of_square,
    lemma_sub_grid_bounds, same_sub_grid, spec_sqrt, sub_coor_of, sub_grid_index_of,
    sub_grid_member, sub_slot_of,
};
use crate::sub_grid::SubGrid;
use vstd::prelude::*;

verus! {

/// One row of cells, in column order.
#[derive(Debug)]
pub struct CellRow {
    pub cells: Vec<Cell>,
}

impl CellRow {
    /// A row of `size` blank cells, all still at the grid origin.
    pub fn blank(size: u8) -> (r: CellRow)
        ensures
            r.cells@.len() == size,
            forall|i: int|
                0 <= i < size ==> #[trigger] r.cells@[i] == (Cell {
                    coordinate: Coordinate(0, 0),
                    value: None,
                    editable: true,
                }),
    {
        let mut cells: Vec<Cell> = Vec::new();
        let mut i: u8 = 0;
        while i < size
            invariant
                i <= size,
                cells@.len() == i,
                forall|j: int|
                    0 <= j < i ==> #[trigger] cells@[j] == (Cell {
                        coordinate: Coordinate(0, 0),
                        value: None,
                        editable: true,
                    }),
            decreases size - i,
        {
            cells.push(Cell::blank());
            i = i + 1;
        }
        CellRow { cells }
    }
}

/// The source of truth of a sudoku session: all cells in row-major order, the
/// derived sub grid layout, and a reverse index from digit to the coordinates
/// currently holding that digit.
pub struct Grid {
    pub rows: Vec<CellRow>,
    pub sub_grids: Vec<SubGrid>,
    /// `value_map[d]` lists, without duplicates, exactly the coordinates whose
    /// cell holds the digit `d`.
    pub value_map: Vec<Vec<Coordinate>>,
    pub size: u8,
    pub sub_size: u8,
}

impl Grid {
    /// Both components of `coor` address a cell of this grid.
    pub open spec fn in_bounds(self, coor: Coordinate) -> bool {
        coor.0 < self.size && coor.1 < self.size
    }

    /// The cell at a coordinate.
    pub open spec fn cell_at(self, coor: Coordinate) -> Cell {
        self.rows@[coor.0 as int].cells@[coor.1 as int]
    }

    /// The digit at a coordinate.
    pub open spec fn value_at(self, coor: Coordinate) -> Option<u8> {
        self.cell_at(coor).value
    }

    /// The containers have the advertised dimensions and the side length is
    /// the square of the sub grid side length.
    pub open spec fn wf_dims(self) -> bool {
        &&& 1 <= self.sub_size
        &&& self.size == self.sub_size * self.sub_size
        &&& self.rows@.len() == self.size
        &&& (forall|r: int|
            0 <= r < self.size ==> (#[trigger] self.rows@[r]).cells@.len() == self.size)
        &&& self.sub_grids@.len() == self.size
        &&& (forall|g: int|
            0 <= g < self.size ==> (#[trigger] self.sub_grids@[g]).cells@.len() == self.size)
        &&& self.value_map@.len() == self.size
    }

    /// Every cell records its own position, and holds no digit outside `0..size`.
    pub open spec fn wf_cells(self) -> bool {
        forall|r: int, c: int|
            0 <= r < self.size && 0 <= c < self.size ==> {
                let cell = #[trigger] self.rows@[r].cells@[c];
                cell.coordinate == Coordinate(r as u8, c as u8) && match cell.value {
                    Some(v) => v < self.size,
                    None => true,
                }
            }
    }

    /// The sub grid layout derived at construction: sub grid `g` sits at
    /// position `(g / sub_size, g % sub_size)` and its slot `s` records the
    /// member coordinate given by the index formulas.
    pub open spec fn wf_sub_grids(self) -> bool {
        &&& (forall|g: int|
            0 <= g < self.size ==> (#[trigger] self.sub_grids@[g]).coordinate == Coordinate(
                (g / self.sub_size as int) as u8,
                (g % self.sub_size as int) as u8,
            ))
        &&& (forall|g: int, s: int|
            0 <= g < self.size && 0 <= s < self.size ==> #[trigger] self.sub_grids@[g].cells@[s]
                == sub_grid_member(g, s, self.sub_size))
    }

    /// Every reverse-index entry points, without duplicates, at an in-bounds
    /// cell that holds that digit.
    pub open spec fn wf_value_map_sound(self) -> bool {
        &&& (forall|d: int|
            0 <= d < self.size ==> (#[trigger] self.value_map@[d])@.no_duplicates())
        &&& (forall|d: int, i: int|
            0 <= d < self.size && 0 <= i < self.value_map@[d]@.len() ==> {
                let c = #[trigger] self.value_map@[d]@[i];
                self.in_bounds(c) && self.value_at(c) == Some(d as u8)
            })
    }

    /// Every cell that holds a digit is listed in that digit's reverse-index
    /// entry.
    pub open spec fn wf_value_map_complete(self) -> bool {
        forall|r: int, c: int|
            0 <= r < self.size && 0 <= c < self.size ==> match (#[trigger] self.rows@[r].cells@[c]).value {
                Some(v) => self.value_map@[v as int]@.contains(Coordinate(r as u8, c as u8)),
                None => true,
            }
    }

    /// The grid's invariant: established by `new` and preserved by
    /// `set_cell_value`. In particular the reverse index always equals what a
    /// rescan of every cell would compute.
    pub open spec fn wf(self) -> bool {
        &&& self.wf_dims()
        &&& self.wf_cells()
        &&& self.wf_sub_grids()
        &&& self.wf_value_map_sound()
        &&& self.wf_value_map_complete()
    }

    /// A fully blank grid: every cell unset and editable, every sub grid
    /// membership derived from the coordinate formulas, every reverse-index
    /// entry empty.
    pub fn new(size: u8) -> (g: Grid)
        requires
            is_square(size),
            size >= 1,
        ensures
            g.wf(),
            g.size == size,
            g.sub_size == spec_sqrt(size),
            forall|r: int, c: int|
                0 <= r < size && 0 <= c < size ==> (#[trigger] g.rows@[r].cells@[c]).value is None
                    && g.rows@[r].cells@[c].editable,
            forall|d: int| 0 <= d < size ==> (#[trigger] g.value_map@[d])@ =~= Seq::<
                Coordinate,
            >::empty(),
    {
        let sub_size = int_sqrt(size);

        let mut rows: Vec<CellRow> = Vec::new();
        let mut x: u8 = 0;
        while x < size
            invariant
                x <= size,
                rows@.len() == x,
                forall|r: int|
                    0 <= r < x ==> (#[trigger] rows@[r]).cells@.len() == size,
                forall|r: int, c: int|
                    0 <= r < x && 0 <= c < size ==> #[trigger] rows@[r].cells@[c] == (Cell {
                        coordinate: Coordinate(r as u8, c as u8),
                        value: None,
                        editable: true,
                    }),
            decreases size - x,
        {
            let mut cells: Vec<Cell> = Vec::new();
            let mut y: u8 = 0;
            while y < size
                invariant
                    y <= size,
                    cells@.len() == y,
                    forall|c: int|
                        0 <= c < y ==> #[trigger] cells@[c] == (Cell {
                            coordinate: Coordinate(x as u8, c as u8),
                            value: None,
                            editable: true,
                        }),
                decreases size - y,
            {
                cells.push(Cell { coordinate: Coordinate(x, y), value: None, editable: true });
                y = y + 1;
            }
            rows.push(CellRow { cells });
            x = x + 1;
        }

        proof {
            lemma_sqrt_unique_for_grid(size, sub_size);
        }
        let mut sub_grids: Vec<SubGrid> = Vec::new();
        let mut g: u8 = 0;
        while g < size
            invariant
                g <= size,
                size == sub_size * sub_size,
                sub_size >= 1,
                sub_grids@.len() == g,
                forall|i: int|
                    0 <= i < g ==> (#[trigger] sub_grids@[i]).coordinate == Coordinate(
                        (i / sub_size as int) as u8,
                        (i % sub_size as int) as u8,
                    ),
                forall|i: int|
                    0 <= i < g ==> (#[trigger] sub_grids@[i]).cells@.len() == size,
                forall|i: int, s: int|
                    0 <= i < g && 0 <= s < size ==> #[trigger] sub_grids@[i].cells@[s]
                        == sub_grid_member(i, s, sub_size),
            decreases size - g,
        {
            proof {
                lemma_sub_grid_bounds(Coordinate(g, 0), sub_size);
            }
            let mut members: Vec<Coordinate> = Vec::new();
            let mut s: u8 = 0;
            while s < size
                invariant
                    s <= size,
                    g < size,
                    size == sub_size * sub_size,
                    sub_size >= 1,
                    members@.len() == s,
                    forall|j: int|
                        0 <= j < s ==> #[trigger] members@[j] == sub_grid_member(
                            g as int,
                            j,
                            sub_size,
                        ),
                decreases size - s,
            {
                proof {
                    lemma_sub_grid_bounds(Coordinate(g, s), sub_size);
                }
                let cx = (g / sub_size) * sub_size + s / sub_size;
                let cy = (g % sub_size) * sub_size + s % sub_size;
                members.push(Coordinate(cx, cy));
                s = s + 1;
            }
            sub_grids.push(
                SubGrid { coordinate: Coordinate(g / sub_size, g % sub_size), cells: members },
            );
            g = g + 1;
        }

        let mut value_map: Vec<Vec<Coordinate>> = Vec::new();
        let mut d: u8 = 0;
        while d < size
            invariant
                d <= size,
                value_map@.len() == d,
                forall|i: int| 0 <= i < d ==> (#[trigger] value_map@[i])@.len() == 0,
            decreases size - d,
        {
            value_map.push(Vec::new());
            d = d + 1;
        }

        Grid { rows, sub_grids, value_map, size, sub_size }
    }

    /// The grid's side length.
    pub fn len(&self) -> (n: u8)
        ensures
            n == self.size,
    {
        self.size
    }

    /// The cell at `coordinate`; callers must stay in bounds.
    pub fn get_cell(&self, coordinate: Coordinate) -> (cell: &Cell)
        requires
            self.wf(),
            self.in_bounds(coordinate),
        ensures
            *cell == self.cell_at(coordinate),
            cell.coordinate == coordinate,
    {
        let Coordinate(x, y) = coordinate;
        &self.rows[x as usize].cells[y as usize]
    }

    /// All `size` coordinates of the column through `coordinate`, in row order
    /// (the given coordinate included).
    pub fn get_col_coors(&self, coordinate: Coordinate) -> (coors: Vec<Coordinate>)
        requires
            self.wf(),
            self.in_bounds(coordinate),
        ensures
            coors@.len() == self.size,
            forall|i: int| 0 <= i < self.size ==> #[trigger] coors@[i] == Coordinate(
                i as u8,
                coordinate.1,
            ),
    {
        let mut coors: Vec<Coordinate> = Vec::new();
        let col = coordinate.col();
        let mut i: u8 = 0;
        while i < self.size
            invariant
                i <= self.size,
                coors@.len() == i,
                forall|j: int| 0 <= j < i ==> #[trigger] coors@[j] == Coordinate(j as u8, col),
            decreases self.size - i,
        {
            coors.push(Coordinate(i, col));
            i = i + 1;
        }
        coors
    }

    /// All `size` coordinates of the row through `coordinate`, in column order
    /// (the given coordinate included).
    pub fn get_row_coors(&self, coordinate: Coordinate) -> (coors: Vec<Coordinate>)
        requires
            self.wf(),
            self.in_bounds(coordinate),
        ensures
            coors@.len() == self.size,
            forall|i: int| 0 <= i < self.size ==> #[trigger] coors@[i] == Coordinate(
                coordinate.0,
                i as u8,
            ),
    {
        let mut coors: Vec<Coordinate> = Vec::new();
        let row = coordinate.row();
        let mut i: u8 = 0;
        while i < self.size
            invariant
                i <= self.size,
                coors@.len() == i,
                forall|j: int| 0 <= j < i ==> #[trigger] coors@[j] == Coordinate(row, j as u8),
            decreases self.size - i,
        {
            coors.push(Coordinate(row, i));
            i = i + 1;
        }
        coors
    }
    /// The stored layout agrees with the membership test of `SubGrid::has`:
    /// for in-bounds coordinates, `has` holds of the sub grid looked up
    /// through `a` exactly when `a` and `b` share a sub grid.
    proof fn lemma_sub_grid_has(self, a: Coordinate, b: Coordinate)
        requires
            self.wf(),
            self.in_bounds(a),
            self.in_bounds(b),
        ensures
            ({
                let s = self.sub_size;
                let sg = self.sub_grids@[sub_grid_index_of(a, s)];
                &&& sg.coordinate == sub_coor_of(a, s)
                &&& 0 <= sub_grid_index_of(a, s) < self.size
                &&& 0 <= sub_slot_of(b, s) < self.size
                &&& ((sub_coor_of(b, s) == sg.coordinate && sg.cells@[sub_slot_of(b, s)] == b)
                    <==> same_sub_grid(a, b, s))
            }),
    {
        let s = self.sub_size;
        lemma_sub_grid_bounds(a, s);
        lemma_sub_grid_bounds(b, s);
        lemma_member_roundtrip(a, s);
        lemma_member_roundtrip(b, s);
        let ga = sub_grid_index_of(a, s);
        let gb = sub_grid_index_of(b, s);
        let sg = self.sub_grids@[ga];
        assert(sg.coordinate == Coordinate((ga / s as int) as u8, (ga % s as int) as u8));
        assert(sg.coordinate == sub_coor_of(a, s));
        if same_sub_grid(a, b, s) {
            assert(ga == gb);
            assert(sg.cells@[sub_slot_of(b, s)] == sub_grid_member(gb, sub_slot_of(b, s), s));
            assert(sub_grid_member(gb, sub_slot_of(b, s), s) == b);
            assert(sub_coor_of(b, s) == sub_coor_of(a, s));
        } else {
            if sub_coor_of(b, s) == sg.coordinate {
                assert(sub_coor_of(b, s) == sub_coor_of(a, s));
                assert((b.0 as int / s as int) as u8 == (a.0 as int / s as int) as u8);
                assert(b.0 as int / s as int == a.0 as int / s as int);
                assert(b.1 as int / s as int == a.1 as int / s as int);
                assert(false);
            }
        }
    }

    /// The sub grid that holds `cell`.
    pub fn get_sub_grid(&self, cell: &Cell) -> (sg: &SubGrid)
        requires
            self.wf(),
            self.in_bounds(cell.coordinate),
        ensures
            0 <= sub_grid_index_of(cell.coordinate, self.sub_size) < self.size,
            *sg == self.sub_grids@[sub_grid_index_of(cell.coordinate, self.sub_size)],
    {
        proof {
            lemma_sqrt_unique_for_grid(self.size, self.sub_size);
            lemma_sub_grid_bounds(cell.coordinate, self.sub_size);
        }
        let (sub_grid_index, _, _) = cell.sub_grid(self.size);
        &self.sub_grids[sub_grid_index]
    }

    /// All `size` coordinates of the sub grid holding `coordinate`, in slot
    /// order (the given coordinate included): exactly the in-bounds
    /// coordinates that share a sub grid with it.
    pub fn get_sub_grid_coors(&self, coordinate: Coordinate) -> (coors: Vec<Coordinate>)
        requires
            self.wf(),
            self.in_bounds(coordinate),
        ensures
            coors@.len() == self.size,
            forall|i: int|
                0 <= i < self.size ==> #[trigger] coors@[i] == sub_grid_member(
                    sub_grid_index_of(coordinate, self.sub_size),
                    i,
                    self.sub_size,
                ),
            forall|c: Coordinate|
                #[trigger] coors@.contains(c) <==> (self.in_bounds(c) && same_sub_grid(
                    coordinate,
                    c,
                    self.sub_size,
                )),
            coors@.no_duplicates(),
    {
        let sub_grid = self.get_sub_grid(self.get_cell(coordinate));
        let ghost g = sub_grid_index_of(coordinate, self.sub_size);
        let mut coors: Vec<Coordinate> = Vec::new();
        let mut i: usize = 0;
        while i < sub_grid.cells.len()
            invariant
                self.wf(),
                self.in_bounds(coordinate),
                sub_grid.cells@.len() == self.size,
                *sub_grid == self.sub_grids@[g],
                g == sub_grid_index_of(coordinate, self.sub_size),
                0 <= g < self.size,
                i <= self.size,
                coors@.len() == i,
                forall|j: int| 0 <= j < i ==> #[trigger] coors@[j] == sub_grid.cells@[j],
            decreases self.size - i,
        {
            coors.push(sub_grid.cells[i]);
            i = i + 1;
        }
        proof {
            let s = self.sub_size;
            lemma_sub_grid_bounds(coordinate, s);
            assert forall|j: int| 0 <= j < self.size implies #[trigger] coors@[j]
                == sub_grid_member(g, j, s) by {
                assert(self.sub_grids@[g].cells@[j] == sub_grid_member(g, j, s));
            }
            assert forall|j: int| 0 <= j < self.size implies self.in_bounds(#[trigger] coors@[j])
                && same_sub_grid(coordinate, coors@[j], s) && sub_slot_of(coors@[j], s) == j by {
                lemma_member_props(g, j, s);
                lemma_member_roundtrip(coordinate, s);
            }
            assert forall|c: Coordinate|
                self.in_bounds(c) && same_sub_grid(coordinate, c, s) implies coors@.contains(
                c,
            ) by {
                lemma_member_roundtrip(c, s);
                lemma_sub_grid_bounds(c, s);
                assert(sub_grid_index_of(c, s) == g);
                assert(coors@[sub_slot_of(c, s)] == c);
            }
            assert forall|j: int, k: int| 0 <= j < k < self.size implies coors@[j] != coors@[k] by {
                assert(sub_slot_of(coors@[j], s) == j);
                assert(sub_slot_of(coors@[k], s) == k);
            }
        }
        coors
    }

    /// The sequence of relations `get_cells_relation` reports: `[Same]` for a
    /// coordinate and itself, else the subset of `[Row, Col, SubGrid]` that
    /// holds, in that order.
    pub open spec fn relations_of(self, a: Coordinate, b: Coordinate) -> Seq<CellRelation> {
        relations_seq(a, b, self.sub_size)
    }

    /// Every relation that holds between the two cells, never short-circuited:
    /// `[Same]` if they are the same coordinate, else all of row, column and
    /// sub grid membership that apply.
    pub fn get_cells_relation(&self, coor1: Coordinate, coor2: Coordinate) -> (relations: Vec<
        CellRelation,
    >)
        requires
            self.wf(),
            self.in_bounds(coor1),
            self.in_bounds(coor2),
        ensures
            relations@ == self.relations_of(coor1, coor2),
    {
        if coor1 == coor2 {
            let mut relations: Vec<CellRelation> = Vec::new();
            relations.push(CellRelation::Same);
            proof {
                assert(relations@ =~= self.relations_of(coor1, coor2));
            }
            return relations;
        }
        let Coordinate(x_1, y_1) = coor1;
        let Coordinate(x_2, y_2) = coor2;
        let mut relations: Vec<CellRelation> = Vec::new();
        if x_1 == x_2 {
            relations.push(CellRelation::Row);
        }
        if y_1 == y_2 {
            relations.push(CellRelation::Col);
        }

        let cell1 = self.get_cell(coor1);
        let cell2 = self.get_cell(coor2);
        proof {
            lemma_sqrt_unique_for_grid(self.size, self.sub_size);
            self.lemma_sub_grid_has(coor1, coor2);
        }
        if self.get_sub_grid(cell1).has(cell2) {
            relations.push(CellRelation::SubGrid);
        }
        proof {
            assert(relations@ =~= self.relations_of(coor1, coor2));
        }
        relations
    }
    /// What `get_value_coors` returns: the reverse-index entry for an
    /// in-range digit, the empty sequence otherwise.
    pub open spec fn value_coors_of(self, value: u8) -> Seq<Coordinate> {
        if value < self.size {
            self.value_map@[value as int]@
        } else {
            Seq::<Coordinate>::empty()
        }
    }

    /// The coordinates currently holding `value`: exactly the in-bounds cells
    /// whose value is `Some(value)`, each once, looked up in the reverse index
    /// rather than by scanning the grid.
    pub fn get_value_coors(&self, value: u8) -> (coors: Vec<Coordinate>)
        requires
            self.wf(),
        ensures
            coors@ == self.value_coors_of(value),
            forall|c: Coordinate|
                #[trigger] coors@.contains(c) <==> (self.in_bounds(c) && self.value_at(c) == Some(
                    value,
                )),
            coors@.no_duplicates(),
    {
        let mut coors: Vec<Coordinate> = Vec::new();
        if (value as usize) < self.value_map.len() {
            let src = &self.value_map[value as usize];
            let mut i: usize = 0;
            while i < src.len()
                invariant
                    i <= src@.len(),
                    coors@ == src@.take(i as int),
                decreases src@.len() - i,
            {
                coors.push(src[i]);
                proof {
                    assert(coors@ =~= src@.take(i + 1));
                }
                i = i + 1;
            }
            proof {
                assert(coors@ =~= src@);
            }
        }
        proof {
            self.lemma_value_coors_exact(value);
        }
        coors
    }

    /// The reverse-index entry of a digit holds exactly the coordinates of the
    /// cells holding that digit, each once.
    pub proof fn lemma_value_coors_exact(self, value: u8)
        requires
            self.wf(),
        ensures
            forall|c: Coordinate|
                #[trigger] self.value_coors_of(value).contains(c) <==> (self.in_bounds(c)
                    && self.value_at(c) == Some(value)),
            self.value_coors_of(value).no_duplicates(),
    {
        let entry = self.value_coors_of(value);
        if value < self.size {
            assert forall|c: Coordinate| #[trigger]
                entry.contains(c) implies self.in_bounds(c) && self.value_at(c) == Some(value) by {
                let i = choose|i: int| 0 <= i < entry.len() && entry[i] == c;
                assert(self.value_map@[value as int]@[i] == c);
            }
            assert forall|c: Coordinate|
                self.in_bounds(c) && self.value_at(c) == Some(value) implies #[trigger] entry.contains(
                c,
            ) by {
                assert(self.rows@[c.0 as int].cells@[c.1 as int].value == Some(value));
                assert(Coordinate(c.0 as u8, c.1 as u8) == c);
            }
        } else {
            assert forall|c: Coordinate|
                !(self.in_bounds(c) && self.value_at(c) == Some(value)) by {
                if self.in_bounds(c) && self.value_at(c) == Some(value) {
                    assert(self.rows@[c.0 as int].cells@[c.1 as int].value == Some(value));
                }
            }
        }
    }

    /// The reverse-index entry for digit `d` after one cell write at `c` from
    /// `old_value` to `new_value`: the coordinate leaves the old digit's list
    /// and is appended to the new digit's list.
    pub open spec fn updated_value_list(
        list: Seq<Coordinate>,
        d: u8,
        old_value: Option<u8>,
        new_value: Option<u8>,
        c: Coordinate,
    ) -> Seq<Coordinate> {
        let removed = if old_value == Some(d) {
            list.remove_value(c)
        } else {
            list
        };
        if new_value == Some(d) {
            removed.push(c)
        } else {
            removed
        }
    }

    /// Update the reverse index for one cell write: remove `coordinate` from
    /// the old digit's list if any, append it to the new digit's list if any.
    /// Touches nothing but `value_map`.
    fn map_value_coor(
        &mut self,
        old_value: Option<u8>,
        new_value: Option<u8>,
        coordinate: Coordinate,
    )
        requires
            old(self).wf(),
            old(self).in_bounds(coordinate),
            old_value == old(self).value_at(coordinate),
            match new_value {
                Some(v) => v < old(self).size,
                None => true,
            },
        ensures
            final(self).rows == old(self).rows,
            final(self).sub_grids == old(self).sub_grids,
            final(self).size == old(self).size,
            final(self).sub_size == old(self).sub_size,
            final(self).value_map@.len() == old(self).value_map@.len(),
            forall|d: int|
                0 <= d < old(self).value_map@.len() ==> (#[trigger] final(self).value_map@[d])@
                    == Grid::updated_value_list(
                    old(self).value_map@[d]@,
                    d as u8,
                    old_value,
                    new_value,
                    coordinate,
                ),
    {
        if let Some(v) = old_value {
            proof {
                assert(old(self).rows@[coordinate.0 as int].cells@[coordinate.1 as int].value
                    == Some(v));
            }
            let coors = &mut self.value_map[v as usize];
            let ghost orig = coors@;
            let mut i: usize = 0;
            loop
                invariant_except_break
                    coors@ == orig,
                    i <= orig.len(),
                    forall|j: int| 0 <= j < i ==> orig[j] != coordinate,
                ensures
                    coors@ == orig.remove_value(coordinate),
                decreases orig.len() - i,
            {
                if i >= coors.len() {
                    proof {
                        assert(!orig.contains(coordinate));
                        orig.index_of_first_ensures(coordinate);
                    }
                    break ;
                }
                if coors[i] == coordinate {
                    coors.remove(i);
                    proof {
                        orig.index_of_first_ensures(coordinate);
                        assert(orig.contains(coordinate));
                        let fi = orig.index_of_first(coordinate)->0;
                        assert(orig[fi] == coordinate);
                        assert(fi == i) by {
                            if fi < i {
                                assert(orig[fi] != coordinate);
                            }
                            if fi > i {
                                assert(orig[i as int] != coordinate);
                            }
                        }
                        assert(coors@ =~= orig.remove_value(coordinate));
                    }
                    break ;
                }
                i = i + 1;
            }
        }

        if let Some(v) = new_value {
            let coors = &mut self.value_map[v as usize];
            coors.push(coordinate);
        }

        proof {
            assert forall|d: int| 0 <= d < old(self).value_map@.len() implies (#[trigger] self.value_map@[d])@
                == Grid::updated_value_list(
                old(self).value_map@[d]@,
                d as u8,
                old_value,
                new_value,
                coordinate,
            ) by {}
        }
    }

    /// The single mutation entry point. Validates the coordinate (else
    /// `CellCoordinateOutOfBound`) and the value (else `InvalidCellValue`),
    /// leaving the grid untouched on failure; on success updates the reverse
    /// index and the cell together, keeping the grid invariant.
    pub fn set_cell_value(&mut self, coordinate: Coordinate, value: Option<u8>) -> (result: Result<
        (),
        SudokuError,
    >)
        requires
            old(self).wf(),
        ensures
            final(self).size == old(self).size,
            final(self).sub_size == old(self).sub_size,
            final(self).sub_grids == old(self).sub_grids,
            match result {
                Err(SudokuError::CellCoordinateOutOfBound) => !old(self).in_bounds(coordinate)
                    && *final(self) == *old(self),
                Err(SudokuError::InvalidCellValue) => old(self).in_bounds(coordinate) && (match value {
                    Some(v) => v >= old(self).size,
                    None => false,
                }) && *final(self) == *old(self),
                Ok(()) => {
                    &&& old(self).in_bounds(coordinate)
                    &&& match value {
                        Some(v) => v < old(self).size,
                        None => true,
                    }
                    &&& final(self).wf()
                    &&& final(self).value_at(coordinate) == value
                    &&& final(self).cell_at(coordinate).coordinate == coordinate
                    &&& final(self).cell_at(coordinate).editable == old(self).cell_at(
                        coordinate,
                    ).editable
                    &&& forall|c: Coordinate|
                        final(self).in_bounds(c) && c != coordinate
                            ==> #[trigger] final(self).cell_at(c) == old(self).cell_at(c)
                    &&& forall|d: int|
                        0 <= d < old(self).size ==> (#[trigger] final(self).value_map@[d])@
                            == Grid::updated_value_list(
                            old(self).value_map@[d]@,
                            d as u8,
                            old(self).value_at(coordinate),
                            value,
                            coordinate,
                        )
                },
            },
    {
        let Coordinate(x, y) = coordinate;
        if x >= self.size || y >= self.size {
            return Err(SudokuError::CellCoordinateOutOfBound);
        }

        if let Some(v) = value {
            if v >= self.size {
                return Err(SudokuError::InvalidCellValue);
            }
        }

        let old_value = self.get_cell(coordinate).value;
        self.map_value_coor(old_value, value, coordinate);

        let row = &mut self.rows[x as usize];
        let mut cell = row.cells[y as usize];
        cell.value = value;
        row.cells[y as usize] = cell;

        proof {
            self.lemma_set_preserves_wf(*old(self), coordinate, value);
        }
        Ok(())
    }

    /// After `map_value_coor` and the cell write of `set_cell_value`, the grid
    /// invariant holds again.
    proof fn lemma_set_preserves_wf(self, prev: Grid, coordinate: Coordinate, value: Option<u8>)
        requires
            prev.wf(),
            prev.in_bounds(coordinate),
            match value {
                Some(v) => v < prev.size,
                None => true,
            },
            self.size == prev.size,
            self.sub_size == prev.sub_size,
            self.sub_grids == prev.sub_grids,
            self.rows@.len() == prev.rows@.len(),
            forall|r: int|
                0 <= r < prev.size && r != coordinate.0 as int ==> #[trigger] self.rows@[r]
                    == prev.rows@[r],
            self.rows@[coordinate.0 as int].cells@ == prev.rows@[coordinate.0 as int].cells@.update(
                coordinate.1 as int,
                Cell {
                    value,
                    ..prev.rows@[coordinate.0 as int].cells@[coordinate.1 as int]
                },
            ),
            self.value_map@.len() == prev.value_map@.len(),
            forall|d: int|
                0 <= d < prev.size ==> (#[trigger] self.value_map@[d])@ == Grid::updated_value_list(
                    prev.value_map@[d]@,
                    d as u8,
                    prev.value_at(coordinate),
                    value,
                    coordinate,
                ),
        ensures
            self.wf(),
            self.value_at(coordinate) == value,
            self.cell_at(coordinate).coordinate == coordinate,
            self.cell_at(coordinate).editable == prev.cell_at(coordinate).editable,
            forall|c: Coordinate|
                self.in_bounds(c) && c != coordinate ==> #[trigger] self.cell_at(c) == prev.cell_at(
                    c,
                ),
    {
        let ov = prev.value_at(coordinate);
        assert forall|c: Coordinate|
            self.in_bounds(c) && c != coordinate implies #[trigger] self.cell_at(c) == prev.cell_at(
            c,
        ) by {
            if c.0 == coordinate.0 {
                assert(c.1 != coordinate.1);
            }
        }
        if ov is Some {
            prev.lemma_value_coors_exact(ov->0);
        }
        assert forall|d: int| 0 <= d < self.size implies (#[trigger] self.value_map@[d])@.no_duplicates()
            && (forall|i: int|
            0 <= i < self.value_map@[d]@.len() ==> {
                let c = #[trigger] self.value_map@[d]@[i];
                self.in_bounds(c) && self.value_at(c) == Some(d as u8)
            }) by {
            let prev_list = prev.value_map@[d]@;
            let new_list = self.value_map@[d]@;
            let removed = if ov == Some(d as u8) {
                prev_list.remove_value(coordinate)
            } else {
                prev_list
            };
            prev_list.index_of_first_ensures(coordinate);
            assert(removed.no_duplicates());
            assert(!removed.contains(coordinate)) by {
                if ov == Some(d as u8) {
                    if removed.contains(coordinate) {
                        let i = choose|i: int|
                            0 <= i < removed.len() && removed[i] == coordinate;
                        let fi = prev_list.index_of_first(coordinate)->0;
                        if i < fi {
                            assert(prev_list[i] == coordinate);
                        } else {
                            assert(prev_list[i + 1] == coordinate);
                        }
                    }
                } else {
                    if removed.contains(coordinate) {
                        let i = choose|i: int|
                            0 <= i < removed.len() && removed[i] == coordinate;
                        assert(prev.value_at(coordinate) == Some(d as u8));
                    }
                }
            }
            assert(new_list.no_duplicates());
            assert forall|i: int| 0 <= i < new_list.len() implies {
                let c = #[trigger] new_list[i];
                self.in_bounds(c) && self.value_at(c) == Some(d as u8)
            } by {
                let c = new_list[i];
                if value == Some(d as u8) && i == new_list.len() - 1 {
                    assert(c == coordinate);
                } else {
                    assert(removed.contains(c)) by {
                        assert(new_list[i] == removed[i]);
                    }
                    assert(prev_list.contains(c)) by {
                        if ov == Some(d as u8) {
                            let j = choose|j: int|
                                0 <= j < removed.len() && removed[j] == c;
                            let fi = prev_list.index_of_first(coordinate)->0;
                            if j < fi {
                                assert(prev_list[j] == c);
                            } else {
                                assert(prev_list[j + 1] == c);
                            }
                        }
                    }
                    assert(c != coordinate);
                    assert(prev.in_bounds(c) && prev.value_at(c) == Some(d as u8));
                }
            }
        }
        assert forall|r: int, c: int|
            0 <= r < self.size && 0 <= c < self.size implies match (#[trigger] self.rows@[r].cells@[c]).value {
            Some(v) => self.value_map@[v as int]@.contains(Coordinate(r as u8, c as u8)),
            None => true,
        } by {
            let co = Coordinate(r as u8, c as u8);
            let cell = self.rows@[r].cells@[c];
            if cell.value is Some {
                let v = cell.value->0;
                let prev_list = prev.value_map@[v as int]@;
                let new_list = self.value_map@[v as int]@;
                prev_list.index_of_first_ensures(coordinate);
                if co == coordinate {
                    assert(value == Some(v));
                    assert(new_list[new_list.len() - 1] == coordinate);
                } else {
                    assert(prev.cell_at(co) == prev.rows@[r].cells@[c]);
                    assert(prev.rows@[r].cells@[c].value == Some(v));
                    assert(prev_list.contains(co));
                    let j = choose|j: int| 0 <= j < prev_list.len() && prev_list[j] == co;
                    let removed = if ov == Some(v) {
                        prev_list.remove_value(coordinate)
                    } else {
                        prev_list
                    };
                    assert(removed.contains(co)) by {
                        if ov == Some(v) {
                            let fi = prev_list.index_of_first(coordinate)->0;
                            assert(prev_list[fi] == coordinate);
                            assert(j != fi);
                            if j < fi {
                                assert(removed[j] == co);
                            } else {
                                assert(removed[j - 1] == co);
                            }
                        }
                    }
                    assert(new_list.contains(co)) by {
                        let k = choose|k: int| 0 <= k < removed.len() && removed[k] == co;
                        assert(new_list[k] == co);
                    }
                }
            }
        }
    }
}

/// The relations between two coordinates of a grid with sub grid side `sub`:
/// `[Same]` for a coordinate and itself, else the subset of
/// `[Row, Col, SubGrid]` that holds, in that order and never short-circuited.
pub open spec fn relations_seq(a: Coordinate, b: Coordinate, sub: u8) -> Seq<CellRelation> {
    if a == b {
        seq![CellRelation::Same]
    } else {
        (if a.0 == b.0 {
            seq![CellRelation::Row]
        } else {
            Seq::<CellRelation>::empty()
        }) + (if a.1 == b.1 {
            seq![CellRelation::Col]
        } else {
            Seq::<CellRelation>::empty()
        }) + (if same_sub_grid(a, b, sub) {
            seq![CellRelation::SubGrid]
        } else {
            Seq::<CellRelation>::empty()
        })
    }
}

/// Cells never move: in a well-formed grid, the cell found at a coordinate
/// records that same coordinate.
pub proof fn lemma_cell_records_coordinate(g: Grid, c: Coordinate)
    requires
        g.wf(),
        g.in_bounds(c),
    ensures
        g.cell_at(c).coordinate == c,
{
}

/// A coordinate relates to itself exactly by `Same`.
pub proof fn lemma_relation_self(g: Grid, c: Coordinate)
    ensures
        g.relations_of(c, c) == seq![CellRelation::Same],
{
}

/// Two distinct coordinates of the same sub grid that share neither row nor
/// column relate exactly by `SubGrid`.
pub proof fn lemma_relation_sub_grid_only(g: Grid, a: Coordinate, b: Coordinate)
    requires
        a != b,
        a.0 != b.0,
        a.1 != b.1,
        same_sub_grid(a, b, g.sub_size),
    ensures
        g.relations_of(a, b) == seq![CellRelation::SubGrid],
{
    assert(g.relations_of(a, b) =~= seq![CellRelation::SubGrid]);
}

/// For a well-formed grid size, the stored sub grid side is the exact square
/// root of the side length.
pub proof fn lemma_sqrt_unique_for_grid(size: u8, sub_size: u8)
    requires
        sub_size * sub_size == size,
    ensures
        is_square(size),
        spec_sqrt(size) == sub_size,
{
    lemma_sqrt_of_square(sub_size);
}

} // verus!
