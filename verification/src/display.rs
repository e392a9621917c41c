use crate::box_drawing::{
    build_corner_char, build_middle_char, corner_glyph, corner_mask, middle_glyph, middle_mask,
    CornerPosition, CornerRelative, MiddlePosition, MiddleRelative,
};
use crate::cell::Cell;
use crate::colors::{ColorsConfig, DisplayColor};
use crate::coordinate::Coordinate;
use crate::enums::{CellRelation, Navigation, RenderVariant};
use crate::geometry::{
    lemma_member_props, lemma_member_roundtrip, lemma_sub_grid_bounds, same_sub_grid,
    sub_grid_index_of, sub_grid_member, sub_slot_of,
};
use crate::grid::{relations_seq, Grid};
use crate::labels::{decimal_chars, decimal_label, ValueLabels};
use vstd::prelude::*;

verus! {

/// The text of one screen write: a single box-drawing glyph, or a cell's
/// display label.
#[derive(Debug)]
pub enum ScreenText {
    Glyph(char),
    Label(String),
}

impl View for ScreenText {
    type V = Seq<char>;

    open spec fn view(&self) -> Seq<char> {
        match self {
            ScreenText::Glyph(c) => seq![*c],
            ScreenText::Label(s) => s@,
        }
    }
}

/// One write command for the terminal: put `text` at the absolute screen
/// position `at`, under `style`, or unstyled where `style` is `None`.
#[derive(Debug)]
pub struct ScreenWrite {
    pub at: Coordinate,
    pub text: ScreenText,
    pub style: Option<DisplayColor>,
}

/// The mathematical shadow of a `ScreenWrite`, with the text as a character
/// sequence.
pub struct WriteView {
    pub at: Coordinate,
    pub text: Seq<char>,
    pub style: Option<DisplayColor>,
}

impl View for ScreenWrite {
    type V = WriteView;

    open spec fn view(&self) -> WriteView {
        WriteView { at: self.at, text: self.text@, style: self.style }
    }
}

/// The views of a command list, element-wise.
pub open spec fn write_views(s: Seq<ScreenWrite>) -> Seq<WriteView> {
    s.map_values(|w: ScreenWrite| w@)
}

/// Component-wise coordinate addition in specifications.
pub open spec fn spec_plus(a: Coordinate, b: Coordinate) -> Coordinate {
    Coordinate((a.0 + b.0) as u8, (a.1 + b.1) as u8)
}

/// The grid-relative screen position of a logical cell's value glyph: each
/// logical cell spans two screen rows and four screen columns, so the centre
/// sits at `(2*row + 1, 4*col + 2)`.
pub open spec fn d_center(c: Coordinate) -> Coordinate {
    Coordinate((2 * c.0 + 1) as u8, (4 * c.1 + 2) as u8)
}

/// The grid-relative screen position of a logical cell's value glyph.
pub fn cell_to_d_cell_coor(coordinate: Coordinate) -> (r: Coordinate)
    requires
        coordinate.0 <= 126,
        coordinate.1 <= 62,
    ensures
        r == d_center(coordinate),
{
    let Coordinate(x, y) = coordinate;
    Coordinate(2 * x + 1, 2 * (2 * y + 1))
}

/// The nine cached screen positions of one logical cell, grid-relative:
/// centre, four corners, the three-glyph top and bottom edges, and the two
/// side midpoints.
#[derive(Debug)]
pub struct DCellCoordinates {
    pub center: Coordinate,
    pub top_left: Coordinate,
    pub top_middle: Vec<Coordinate>,
    pub top_right: Coordinate,
    pub bottom_left: Coordinate,
    pub bottom_middle: Vec<Coordinate>,
    pub bottom_right: Coordinate,
    pub left_middle: Coordinate,
    pub right_middle: Coordinate,
}

/// The cached screen layout of the cell at `c`: every position is the exact
/// projection formula, so two `DCellCoordinates` caches of distinct cells can
/// never disagree about a shared border position.
pub open spec fn d_coordinates_wf(dc: DCellCoordinates, c: Coordinate) -> bool {
    let r = c.0 as int;
    let k = c.1 as int;
    &&& dc.center == d_center(c)
    &&& dc.top_left == Coordinate((2 * r) as u8, (4 * k) as u8)
    &&& dc.top_middle@.len() == 3
    &&& (forall|j: int|
        0 <= j < 3 ==> #[trigger] dc.top_middle@[j] == Coordinate(
            (2 * r) as u8,
            (4 * k + 1 + j) as u8,
        ))
    &&& dc.top_right == Coordinate((2 * r) as u8, (4 * k + 4) as u8)
    &&& dc.bottom_left == Coordinate((2 * r + 2) as u8, (4 * k) as u8)
    &&& dc.bottom_middle@.len() == 3
    &&& (forall|j: int|
        0 <= j < 3 ==> #[trigger] dc.bottom_middle@[j] == Coordinate(
            (2 * r + 2) as u8,
            (4 * k + 1 + j) as u8,
        ))
    &&& dc.bottom_right == Coordinate((2 * r + 2) as u8, (4 * k + 4) as u8)
    &&& dc.left_middle == Coordinate((2 * r + 1) as u8, (4 * k) as u8)
    &&& dc.right_middle == Coordinate((2 * r + 1) as u8, (4 * k + 4) as u8)
}

/// The cached relations of one logical cell towards its four neighbours.
#[derive(Debug)]
pub struct DCellRelations {
    pub top: Vec<CellRelation>,
    pub left: Vec<CellRelation>,
    pub bottom: Vec<CellRelation>,
    pub right: Vec<CellRelation>,
}

/// The relations between `c` and its neighbour `dr` rows and `dc` columns
/// away: empty where the neighbour falls off the grid.
pub open spec fn neighbor_rel(c: Coordinate, dr: int, dc: int, n: u8, sub: u8) -> Seq<
    CellRelation,
> {
    let r = c.0 + dr;
    let k = c.1 + dc;
    if 0 <= r < n && 0 <= k < n {
        relations_seq(c, Coordinate(r as u8, k as u8), sub)
    } else {
        Seq::<CellRelation>::empty()
    }
}

/// The cached relation vectors of the cell at `c` hold exactly the relations
/// towards its four neighbours.
pub open spec fn d_relations_wf(dr: DCellRelations, c: Coordinate, n: u8, sub: u8) -> bool {
    &&& dr.top@ == neighbor_rel(c, -1, 0, n, sub)
    &&& dr.left@ == neighbor_rel(c, 0, -1, n, sub)
    &&& dr.bottom@ == neighbor_rel(c, 1, 0, n, sub)
    &&& dr.right@ == neighbor_rel(c, 0, 1, n, sub)
}

/// The per-cell render cache: screen layout, neighbour relations, and the
/// last-applied display colour.
#[derive(Debug)]
pub struct DCell {
    pub coordinates: DCellCoordinates,
    pub relations: DCellRelations,
    pub style: DisplayColor,
}

/// The whole cache of the cell at `c` is derived from the formulas; only the
/// style varies over the cache's lifetime.
pub open spec fn d_cell_wf(d: DCell, c: Coordinate, n: u8, sub: u8) -> bool {
    &&& d_coordinates_wf(d.coordinates, c)
    &&& d_relations_wf(d.relations, c, n, sub)
}

/// The render and navigation engine: the cursor position, a screen origin for
/// compositing, and a per-cell cache built once from an immutable grid whose
/// topology is assumed static for the cache's lifetime.
pub struct DGrid {
    pub origin: Coordinate,
    pub active: Coordinate,
    pub cells: Vec<Vec<DCell>>,
    pub size: u8,
    pub sub_size: u8,
}

impl DGrid {
    /// Both components of `coor` address a cell of this engine's grid.
    pub open spec fn in_bounds(self, coor: Coordinate) -> bool {
        coor.0 < self.size && coor.1 < self.size
    }

    /// The last-applied display colour of a cell.
    pub open spec fn style_at(self, c: Coordinate) -> DisplayColor {
        self.cells@[c.0 as int]@[c.1 as int].style
    }

    /// The engine's invariant: dimensions agree, every screen position fits a
    /// byte even after the origin is added, the cursor is on the grid, and
    /// every cached layout and relation vector equals its formula.
    pub open spec fn wf(self) -> bool {
        &&& 1 <= self.sub_size
        &&& self.size == self.sub_size * self.sub_size
        &&& self.size <= 63
        &&& self.origin.0 + 2 * self.size <= 255
        &&& self.origin.1 + 4 * self.size <= 255
        &&& self.in_bounds(self.active)
        &&& self.cells@.len() == self.size
        &&& (forall|r: int|
            0 <= r < self.size ==> (#[trigger] self.cells@[r])@.len() == self.size)
        &&& (forall|r: int, c: int|
            0 <= r < self.size && 0 <= c < self.size ==> d_cell_wf(
                #[trigger] self.cells@[r]@[c],
                Coordinate(r as u8, c as u8),
                self.size,
                self.sub_size,
            ))
    }

    /// The engine was built from this grid: same side lengths, and the grid
    /// itself is well-formed.
    pub open spec fn fits(self, grid: Grid) -> bool {
        &&& grid.wf()
        &&& self.size == grid.size
        &&& self.sub_size == grid.sub_size
    }

    /// Build the per-cell cache for one cell: its projected screen layout and
    /// its relations towards its four neighbours, with a blank style.
    fn build_d_cell(grid: &Grid, cell: &Cell) -> (d: DCell)
        requires
            grid.wf(),
            grid.size <= 63,
            grid.in_bounds(cell.coordinate),
        ensures
            d_cell_wf(d, cell.coordinate, grid.size, grid.sub_size),
            d.style == (DisplayColor { bg: None, color: None }),
    {
        let Coordinate(d_x, d_y) = cell_to_d_cell_coor(cell.coordinate);

        let center = Coordinate(d_x, d_y);

        let top_left = Coordinate(d_x - 1, d_y - 2);
        let mut top_middle: Vec<Coordinate> = Vec::new();
        top_middle.push(Coordinate(d_x - 1, d_y - 1));
        top_middle.push(Coordinate(d_x - 1, d_y));
        top_middle.push(Coordinate(d_x - 1, d_y + 1));
        let top_right = Coordinate(d_x - 1, d_y + 2);

        let bottom_left = Coordinate(d_x + 1, d_y - 2);
        let mut bottom_middle: Vec<Coordinate> = Vec::new();
        bottom_middle.push(Coordinate(d_x + 1, d_y - 1));
        bottom_middle.push(Coordinate(d_x + 1, d_y));
        bottom_middle.push(Coordinate(d_x + 1, d_y + 1));
        let bottom_right = Coordinate(d_x + 1, d_y + 2);

        let left_middle = Coordinate(d_x, d_y - 2);
        let right_middle = Coordinate(d_x, d_y + 2);

        let coordinates = DCellCoordinates {
            center,
            top_left,
            top_middle,
            top_right,
            bottom_left,
            bottom_middle,
            bottom_right,
            left_middle,
            right_middle,
        };

        let Coordinate(x, y) = cell.coordinate;
        let top = if x > 0 {
            grid.get_cells_relation(cell.coordinate, Coordinate(x - 1, y))
        } else {
            Vec::new()
        };
        let left = if y > 0 {
            grid.get_cells_relation(cell.coordinate, Coordinate(x, y - 1))
        } else {
            Vec::new()
        };
        let bottom = if x + 1 < grid.size {
            grid.get_cells_relation(cell.coordinate, Coordinate(x + 1, y))
        } else {
            Vec::new()
        };
        let right = if y + 1 < grid.size {
            grid.get_cells_relation(cell.coordinate, Coordinate(x, y + 1))
        } else {
            Vec::new()
        };

        DCell {
            coordinates,
            relations: DCellRelations { top, left, bottom, right },
            style: DisplayColor { bg: None, color: None },
        }
    }

    /// Build the engine for a grid, caching every cell's screen layout and
    /// neighbour relations, with the cursor at the origin cell.
    pub fn new(grid: &Grid, origin: Coordinate) -> (d: DGrid)
        requires
            grid.wf(),
            grid.size >= 1,
            grid.size <= 63,
            origin.0 + 2 * grid.size <= 255,
            origin.1 + 4 * grid.size <= 255,
        ensures
            d.wf(),
            d.fits(*grid),
            d.origin == origin,
            d.active == (Coordinate(0, 0)),
            forall|c: Coordinate|
                d.in_bounds(c) ==> #[trigger] d.style_at(c) == (DisplayColor {
                    bg: None,
                    color: None,
                }),
    {
        let mut cells: Vec<Vec<DCell>> = Vec::new();
        let mut x: u8 = 0;
        while x < grid.size
            invariant
                grid.wf(),
                grid.size <= 63,
                x <= grid.size,
                cells@.len() == x,
                forall|r: int|
                    0 <= r < x ==> (#[trigger] cells@[r])@.len() == grid.size,
                forall|r: int, c: int|
                    0 <= r < x && 0 <= c < grid.size ==> d_cell_wf(
                        #[trigger] cells@[r]@[c],
                        Coordinate(r as u8, c as u8),
                        grid.size,
                        grid.sub_size,
                    ) && cells@[r]@[c].style == (DisplayColor { bg: None, color: None }),
            decreases grid.size - x,
        {
            let mut d_cell_row: Vec<DCell> = Vec::new();
            let mut y: u8 = 0;
            while y < grid.size
                invariant
                    grid.wf(),
                    grid.size <= 63,
                    x < grid.size,
                    y <= grid.size,
                    d_cell_row@.len() == y,
                    forall|c: int|
                        0 <= c < y ==> d_cell_wf(
                            #[trigger] d_cell_row@[c],
                            Coordinate(x as u8, c as u8),
                            grid.size,
                            grid.sub_size,
                        ) && d_cell_row@[c].style == (DisplayColor { bg: None, color: None }),
                decreases grid.size - y,
            {
                let cell = grid.get_cell(Coordinate(x, y));
                d_cell_row.push(DGrid::build_d_cell(grid, cell));
                y = y + 1;
            }
            cells.push(d_cell_row);
            x = x + 1;
        }
        DGrid { origin, active: Coordinate(0, 0), cells, size: grid.size, sub_size: grid.sub_size }
    }

    /// The cached render data of one cell.
    fn d_cell(&self, coordinate: Coordinate) -> (d: &DCell)
        requires
            self.wf(),
            self.in_bounds(coordinate),
        ensures
            *d == self.cells@[coordinate.0 as int]@[coordinate.1 as int],
    {
        let Coordinate(row, col) = coordinate;
        &self.cells[row as usize][col as usize]
    }

    /// Replace the cached style of one cell, leaving everything else alone.
    fn set_d_style(&mut self, coordinate: Coordinate, d_style: DisplayColor)
        requires
            old(self).wf(),
            old(self).in_bounds(coordinate),
        ensures
            final(self).wf(),
            final(self).origin == old(self).origin,
            final(self).active == old(self).active,
            final(self).size == old(self).size,
            final(self).sub_size == old(self).sub_size,
            forall|c: Coordinate|
                final(self).in_bounds(c) ==> #[trigger] final(self).style_at(c) == if c
                    == coordinate {
                    d_style
                } else {
                    old(self).style_at(c)
                },
    {
        let Coordinate(row, col) = coordinate;
        let r = &mut self.cells[row as usize];
        let d = &mut r[col as usize];
        d.style = d_style;
        proof {
            assert forall|cc: Coordinate| self.in_bounds(cc) implies #[trigger] self.style_at(cc)
                == if cc == coordinate {
                d_style
            } else {
                old(self).style_at(cc)
            } by {
                if cc.0 == coordinate.0 && cc.1 != coordinate.1 {
                    assert(self.cells@[cc.0 as int]@[cc.1 as int] == old(
                        self,
                    ).cells@[cc.0 as int]@[cc.1 as int]);
                }
            }
            assert forall|r2: int, c2: int|
                0 <= r2 < self.size && 0 <= c2 < self.size implies d_cell_wf(
                #[trigger] self.cells@[r2]@[c2],
                Coordinate(r2 as u8, c2 as u8),
                self.size,
                self.sub_size,
            ) by {
                assert(d_cell_wf(
                    old(self).cells@[r2]@[c2],
                    Coordinate(r2 as u8, c2 as u8),
                    self.size,
                    self.sub_size,
                ));
            }
        }
    }

    /// The display text of a cell value, resolved through the value-label
    /// collaborator.
    fn d_value(&self, value_labels: &ValueLabels, value: Option<u8>) -> (text: String)
        ensures
            text@ == value_labels.label_of(value),
    {
        value_labels.get(value)
    }

    /// Paint the value glyph of one cell and update its cached style: the
    /// style becomes `resolve_style` of the previous one, everything else is
    /// untouched, and exactly one write is appended.
    fn render_cell_value(
        &mut self,
        grid: &Grid,
        highlight_enabled: bool,
        colors: &ColorsConfig,
        value_labels: &ValueLabels,
        coordinate: Coordinate,
        variant: RenderVariant,
        out: &mut Vec<ScreenWrite>,
    )
        requires
            old(self).wf(),
            old(self).fits(*grid),
            old(self).in_bounds(coordinate),
        ensures
            final(self).wf(),
            final(self).origin == old(self).origin,
            final(self).active == old(self).active,
            final(self).size == old(self).size,
            final(self).sub_size == old(self).sub_size,
            forall|c: Coordinate|
                final(self).in_bounds(c) ==> #[trigger] final(self).style_at(c) == (if c
                    == coordinate {
                    resolve_style(
                        old(self).style_at(coordinate),
                        grid.cell_at(coordinate).editable,
                        variant,
                        *colors,
                    )
                } else {
                    old(self).style_at(c)
                }),
            write_views(final(out)@) == write_views(old(out)@) + seq![
                value_write_view(
                    old(self).style_at(coordinate),
                    *grid,
                    highlight_enabled,
                    *colors,
                    *value_labels,
                    coordinate,
                    variant,
                    old(self).origin,
                ),
            ],
    {
        let cell = grid.get_cell(coordinate);
        let d_value = self.d_value(value_labels, cell.value);
        let d_cell = self.d_cell(coordinate);

        let value_coordinate = d_cell.coordinates.center;
        let mut d_style = d_cell.style;

        let effective = if !cell.editable {
            // a given keeps its fixed colour whatever the caller asked for
            RenderVariant::Fixed
        } else {
            variant
        };

        let color = colors.get(effective);

        if effective == RenderVariant::Default {
            d_style = color;
        } else {
            if let Some(c) = color.color {
                d_style.color = Some(c);
            }
            if let Some(c) = color.bg {
                d_style.bg = Some(c);
            }
        }

        self.set_d_style(coordinate, d_style);

        let at = value_coordinate.plus(self.origin);
        let style = if highlight_enabled {
            Some(d_style)
        } else {
            None
        };
        out.push(ScreenWrite { at, text: ScreenText::Label(d_value), style });
        proof {
            assert(write_views(out@) =~= write_views(old(out)@) + seq![
                value_write_view(
                    old(self).style_at(coordinate),
                    *grid,
                    highlight_enabled,
                    *colors,
                    *value_labels,
                    coordinate,
                    variant,
                    old(self).origin,
                ),
            ]);
        }
    }

    /// Repaint the cells affected by a value change at `coordinate` from
    /// `old_value` to `new_value`: clear the highlight of every cell still
    /// holding the old value, then highlight every other cell holding the new
    /// value — `Error` where it conflicts with `coordinate`, `SameValue`
    /// elsewhere.
    fn rerender_same_value_cells(
        &mut self,
        grid: &Grid,
        highlight_enabled: bool,
        colors: &ColorsConfig,
        value_labels: &ValueLabels,
        coordinate: Coordinate,
        old_value: Option<u8>,
        new_value: Option<u8>,
        out: &mut Vec<ScreenWrite>,
    )
        requires
            old(self).wf(),
            old(self).fits(*grid),
            old(self).in_bounds(coordinate),
        ensures
            final(self).wf(),
            final(self).origin == old(self).origin,
            final(self).active == old(self).active,
            final(self).size == old(self).size,
            final(self).sub_size == old(self).sub_size,
            forall|c: Coordinate|
                final(self).in_bounds(c) ==> #[trigger] final(self).style_at(c) == sv_style_at(
                    *old(self),
                    *grid,
                    *colors,
                    coordinate,
                    old_value,
                    new_value,
                    c,
                ),
            write_views(final(out)@) == write_views(old(out)@) + sv_write_views(
                *old(self),
                *grid,
                highlight_enabled,
                *colors,
                *value_labels,
                coordinate,
                old_value,
                new_value,
            ),
    {
        let ghost d0 = *old(self);
        let ghost out0 = old(out)@;
        let ghost clear_fn = sv_clear_write_fn(
            d0,
            *grid,
            highlight_enabled,
            *colors,
            *value_labels,
        );
        let ghost apply_fn = sv_apply_write_fn(
            d0,
            *grid,
            highlight_enabled,
            *colors,
            *value_labels,
            coordinate,
        );

        if old_value != new_value {
            // removing old styles
            if let Some(v) = old_value {
                proof {
                    grid.lemma_value_coors_exact(v);
                }
                let value_coors = grid.get_value_coors(v);
                let ghost lst = value_coors@;
                let mut i: usize = 0;
                while i < value_coors.len()
                    invariant
                        self.wf(),
                        self.fits(*grid),
                        self.origin == d0.origin,
                        self.active == d0.active,
                        self.size == d0.size,
                        self.sub_size == d0.sub_size,
                        d0.wf(),
                        d0.fits(*grid),
                        d0.in_bounds(coordinate),
                        i <= lst.len(),
                        value_coors@ == lst,
                        old_value == Some(v),
                        old_value != new_value,
                        lst == sv_clear_coors(*grid, old_value, new_value),
                        lst.no_duplicates(),
                        clear_fn == sv_clear_write_fn(
                            d0,
                            *grid,
                            highlight_enabled,
                            *colors,
                            *value_labels,
                        ),
                        forall|c: Coordinate| #[trigger]
                            lst.contains(c) ==> d0.in_bounds(c) && grid.value_at(c) == Some(v),
                        forall|c: Coordinate|
                            self.in_bounds(c) ==> #[trigger] self.style_at(c) == (if lst.take(
                                i as int,
                            ).contains(c) {
                                resolve_style(
                                    d0.style_at(c),
                                    grid.cell_at(c).editable,
                                    RenderVariant::Default,
                                    *colors,
                                )
                            } else {
                                d0.style_at(c)
                            }),
                        write_views(out@) == write_views(out0) + lst.take(i as int).map_values(
                            clear_fn,
                        ),
                    decreases lst.len() - i,
                {
                    let coor = value_coors[i];
                    proof {
                        assert(lst.contains(coor));
                        assert(!lst.take(i as int).contains(coor)) by {
                            if lst.take(i as int).contains(coor) {
                                let j = choose|j: int|
                                    0 <= j < i && lst.take(i as int)[j] == coor;
                                assert(lst[j] == coor && lst[i as int] == coor);
                            }
                        }
                    }
                    self.render_cell_value(
                        grid,
                        highlight_enabled,
                        colors,
                        value_labels,
                        coor,
                        RenderVariant::Default,
                        out,
                    );
                    proof {
                        assert(lst.take(i + 1) =~= lst.take(i as int).push(coor));
                        assert(lst.take(i + 1).map_values(clear_fn) =~= lst.take(
                            i as int,
                        ).map_values(clear_fn).push(clear_fn(coor)));
                        assert(write_views(out@) =~= write_views(out0) + lst.take(
                            i + 1,
                        ).map_values(clear_fn));
                        assert forall|c: Coordinate| self.in_bounds(c) implies #[trigger] self.style_at(
                            c,
                        ) == (if lst.take(i + 1).contains(c) {
                            resolve_style(
                                d0.style_at(c),
                                grid.cell_at(c).editable,
                                RenderVariant::Default,
                                *colors,
                            )
                        } else {
                            d0.style_at(c)
                        }) by {
                            lemma_take_push_contains(lst, i as int, c);
                        }
                    }
                    i = i + 1;
                }
                proof {
                    assert(lst.take(lst.len() as int) =~= lst);
                }
            }
        }
        proof {
            assert(sv_clear_coors(*grid, old_value, new_value).map_values(clear_fn).len()
                == sv_clear_coors(*grid, old_value, new_value).len());
            assert(write_views(out@) =~= write_views(out0) + sv_clear_coors(
                *grid,
                old_value,
                new_value,
            ).map_values(clear_fn));
        }

        // applying new styles
        let ghost mid = out@;
        if let Some(v) = new_value {
            proof {
                grid.lemma_value_coors_exact(v);
            }
            let value_coors = grid.get_value_coors(v);
            let ghost lst = value_coors@;
            let mut i: usize = 0;
            while i < value_coors.len()
                invariant
                    self.wf(),
                    self.fits(*grid),
                    self.origin == d0.origin,
                    self.active == d0.active,
                    self.size == d0.size,
                    self.sub_size == d0.sub_size,
                    d0.wf(),
                    d0.fits(*grid),
                    d0.in_bounds(coordinate),
                    i <= lst.len(),
                    value_coors@ == lst,
                    new_value == Some(v),
                    lst == grid.value_coors_of(v),
                    lst.no_duplicates(),
                    apply_fn == sv_apply_write_fn(
                        d0,
                        *grid,
                        highlight_enabled,
                        *colors,
                        *value_labels,
                        coordinate,
                    ),
                    forall|c: Coordinate| #[trigger]
                        lst.contains(c) ==> d0.in_bounds(c) && grid.value_at(c) == Some(v),
                    forall|c: Coordinate|
                        self.in_bounds(c) ==> #[trigger] self.style_at(c) == (if lst.take(
                            i as int,
                        ).contains(c) && c != coordinate {
                            resolve_style(
                                d0.style_at(c),
                                grid.cell_at(c).editable,
                                sv_variant(*grid, coordinate, c),
                                *colors,
                            )
                        } else if sv_clear_coors(*grid, old_value, new_value).contains(c) {
                            resolve_style(
                                d0.style_at(c),
                                grid.cell_at(c).editable,
                                RenderVariant::Default,
                                *colors,
                            )
                        } else {
                            d0.style_at(c)
                        }),
                    write_views(out@) == write_views(mid) + lst.take(i as int).filter(
                        not_at(coordinate),
                    ).map_values(apply_fn),
                decreases lst.len() - i,
            {
                let coor = value_coors[i];
                proof {
                    assert(lst.contains(coor));
                    assert(!lst.take(i as int).contains(coor)) by {
                        if lst.take(i as int).contains(coor) {
                            let j = choose|j: int| 0 <= j < i && lst.take(i as int)[j] == coor;
                            assert(lst[j] == coor && lst[i as int] == coor);
                        }
                    }
                    assert(!sv_clear_coors(*grid, old_value, new_value).contains(coor)) by {
                        if sv_clear_coors(*grid, old_value, new_value).contains(coor) {
                            let cc = sv_clear_coors(*grid, old_value, new_value);
                            let j = choose|j: int| 0 <= j < cc.len() && cc[j] == coor;
                            assert(grid.value_coors_of(old_value->0).contains(coor));
                            grid.lemma_value_coors_exact(old_value->0);
                        }
                    }
                }
                if coor != coordinate {
                    let relations = grid.get_cells_relation(coordinate, coor);

                    let variant = if relations.len() != 0 {
                        RenderVariant::Error
                    } else {
                        RenderVariant::SameValue
                    };
                    proof {
                        assert(variant == sv_variant(*grid, coordinate, coor));
                    }
                    self.render_cell_value(
                        grid,
                        highlight_enabled,
                        colors,
                        value_labels,
                        coor,
                        variant,
                        out,
                    );
                }
                proof {
                    let prefix = lst.take(i as int).filter(not_at(coordinate));
                    assert(lst.take(i + 1) =~= lst.take(i as int) + seq![coor]);
                    lemma_filter_push(lst.take(i as int), coor, not_at(coordinate));
                    assert(not_at(coordinate)(coor) == (coor != coordinate));
                    if coor != coordinate {
                        assert(lst.take(i + 1).filter(not_at(coordinate)) == prefix.push(coor));
                        assert(lst.take(i + 1).filter(not_at(coordinate)).map_values(apply_fn)
                            =~= prefix.map_values(apply_fn).push(apply_fn(coor)));
                        assert(write_views(out@) =~= write_views(mid) + lst.take(i + 1).filter(
                            not_at(coordinate),
                        ).map_values(apply_fn));
                    } else {
                        assert(lst.take(i + 1).filter(not_at(coordinate)) == prefix);
                    }
                    assert forall|c: Coordinate| self.in_bounds(c) implies #[trigger] self.style_at(
                        c,
                    ) == (if lst.take(i + 1).contains(c) && c != coordinate {
                        resolve_style(
                            d0.style_at(c),
                            grid.cell_at(c).editable,
                            sv_variant(*grid, coordinate, c),
                            *colors,
                        )
                    } else if sv_clear_coors(*grid, old_value, new_value).contains(c) {
                        resolve_style(
                            d0.style_at(c),
                            grid.cell_at(c).editable,
                            RenderVariant::Default,
                            *colors,
                        )
                    } else {
                        d0.style_at(c)
                    }) by {
                        lemma_take_push_contains(lst, i as int, c);
                    }
                }
                i = i + 1;
            }
            proof {
                assert(lst.take(lst.len() as int) =~= lst);
            }
        }
        proof {
            assert(write_views(out@) =~= write_views(out0) + sv_write_views(
                d0,
                *grid,
                highlight_enabled,
                *colors,
                *value_labels,
                coordinate,
                old_value,
                new_value,
            ));
            assert forall|c: Coordinate| self.in_bounds(c) implies #[trigger] self.style_at(c)
                == sv_style_at(d0, *grid, *colors, coordinate, old_value, new_value, c) by {
                if sv_clear_coors(*grid, old_value, new_value).contains(c) {
                    grid.lemma_value_coors_exact(old_value->0);
                }
                if new_value is Some {
                    grid.lemma_value_coors_exact(new_value->0);
                }
            }
        }
    }

    /// Repaint, with one fixed variant, every cell related to `base` (row,
    /// column and sub grid, deduplicated), except the currently active cell.
    fn repaint_related(
        &mut self,
        grid: &Grid,
        highlight_enabled: bool,
        colors: &ColorsConfig,
        value_labels: &ValueLabels,
        base: Coordinate,
        variant: RenderVariant,
        out: &mut Vec<ScreenWrite>,
    )
        requires
            old(self).wf(),
            old(self).fits(*grid),
            old(self).in_bounds(base),
        ensures
            final(self).wf(),
            final(self).origin == old(self).origin,
            final(self).active == old(self).active,
            final(self).size == old(self).size,
            final(self).sub_size == old(self).sub_size,
            forall|c: Coordinate|
                final(self).in_bounds(c) ==> #[trigger] final(self).style_at(c) == (if related(
                    *grid,
                    base,
                    c,
                ) && c != old(self).active {
                    resolve_style(
                        old(self).style_at(c),
                        grid.cell_at(c).editable,
                        variant,
                        *colors,
                    )
                } else {
                    old(self).style_at(c)
                }),
            write_views(final(out)@) == write_views(old(out)@) + dedup_prefix(
                related_concat(*grid, base),
                3 * grid.size,
            ).filter(not_at(old(self).active)).map_values(
                paint_write_fn(
                    *old(self),
                    *grid,
                    highlight_enabled,
                    *colors,
                    *value_labels,
                    variant,
                ),
            ),
    {
        let ghost d0 = *old(self);
        let ghost out0 = old(out)@;
        let ghost pf = paint_write_fn(
            d0,
            *grid,
            highlight_enabled,
            *colors,
            *value_labels,
            variant,
        );

        let col_coors = grid.get_col_coors(base);
        let row_coors = grid.get_row_coors(base);
        let sub_grid_coors = grid.get_sub_grid_coors(base);

        let mut coors = col_coors;
        let ghost col_seq = coors@;
        let mut i: usize = 0;
        while i < row_coors.len()
            invariant
                i <= row_coors@.len(),
                coors@ == col_seq + row_coors@.take(i as int),
            decreases row_coors@.len() - i,
        {
            coors.push(row_coors[i]);
            proof {
                assert(coors@ =~= col_seq + row_coors@.take(i + 1));
            }
            i = i + 1;
        }
        proof {
            assert(row_coors@.take(row_coors@.len() as int) =~= row_coors@);
        }
        let ghost colrow_seq = coors@;
        let mut i: usize = 0;
        while i < sub_grid_coors.len()
            invariant
                i <= sub_grid_coors@.len(),
                coors@ == colrow_seq + sub_grid_coors@.take(i as int),
            decreases sub_grid_coors@.len() - i,
        {
            coors.push(sub_grid_coors[i]);
            proof {
                assert(coors@ =~= colrow_seq + sub_grid_coors@.take(i + 1));
            }
            i = i + 1;
        }
        proof {
            assert(sub_grid_coors@.take(sub_grid_coors@.len() as int) =~= sub_grid_coors@);
            lemma_sub_grid_bounds(base, grid.sub_size);
            assert(coors@ =~= related_concat(*grid, base));
            lemma_related_concat(*grid, base);
        }

        let ghost cs = coors@;
        let active = self.active;
        let mut i: usize = 0;
        while i < coors.len()
            invariant
                self.wf(),
                self.fits(*grid),
                self.origin == d0.origin,
                self.active == d0.active,
                self.size == d0.size,
                self.sub_size == d0.sub_size,
                d0.wf(),
                d0.fits(*grid),
                d0.in_bounds(base),
                active == d0.active,
                i <= cs.len(),
                coors@ == cs,
                cs == related_concat(*grid, base),
                cs.len() == 3 * grid.size,
                forall|k: int| 0 <= k < cs.len() ==> related(*grid, base, #[trigger] cs[k]),
                forall|c: Coordinate| #[trigger] cs.contains(c) <==> related(*grid, base, c),
                pf == paint_write_fn(
                    d0,
                    *grid,
                    highlight_enabled,
                    *colors,
                    *value_labels,
                    variant,
                ),
                forall|c: Coordinate|
                    self.in_bounds(c) ==> #[trigger] self.style_at(c) == (if cs.take(
                        i as int,
                    ).contains(c) && c != active {
                        resolve_style(
                            d0.style_at(c),
                            grid.cell_at(c).editable,
                            variant,
                            *colors,
                        )
                    } else {
                        d0.style_at(c)
                    }),
                write_views(out@) == write_views(out0) + dedup_prefix(cs, i as int).filter(
                    not_at(active),
                ).map_values(pf),
            decreases cs.len() - i,
        {
            let coor = coors[i];
            let mut seen = false;
            let mut j: usize = 0;
            while j < i
                invariant
                    j <= i,
                    i < cs.len(),
                    coors@ == cs,
                    coor == cs[i as int],
                    seen == cs.take(j as int).contains(coor),
                decreases i - j,
            {
                if coors[j] == coor {
                    seen = true;
                }
                proof {
                    lemma_take_push_contains(cs, j as int, coor);
                }
                j = j + 1;
            }
            proof {
                let dp = dedup_prefix(cs, i as int);
                let dp1 = dedup_prefix(cs, i + 1);
                assert(dp1 == (if cs.take(i as int).contains(cs[i as int]) {
                    dp
                } else {
                    dp.push(cs[i as int])
                }));
            }
            if !seen {
                if coor != active {
                    proof {
                        assert(related(*grid, base, coor));
                        lemma_filter_push(dedup_prefix(cs, i as int), coor, not_at(active));
                        assert(dedup_prefix(cs, i as int) + seq![coor] =~= dedup_prefix(
                            cs,
                            i + 1,
                        ));
                    }
                    self.render_cell_value(
                        grid,
                        highlight_enabled,
                        colors,
                        value_labels,
                        coor,
                        variant,
                        out,
                    );
                    proof {
                        let fpre = dedup_prefix(cs, i as int).filter(not_at(active));
                        assert(dedup_prefix(cs, i + 1).filter(not_at(active)) == fpre.push(
                            coor,
                        ));
                        assert(dedup_prefix(cs, i + 1).filter(not_at(active)).map_values(pf)
                            =~= fpre.map_values(pf).push(pf(coor)));
                        assert(write_views(out@) =~= write_views(out0) + dedup_prefix(
                            cs,
                            i + 1,
                        ).filter(not_at(active)).map_values(pf));
                    }
                } else {
                    proof {
                        lemma_filter_push(dedup_prefix(cs, i as int), coor, not_at(active));
                        assert(dedup_prefix(cs, i as int) + seq![coor] =~= dedup_prefix(
                            cs,
                            i + 1,
                        ));
                        assert(dedup_prefix(cs, i + 1).filter(not_at(active)) == dedup_prefix(
                            cs,
                            i as int,
                        ).filter(not_at(active)));
                    }
                }
            }
            proof {
                assert forall|c: Coordinate| self.in_bounds(c) implies #[trigger] self.style_at(
                    c,
                ) == (if cs.take(i + 1).contains(c) && c != active {
                    resolve_style(
                        d0.style_at(c),
                        grid.cell_at(c).editable,
                        variant,
                        *colors,
                    )
                } else {
                    d0.style_at(c)
                }) by {
                    lemma_take_push_contains(cs, i as int, c);
                }
            }
            i = i + 1;
        }
        proof {
            assert(cs.take(cs.len() as int) =~= cs);
        }
    }

    /// Move the relation highlight: reset every cell related to the old
    /// cursor position to its baseline, then paint every cell related to the
    /// new one as directionally relative — the active cell itself excepted in
    /// both passes.
    fn rerender_relative_cells(
        &mut self,
        grid: &Grid,
        highlight_enabled: bool,
        colors: &ColorsConfig,
        value_labels: &ValueLabels,
        old_coor: Coordinate,
        new_coor: Coordinate,
        out: &mut Vec<ScreenWrite>,
    )
        requires
            old(self).wf(),
            old(self).fits(*grid),
            old(self).in_bounds(old_coor),
            old(self).in_bounds(new_coor),
        ensures
            final(self).wf(),
            final(self).origin == old(self).origin,
            final(self).active == old(self).active,
            final(self).size == old(self).size,
            final(self).sub_size == old(self).sub_size,
            forall|c: Coordinate|
                final(self).in_bounds(c) ==> #[trigger] final(self).style_at(c) == rel_style_at(
                    *old(self),
                    *grid,
                    *colors,
                    old_coor,
                    new_coor,
                    old(self).active,
                    c,
                ),
            write_views(final(out)@) == write_views(old(out)@) + rel_write_views(
                *old(self),
                *grid,
                highlight_enabled,
                *colors,
                *value_labels,
                old_coor,
                new_coor,
                old(self).active,
            ),
    {
        let ghost d0 = *old(self);

        // remove old styles
        self.repaint_related(
            grid,
            highlight_enabled,
            colors,
            value_labels,
            old_coor,
            RenderVariant::Default,
            out,
        );
        let ghost d1 = *self;

        // applying new styles
        self.repaint_related(
            grid,
            highlight_enabled,
            colors,
            value_labels,
            new_coor,
            RenderVariant::DirectionalRelative,
            out,
        );

        proof {
            let active = d0.active;
            assert forall|c: Coordinate| self.in_bounds(c) implies #[trigger] self.style_at(c)
                == rel_style_at(d0, *grid, *colors, old_coor, new_coor, active, c) by {}
            let painted = rel_painted(*grid, new_coor, active);
            lemma_related_concat(*grid, new_coor);
            lemma_dedup_contains_all(*grid, new_coor);
            assert(painted.map_values(
                paint_write_fn(
                    d1,
                    *grid,
                    highlight_enabled,
                    *colors,
                    *value_labels,
                    RenderVariant::DirectionalRelative,
                ),
            ) =~= painted.map_values(
                rel_apply_write_fn(
                    d0,
                    *grid,
                    highlight_enabled,
                    *colors,
                    *value_labels,
                    old_coor,
                    active,
                ),
            )) by {
                assert forall|k: int| 0 <= k < painted.len() implies paint_write_fn(
                    d1,
                    *grid,
                    highlight_enabled,
                    *colors,
                    *value_labels,
                    RenderVariant::DirectionalRelative,
                )(#[trigger] painted[k]) == rel_apply_write_fn(
                    d0,
                    *grid,
                    highlight_enabled,
                    *colors,
                    *value_labels,
                    old_coor,
                    active,
                )(painted[k]) by {
                    let c = painted[k];
                    lemma_rel_painted_member(*grid, new_coor, active, k);
                    assert(d1.style_at(c) == rel_mid_style(d0, *grid, *colors, old_coor, active, c));
                }
            }
            assert(write_views(out@) =~= write_views(old(out)@) + rel_write_views(
                d0,
                *grid,
                highlight_enabled,
                *colors,
                *value_labels,
                old_coor,
                new_coor,
                active,
            ));
        }
    }

    /// Move the cursor to `coordinate` and repaint incrementally: reset the
    /// cells related to the old position, highlight the cells related to the
    /// new one, then redo the same-value highlighting for the two cells'
    /// values. Returns the screen position the terminal cursor belongs at.
    pub fn navigate_to(
        &mut self,
        grid: &Grid,
        highlight_enabled: bool,
        colors: &ColorsConfig,
        value_labels: &ValueLabels,
        coordinate: Coordinate,
        out: &mut Vec<ScreenWrite>,
    ) -> (cursor: Coordinate)
        requires
            old(self).wf(),
            old(self).fits(*grid),
            old(self).in_bounds(coordinate),
        ensures
            final(self).wf(),
            final(self).origin == old(self).origin,
            final(self).size == old(self).size,
            final(self).sub_size == old(self).sub_size,
            final(self).active == coordinate,
            forall|c: Coordinate|
                final(self).in_bounds(c) ==> #[trigger] final(self).style_at(c) == nav_to_style_at(
                    *old(self),
                    *grid,
                    *colors,
                    old(self).active,
                    coordinate,
                    c,
                ),
            write_views(final(out)@) == write_views(old(out)@) + nav_to_write_views(
                *old(self),
                *grid,
                highlight_enabled,
                *colors,
                *value_labels,
                old(self).active,
                coordinate,
            ),
            cursor == spec_plus(d_center(coordinate), old(self).origin),
    {
        let ghost d0 = *old(self);
        let ghost out0 = old(out)@;
        let old_cell = grid.get_cell(self.active);
        self.active = coordinate;
        let new_cell = grid.get_cell(self.active);
        let ghost ds = *self;

        self.rerender_relative_cells(
            grid,
            highlight_enabled,
            colors,
            value_labels,
            old_cell.coordinate,
            coordinate,
            out,
        );
        let ghost dmid = *self;
        proof {
            assert(paint_write_fn(
                ds,
                *grid,
                highlight_enabled,
                *colors,
                *value_labels,
                RenderVariant::Default,
            ) =~= paint_write_fn(
                d0,
                *grid,
                highlight_enabled,
                *colors,
                *value_labels,
                RenderVariant::Default,
            ));
            assert(rel_apply_write_fn(
                ds,
                *grid,
                highlight_enabled,
                *colors,
                *value_labels,
                d0.active,
                coordinate,
            ) =~= rel_apply_write_fn(
                d0,
                *grid,
                highlight_enabled,
                *colors,
                *value_labels,
                d0.active,
                coordinate,
            ));
            assert(write_views(out@) == write_views(out0) + rel_write_views(
                d0,
                *grid,
                highlight_enabled,
                *colors,
                *value_labels,
                d0.active,
                coordinate,
                coordinate,
            ));
        }

        self.rerender_same_value_cells(
            grid,
            highlight_enabled,
            colors,
            value_labels,
            coordinate,
            old_cell.value,
            new_cell.value,
            out,
        );
        proof {
            let ov = grid.value_at(d0.active);
            let nv = grid.value_at(coordinate);
            let clears = sv_clear_coors(*grid, ov, nv);
            let applies = sv_apply_coors(*grid, coordinate, nv);
            if ov is Some {
                grid.lemma_value_coors_exact(ov->0);
            }
            if nv is Some {
                grid.lemma_value_coors_exact(nv->0);
            }
            assert(clears.map_values(
                sv_clear_write_fn(dmid, *grid, highlight_enabled, *colors, *value_labels),
            ) =~= clears.map_values(
                nav_sv_clear_write_fn(
                    d0,
                    *grid,
                    highlight_enabled,
                    *colors,
                    *value_labels,
                    d0.active,
                    coordinate,
                ),
            )) by {
                assert forall|k: int| 0 <= k < clears.len() implies sv_clear_write_fn(
                    dmid,
                    *grid,
                    highlight_enabled,
                    *colors,
                    *value_labels,
                )(#[trigger] clears[k]) == nav_sv_clear_write_fn(
                    d0,
                    *grid,
                    highlight_enabled,
                    *colors,
                    *value_labels,
                    d0.active,
                    coordinate,
                )(clears[k]) by {
                    assert(grid.in_bounds(clears[k]));
                }
            }
            assert(applies.map_values(
                sv_apply_write_fn(
                    dmid,
                    *grid,
                    highlight_enabled,
                    *colors,
                    *value_labels,
                    coordinate,
                ),
            ) =~= applies.map_values(
                nav_sv_apply_write_fn(
                    d0,
                    *grid,
                    highlight_enabled,
                    *colors,
                    *value_labels,
                    d0.active,
                    coordinate,
                ),
            )) by {
                assert forall|k: int| 0 <= k < applies.len() implies sv_apply_write_fn(
                    dmid,
                    *grid,
                    highlight_enabled,
                    *colors,
                    *value_labels,
                    coordinate,
                )(#[trigger] applies[k]) == nav_sv_apply_write_fn(
                    d0,
                    *grid,
                    highlight_enabled,
                    *colors,
                    *value_labels,
                    d0.active,
                    coordinate,
                )(applies[k]) by {
                    if nv is Some {
                        lemma_filter_subset(
                            grid.value_coors_of(nv->0),
                            not_at(coordinate),
                            k,
                        );
                        assert(grid.value_coors_of(nv->0).contains(applies[k]));
                        assert(grid.in_bounds(applies[k]));
                    }
                }
            }
            assert(write_views(out@) =~= write_views(out0) + nav_to_write_views(
                d0,
                *grid,
                highlight_enabled,
                *colors,
                *value_labels,
                d0.active,
                coordinate,
            ));
            assert forall|c: Coordinate| self.in_bounds(c) implies #[trigger] self.style_at(c)
                == nav_to_style_at(d0, *grid, *colors, d0.active, coordinate, c) by {}
        }

        cell_to_d_cell_coor(coordinate).plus(self.origin)
    }

    /// Repaint after a value change at `coordinate` from `old_value` to
    /// `new_value`: the changed cell's centre glyph returns to its baseline
    /// (picking up the new digit's label), then the same-value highlighting of
    /// both values is redone. The cursor does not move.
    pub fn set_value(
        &mut self,
        grid: &Grid,
        highlight_enabled: bool,
        colors: &ColorsConfig,
        value_labels: &ValueLabels,
        coordinate: Coordinate,
        old_value: Option<u8>,
        new_value: Option<u8>,
        out: &mut Vec<ScreenWrite>,
    )
        requires
            old(self).wf(),
            old(self).fits(*grid),
            old(self).in_bounds(coordinate),
        ensures
            final(self).wf(),
            final(self).origin == old(self).origin,
            final(self).active == old(self).active,
            final(self).size == old(self).size,
            final(self).sub_size == old(self).sub_size,
            forall|c: Coordinate|
                final(self).in_bounds(c) ==> #[trigger] final(self).style_at(c)
                    == set_value_style_at(
                    *old(self),
                    *grid,
                    *colors,
                    coordinate,
                    old_value,
                    new_value,
                    c,
                ),
            write_views(final(out)@) == write_views(old(out)@) + set_value_write_views(
                *old(self),
                *grid,
                highlight_enabled,
                *colors,
                *value_labels,
                coordinate,
                old_value,
                new_value,
            ),
    {
        let ghost d0 = *old(self);
        let ghost out0 = old(out)@;
        self.render_cell_value(
            grid,
            highlight_enabled,
            colors,
            value_labels,
            coordinate,
            RenderVariant::Default,
            out,
        );
        let ghost dmid = *self;
        self.rerender_same_value_cells(
            grid,
            highlight_enabled,
            colors,
            value_labels,
            coordinate,
            old_value,
            new_value,
            out,
        );
        proof {
            let clears = sv_clear_coors(*grid, old_value, new_value);
            let applies = sv_apply_coors(*grid, coordinate, new_value);
            if old_value is Some {
                grid.lemma_value_coors_exact(old_value->0);
            }
            if new_value is Some {
                grid.lemma_value_coors_exact(new_value->0);
            }
            assert(clears.map_values(
                sv_clear_write_fn(dmid, *grid, highlight_enabled, *colors, *value_labels),
            ) =~= clears.map_values(
                set_value_sv_clear_write_fn(
                    d0,
                    *grid,
                    highlight_enabled,
                    *colors,
                    *value_labels,
                    coordinate,
                ),
            )) by {
                assert forall|k: int| 0 <= k < clears.len() implies sv_clear_write_fn(
                    dmid,
                    *grid,
                    highlight_enabled,
                    *colors,
                    *value_labels,
                )(#[trigger] clears[k]) == set_value_sv_clear_write_fn(
                    d0,
                    *grid,
                    highlight_enabled,
                    *colors,
                    *value_labels,
                    coordinate,
                )(clears[k]) by {
                    assert(grid.in_bounds(clears[k]));
                }
            }
            assert(applies.map_values(
                sv_apply_write_fn(
                    dmid,
                    *grid,
                    highlight_enabled,
                    *colors,
                    *value_labels,
                    coordinate,
                ),
            ) =~= applies.map_values(
                set_value_sv_apply_write_fn(
                    d0,
                    *grid,
                    highlight_enabled,
                    *colors,
                    *value_labels,
                    coordinate,
                ),
            )) by {
                assert forall|k: int| 0 <= k < applies.len() implies sv_apply_write_fn(
                    dmid,
                    *grid,
                    highlight_enabled,
                    *colors,
                    *value_labels,
                    coordinate,
                )(#[trigger] applies[k]) == set_value_sv_apply_write_fn(
                    d0,
                    *grid,
                    highlight_enabled,
                    *colors,
                    *value_labels,
                    coordinate,
                )(applies[k]) by {
                    if new_value is Some {
                        lemma_filter_subset(
                            grid.value_coors_of(new_value->0),
                            not_at(coordinate),
                            k,
                        );
                        assert(grid.value_coors_of(new_value->0).contains(applies[k]));
                        assert(grid.in_bounds(applies[k]));
                    }
                }
            }
            assert(write_views(out@) =~= write_views(out0) + set_value_write_views(
                d0,
                *grid,
                highlight_enabled,
                *colors,
                *value_labels,
                coordinate,
                old_value,
                new_value,
            ));
            assert forall|c: Coordinate| self.in_bounds(c) implies #[trigger] self.style_at(c)
                == set_value_style_at(
                d0,
                *grid,
                *colors,
                coordinate,
                old_value,
                new_value,
                c,
            ) by {}
        }
    }

    /// Repaint everything that depends on the current cursor position, in
    /// place: the relation highlight around it and the same-value highlight of
    /// its value, as a cursor move from the active cell to itself.
    pub fn rerender(
        &mut self,
        grid: &Grid,
        highlight_enabled: bool,
        colors: &ColorsConfig,
        value_labels: &ValueLabels,
        out: &mut Vec<ScreenWrite>,
    )
        requires
            old(self).wf(),
            old(self).fits(*grid),
        ensures
            final(self).wf(),
            final(self).origin == old(self).origin,
            final(self).active == old(self).active,
            final(self).size == old(self).size,
            final(self).sub_size == old(self).sub_size,
            forall|c: Coordinate|
                final(self).in_bounds(c) ==> #[trigger] final(self).style_at(c) == nav_to_style_at(
                    *old(self),
                    *grid,
                    *colors,
                    old(self).active,
                    old(self).active,
                    c,
                ),
            write_views(final(out)@) == write_views(old(out)@) + nav_to_write_views(
                *old(self),
                *grid,
                highlight_enabled,
                *colors,
                *value_labels,
                old(self).active,
                old(self).active,
            ),
    {
        let ghost d0 = *old(self);
        let ghost out0 = old(out)@;
        let value = grid.get_cell(self.active).value;
        let active = self.active;
        self.rerender_relative_cells(
            grid,
            highlight_enabled,
            colors,
            value_labels,
            active,
            active,
            out,
        );
        let ghost dmid = *self;
        self.rerender_same_value_cells(
            grid,
            highlight_enabled,
            colors,
            value_labels,
            active,
            value,
            value,
            out,
        );
        proof {
            let nv = grid.value_at(d0.active);
            let applies = sv_apply_coors(*grid, d0.active, nv);
            if nv is Some {
                grid.lemma_value_coors_exact(nv->0);
            }
            assert(sv_clear_coors(*grid, nv, nv) =~= Seq::<Coordinate>::empty());
            assert(applies.map_values(
                sv_apply_write_fn(
                    dmid,
                    *grid,
                    highlight_enabled,
                    *colors,
                    *value_labels,
                    d0.active,
                ),
            ) =~= applies.map_values(
                nav_sv_apply_write_fn(
                    d0,
                    *grid,
                    highlight_enabled,
                    *colors,
                    *value_labels,
                    d0.active,
                    d0.active,
                ),
            )) by {
                assert forall|k: int| 0 <= k < applies.len() implies sv_apply_write_fn(
                    dmid,
                    *grid,
                    highlight_enabled,
                    *colors,
                    *value_labels,
                    d0.active,
                )(#[trigger] applies[k]) == nav_sv_apply_write_fn(
                    d0,
                    *grid,
                    highlight_enabled,
                    *colors,
                    *value_labels,
                    d0.active,
                    d0.active,
                )(applies[k]) by {
                    if nv is Some {
                        lemma_filter_subset(
                            grid.value_coors_of(nv->0),
                            not_at(d0.active),
                            k,
                        );
                        assert(grid.value_coors_of(nv->0).contains(applies[k]));
                        assert(grid.in_bounds(applies[k]));
                    }
                }
            }
            assert(write_views(out@) =~= write_views(out0) + nav_to_write_views(
                d0,
                *grid,
                highlight_enabled,
                *colors,
                *value_labels,
                d0.active,
                d0.active,
            ));
            assert forall|c: Coordinate| self.in_bounds(c) implies #[trigger] self.style_at(c)
                == nav_to_style_at(d0, *grid, *colors, d0.active, d0.active, c) by {}
        }
    }

    /// Decode a navigation request into a new cursor position — row and
    /// column steps wrap toroidally, group steps move a whole sub grid with
    /// carry into the row axis — and move there.
    pub fn navigate(
        &mut self,
        grid: &Grid,
        highlight_enabled: bool,
        colors: &ColorsConfig,
        value_labels: &ValueLabels,
        navigation: Navigation,
        out: &mut Vec<ScreenWrite>,
    ) -> (cursor: Coordinate)
        requires
            old(self).wf(),
            old(self).fits(*grid),
        ensures
            final(self).wf(),
            final(self).origin == old(self).origin,
            final(self).size == old(self).size,
            final(self).sub_size == old(self).sub_size,
            final(self).active == nav_target(
                old(self).active,
                navigation,
                old(self).size,
                old(self).sub_size,
            ),
            forall|c: Coordinate|
                final(self).in_bounds(c) ==> #[trigger] final(self).style_at(c) == nav_to_style_at(
                    *old(self),
                    *grid,
                    *colors,
                    old(self).active,
                    final(self).active,
                    c,
                ),
            write_views(final(out)@) == write_views(old(out)@) + nav_to_write_views(
                *old(self),
                *grid,
                highlight_enabled,
                *colors,
                *value_labels,
                old(self).active,
                final(self).active,
            ),
            cursor == spec_plus(d_center(final(self).active), old(self).origin),
    {
        let row = self.active.row();
        let col = self.active.col();

        let target: Coordinate = match navigation {
            Navigation::Row(step) => Coordinate(wrap_index(row, step, self.size), col),
            Navigation::Col(step) => Coordinate(row, wrap_index(col, step, self.size)),
            Navigation::Group(step) => {
                proof {
                    assert(self.sub_size as int <= 7) by (nonlinear_arith)
                        requires
                            self.sub_size as int * self.sub_size as int <= 63,
                            self.sub_size as int >= 0,
                    ;
                    assert(-2048 <= step as int * self.sub_size as int <= 2048)
                        by (nonlinear_arith)
                        requires
                            -128 <= step as int <= 127,
                            0 <= self.sub_size as int <= 15,
                    ;
                }
                let t: i32 = col as i32 + (step as i32) * (self.sub_size as i32);
                let (carry, new_col) = euclid_div_mod(t, self.size);
                proof {
                    assert(-40000 <= carry * self.sub_size as int <= 40000) by (nonlinear_arith)
                        requires
                            -2200 <= carry <= 2200,
                            0 <= self.sub_size as int <= 15,
                    ;
                }
                let rt: i32 = row as i32 + carry * (self.sub_size as i32);
                let (_, new_row) = euclid_div_mod(rt, self.size);
                Coordinate(new_row, new_col)
            },
        };
        self.navigate_to(grid, highlight_enabled, colors, value_labels, target, out)
    }

    /// Paint one cell completely: its twelve border glyphs from the cached
    /// neighbour relations, then its centre value with the same-value
    /// highlighting of its own value.
    fn render_cell(
        &mut self,
        grid: &Grid,
        highlight_enabled: bool,
        colors: &ColorsConfig,
        value_labels: &ValueLabels,
        coordinate: Coordinate,
        out: &mut Vec<ScreenWrite>,
    )
        requires
            old(self).wf(),
            old(self).fits(*grid),
            old(self).in_bounds(coordinate),
        ensures
            final(self).wf(),
            final(self).origin == old(self).origin,
            final(self).active == old(self).active,
            final(self).size == old(self).size,
            final(self).sub_size == old(self).sub_size,
            forall|c: Coordinate|
                final(self).in_bounds(c) ==> #[trigger] final(self).style_at(c)
                    == set_value_style_at(
                    *old(self),
                    *grid,
                    *colors,
                    coordinate,
                    None,
                    grid.value_at(coordinate),
                    c,
                ),
            write_views(final(out)@) == write_views(old(out)@) + border_write_views(
                *grid,
                coordinate,
                old(self).origin,
            ) + set_value_write_views(
                *old(self),
                *grid,
                highlight_enabled,
                *colors,
                *value_labels,
                coordinate,
                None,
                grid.value_at(coordinate),
            ),
    {
        let ghost out0 = old(out)@;
        let cell = grid.get_cell(coordinate);
        let d_cell = self.d_cell(coordinate);

        let top_exists = d_cell.relations.top.len() > 0;
        let top_sub_grid = has_sub_grid_relation(&d_cell.relations.top);

        let bottom_exists = d_cell.relations.bottom.len() > 0;
        let bottom_sub_grid = has_sub_grid_relation(&d_cell.relations.bottom);

        let left_exists = d_cell.relations.left.len() > 0;
        let left_sub_grid = has_sub_grid_relation(&d_cell.relations.left);

        let right_exists = d_cell.relations.right.len() > 0;
        let right_sub_grid = has_sub_grid_relation(&d_cell.relations.right);

        let at_top_left = d_cell.coordinates.top_left;
        let at_top_right = d_cell.coordinates.top_right;
        let at_bottom_left = d_cell.coordinates.bottom_left;
        let at_bottom_right = d_cell.coordinates.bottom_right;
        let at_left_middle = d_cell.coordinates.left_middle;
        let at_right_middle = d_cell.coordinates.right_middle;
        let at_top_middle_0 = d_cell.coordinates.top_middle[0];
        let at_top_middle_1 = d_cell.coordinates.top_middle[1];
        let at_top_middle_2 = d_cell.coordinates.top_middle[2];
        let at_bottom_middle_0 = d_cell.coordinates.bottom_middle[0];
        let at_bottom_middle_1 = d_cell.coordinates.bottom_middle[1];
        let at_bottom_middle_2 = d_cell.coordinates.bottom_middle[2];

        let top_left = build_corner_char(
            CornerRelative {
                vertical: top_exists,
                vertical_sub_grid: top_sub_grid,
                horizontal: left_exists,
                horizontal_sub_grid: left_sub_grid,
            },
            CornerPosition::TopLeft,
        );
        out.push(
            ScreenWrite {
                at: at_top_left.plus(self.origin),
                text: ScreenText::Glyph(top_left),
                style: None,
            },
        );
        let bottom_left = build_corner_char(
            CornerRelative {
                vertical: bottom_exists,
                vertical_sub_grid: bottom_sub_grid,
                horizontal: left_exists,
                horizontal_sub_grid: left_sub_grid,
            },
            CornerPosition::BottomLeft,
        );
        out.push(
            ScreenWrite {
                at: at_bottom_left.plus(self.origin),
                text: ScreenText::Glyph(bottom_left),
                style: None,
            },
        );
        let top_right = build_corner_char(
            CornerRelative {
                vertical: top_exists,
                vertical_sub_grid: top_sub_grid,
                horizontal: right_exists,
                horizontal_sub_grid: right_sub_grid,
            },
            CornerPosition::TopRight,
        );
        out.push(
            ScreenWrite {
                at: at_top_right.plus(self.origin),
                text: ScreenText::Glyph(top_right),
                style: None,
            },
        );
        let bottom_right = build_corner_char(
            CornerRelative {
                vertical: bottom_exists,
                vertical_sub_grid: bottom_sub_grid,
                horizontal: right_exists,
                horizontal_sub_grid: right_sub_grid,
            },
            CornerPosition::BottomRight,
        );
        out.push(
            ScreenWrite {
                at: at_bottom_right.plus(self.origin),
                text: ScreenText::Glyph(bottom_right),
                style: None,
            },
        );
        let left_middle = build_middle_char(
            MiddleRelative { relative: left_exists, relative_sub_grid: left_sub_grid },
            MiddlePosition::Horizontal,
        );
        out.push(
            ScreenWrite {
                at: at_left_middle.plus(self.origin),
                text: ScreenText::Glyph(left_middle),
                style: None,
            },
        );
        let right_middle = build_middle_char(
            MiddleRelative { relative: right_exists, relative_sub_grid: right_sub_grid },
            MiddlePosition::Horizontal,
        );
        out.push(
            ScreenWrite {
                at: at_right_middle.plus(self.origin),
                text: ScreenText::Glyph(right_middle),
                style: None,
            },
        );
        let top_middle = build_middle_char(
            MiddleRelative { relative: top_exists, relative_sub_grid: top_sub_grid },
            MiddlePosition::Vertical,
        );
        out.push(
            ScreenWrite {
                at: at_top_middle_0.plus(self.origin),
                text: ScreenText::Glyph(top_middle),
                style: None,
            },
        );
        out.push(
            ScreenWrite {
                at: at_top_middle_1.plus(self.origin),
                text: ScreenText::Glyph(top_middle),
                style: None,
            },
        );
        out.push(
            ScreenWrite {
                at: at_top_middle_2.plus(self.origin),
                text: ScreenText::Glyph(top_middle),
                style: None,
            },
        );
        let bottom_middle = build_middle_char(
            MiddleRelative { relative: bottom_exists, relative_sub_grid: bottom_sub_grid },
            MiddlePosition::Vertical,
        );
        out.push(
            ScreenWrite {
                at: at_bottom_middle_0.plus(self.origin),
                text: ScreenText::Glyph(bottom_middle),
                style: None,
            },
        );
        out.push(
            ScreenWrite {
                at: at_bottom_middle_1.plus(self.origin),
                text: ScreenText::Glyph(bottom_middle),
                style: None,
            },
        );
        out.push(
            ScreenWrite {
                at: at_bottom_middle_2.plus(self.origin),
                text: ScreenText::Glyph(bottom_middle),
                style: None,
            },
        );
        proof {
            assert(write_views(out@) =~= write_views(out0) + border_write_views(
                *grid,
                coordinate,
                self.origin,
            ));
        }

        self.set_value(
            grid,
            highlight_enabled,
            colors,
            value_labels,
            coordinate,
            None,
            cell.value,
            out,
        );
    }

    /// Paint the whole grid, cell by cell in row-major order: every border
    /// glyph and every centre value, with each cell's same-value highlighting
    /// re-derived as it is painted. This is the only full-screen operation.
    #[verifier::rlimit(100)]
    pub fn render(
        &mut self,
        grid: &Grid,
        highlight_enabled: bool,
        colors: &ColorsConfig,
        value_labels: &ValueLabels,
        out: &mut Vec<ScreenWrite>,
    )
        requires
            old(self).wf(),
            old(self).fits(*grid),
        ensures
            final(self).wf(),
            final(self).origin == old(self).origin,
            final(self).active == old(self).active,
            final(self).size == old(self).size,
            final(self).sub_size == old(self).sub_size,
            forall|c: Coordinate|
                final(self).in_bounds(c) ==> #[trigger] final(self).style_at(c) == mat_at(
                    render_mat_fold(
                        styles_mat_of(*old(self)),
                        *grid,
                        *colors,
                        grid.size as int * grid.size as int,
                    ),
                    c,
                ),
            write_views(final(out)@) == write_views(old(out)@) + render_views_fold(
                styles_mat_of(*old(self)),
                old(self).origin,
                *grid,
                highlight_enabled,
                *colors,
                *value_labels,
                grid.size as int * grid.size as int,
            ),
    {
        let ghost d0 = *old(self);
        let ghost out0 = old(out)@;
        let ghost mat0 = styles_mat_of(d0);
        let n = self.size;
        proof {
            assert(mat0.len() == n);
            assert forall|c: Coordinate| d0.in_bounds(c) implies #[trigger] d0.style_at(c)
                == mat_at(mat0, c) by {}
        }
        let mut x: u8 = 0;
        while x < n
            invariant
                self.wf(),
                self.fits(*grid),
                self.origin == d0.origin,
                self.active == d0.active,
                self.size == d0.size,
                self.sub_size == d0.sub_size,
                n == d0.size,
                d0.size == grid.size,
                x <= n,
                mat0 == styles_mat_of(d0),
                forall|c: Coordinate|
                    self.in_bounds(c) ==> #[trigger] self.style_at(c) == mat_at(
                        render_mat_fold(mat0, *grid, *colors, x as int * n as int),
                        c,
                    ),
                write_views(out@) == write_views(out0) + render_views_fold(
                    mat0,
                    d0.origin,
                    *grid,
                    highlight_enabled,
                    *colors,
                    *value_labels,
                    x as int * n as int,
                ),
            decreases n - x,
        {
            let mut y: u8 = 0;
            while y < n
                invariant
                    self.wf(),
                    self.fits(*grid),
                    self.origin == d0.origin,
                    self.active == d0.active,
                    self.size == d0.size,
                    self.sub_size == d0.sub_size,
                    n == d0.size,
                    d0.size == grid.size,
                    x < n,
                    y <= n,
                    mat0 == styles_mat_of(d0),
                    forall|c: Coordinate|
                        self.in_bounds(c) ==> #[trigger] self.style_at(c) == mat_at(
                            render_mat_fold(
                                mat0,
                                *grid,
                                *colors,
                                x as int * n as int + y as int,
                            ),
                            c,
                        ),
                    write_views(out@) == write_views(out0) + render_views_fold(
                        mat0,
                        d0.origin,
                        *grid,
                        highlight_enabled,
                        *colors,
                        *value_labels,
                        x as int * n as int + y as int,
                    ),
                decreases n - y,
            {
                let ghost k = x as int * n as int + y as int;
                let ghost d_k = *self;
                let ghost fold_k = render_mat_fold(mat0, *grid, *colors, k);
                proof {
                    assert(0 <= k && k + 1 <= n as int * n as int) by (nonlinear_arith)
                        requires
                            0 <= (x as int) < (n as int),
                            0 <= (y as int) < (n as int),
                            k == x as int * n as int + y as int,
                    ;
                    vstd::arithmetic::div_mod::lemma_fundamental_div_mod_converse(
                        k,
                        n as int,
                        x as int,
                        y as int,
                    );
                    assert(rm_coordinate(*grid, k) == Coordinate(x, y));
                }
                self.render_cell(
                    grid,
                    highlight_enabled,
                    colors,
                    value_labels,
                    Coordinate(x, y),
                    out,
                );
                proof {
                    let target = Coordinate(x, y);
                    let v = grid.value_at(target);
                    let fold_k1 = render_mat_fold(mat0, *grid, *colors, k + 1);
                    assert(fold_k1 == set_value_mat(fold_k, *grid, *colors, target, None, v));
                    assert forall|c: Coordinate| self.in_bounds(c) implies #[trigger] self.style_at(
                        c,
                    ) == mat_at(fold_k1, c) by {
                        assert(d_k.style_at(c) == mat_at(fold_k, c));
                        assert(Coordinate(c.0 as int as u8, c.1 as int as u8) == c);
                    }
                    let clears = sv_clear_coors(*grid, None, v);
                    let applies = sv_apply_coors(*grid, target, v);
                    if v is Some {
                        grid.lemma_value_coors_exact(v->0);
                    }
                    assert(clears =~= Seq::<Coordinate>::empty());
                    assert(applies.map_values(
                        set_value_sv_apply_write_fn(
                            d_k,
                            *grid,
                            highlight_enabled,
                            *colors,
                            *value_labels,
                            target,
                        ),
                    ) =~= applies.map_values(
                        sv_apply_mat_fn(
                            fold_k,
                            d0.origin,
                            *grid,
                            highlight_enabled,
                            *colors,
                            *value_labels,
                            target,
                        ),
                    )) by {
                        assert forall|j: int|
                            0 <= j < applies.len() implies set_value_sv_apply_write_fn(
                            d_k,
                            *grid,
                            highlight_enabled,
                            *colors,
                            *value_labels,
                            target,
                        )(#[trigger] applies[j]) == sv_apply_mat_fn(
                            fold_k,
                            d0.origin,
                            *grid,
                            highlight_enabled,
                            *colors,
                            *value_labels,
                            target,
                        )(applies[j]) by {
                            if v is Some {
                                lemma_filter_subset(
                                    grid.value_coors_of(v->0),
                                    not_at(target),
                                    j,
                                );
                                assert(grid.value_coors_of(v->0).contains(applies[j]));
                                assert(grid.in_bounds(applies[j]));
                            }
                        }
                    }
                    assert(clears.map_values(
                        set_value_sv_clear_write_fn(
                            d_k,
                            *grid,
                            highlight_enabled,
                            *colors,
                            *value_labels,
                            target,
                        ),
                    ) =~= clears.map_values(
                        sv_clear_mat_fn(
                            fold_k,
                            d0.origin,
                            *grid,
                            highlight_enabled,
                            *colors,
                            *value_labels,
                            target,
                        ),
                    ));
                    assert(set_value_write_views(
                        d_k,
                        *grid,
                        highlight_enabled,
                        *colors,
                        *value_labels,
                        target,
                        None,
                        v,
                    ) =~= set_value_views_mat(
                        fold_k,
                        d0.origin,
                        *grid,
                        highlight_enabled,
                        *colors,
                        *value_labels,
                        target,
                        None,
                        v,
                    ));
                    assert(write_views(out@) =~= write_views(out0) + render_views_fold(
                        mat0,
                        d0.origin,
                        *grid,
                        highlight_enabled,
                        *colors,
                        *value_labels,
                        k + 1,
                    ));
                }
                y = y + 1;
            }
            proof {
                assert(x as int * n as int + n as int == (x as int + 1) * n as int)
                    by (nonlinear_arith);
            }
            x = x + 1;
        }
    }
}

/// The style a paint leaves on a cell: a non-editable cell is always painted
/// as `Fixed` whatever the caller asked for; painting `Default` replaces the
/// cached style outright; any other effective variant overlays only the
/// channels it sets, keeping the rest of the cached style.
pub open spec fn resolve_style(
    prev: DisplayColor,
    editable: bool,
    variant: RenderVariant,
    colors: ColorsConfig,
) -> DisplayColor {
    let effective = if !editable {
        RenderVariant::Fixed
    } else {
        variant
    };
    let color = colors.spec_get(effective);
    if effective == RenderVariant::Default {
        color
    } else {
        DisplayColor {
            bg: if color.bg is Some {
                color.bg
            } else {
                prev.bg
            },
            color: if color.color is Some {
                color.color
            } else {
                prev.color
            },
        }
    }
}

/// The view of the single write that painting one cell value emits: the
/// cell's label at its centre position, styled with the resolved colour when
/// highlighting is enabled and unstyled otherwise.
pub open spec fn value_write_view(
    prev_style: DisplayColor,
    grid: Grid,
    highlight_enabled: bool,
    colors: ColorsConfig,
    value_labels: ValueLabels,
    coordinate: Coordinate,
    variant: RenderVariant,
    origin: Coordinate,
) -> WriteView {
    let cell = grid.cell_at(coordinate);
    let style = resolve_style(prev_style, cell.editable, variant, colors);
    WriteView {
        at: spec_plus(d_center(coordinate), origin),
        text: value_labels.label_of(cell.value),
        style: if highlight_enabled {
            Some(style)
        } else {
            None
        },
    }
}


/// The predicate that keeps every coordinate but `coordinate`.
pub open spec fn not_at(coordinate: Coordinate) -> spec_fn(Coordinate) -> bool {
    |c: Coordinate| c != coordinate
}

/// The view of the write repainting one coordinate's value glyph with a fixed
/// variant, from the styles cached in `d`.
pub open spec fn paint_write_fn(
    d: DGrid,
    grid: Grid,
    highlight_enabled: bool,
    colors: ColorsConfig,
    value_labels: ValueLabels,
    variant: RenderVariant,
) -> spec_fn(Coordinate) -> WriteView {
    |c: Coordinate|
        value_write_view(
            d.style_at(c),
            grid,
            highlight_enabled,
            colors,
            value_labels,
            c,
            variant,
            d.origin,
        )
}

/// The view of the clearing write for one coordinate: its value glyph painted
/// with the `Default` variant.
pub open spec fn sv_clear_write_fn(
    d: DGrid,
    grid: Grid,
    highlight_enabled: bool,
    colors: ColorsConfig,
    value_labels: ValueLabels,
) -> spec_fn(Coordinate) -> WriteView {
    paint_write_fn(d, grid, highlight_enabled, colors, value_labels, RenderVariant::Default)
}

/// The view of the highlighting write for one coordinate holding the new
/// value: `Error` where it conflicts with `coordinate`, `SameValue` elsewhere.
pub open spec fn sv_apply_write_fn(
    d: DGrid,
    grid: Grid,
    highlight_enabled: bool,
    colors: ColorsConfig,
    value_labels: ValueLabels,
    coordinate: Coordinate,
) -> spec_fn(Coordinate) -> WriteView {
    |c: Coordinate|
        value_write_view(
            d.style_at(c),
            grid,
            highlight_enabled,
            colors,
            value_labels,
            c,
            sv_variant(grid, coordinate, c),
            d.origin,
        )
}

/// The coordinates repainted to clear a previous value's highlight: every
/// cell still holding the old value, when the value actually changed.
pub open spec fn sv_clear_coors(
    grid: Grid,
    old_value: Option<u8>,
    new_value: Option<u8>,
) -> Seq<Coordinate> {
    if old_value != new_value && old_value is Some {
        grid.value_coors_of(old_value->0)
    } else {
        Seq::<Coordinate>::empty()
    }
}

/// The coordinates repainted with the new value's highlight: every other cell
/// holding the new value.
pub open spec fn sv_apply_coors(
    grid: Grid,
    coordinate: Coordinate,
    new_value: Option<u8>,
) -> Seq<Coordinate> {
    if new_value is Some {
        grid.value_coors_of(new_value->0).filter(not_at(coordinate))
    } else {
        Seq::<Coordinate>::empty()
    }
}

/// Conflict highlighting takes priority over same-value highlighting: a cell
/// holding the same value that also shares a row, column or sub grid with the
/// changed cell is painted `Error`, any other one `SameValue`.
pub open spec fn sv_variant(grid: Grid, coordinate: Coordinate, c: Coordinate) -> RenderVariant {
    if relations_seq(coordinate, c, grid.sub_size).len() != 0 {
        RenderVariant::Error
    } else {
        RenderVariant::SameValue
    }
}

/// The style left on cell `c` by the same-value repaint around a change of
/// `coordinate` from `old_value` to `new_value`, starting from the styles
/// cached in `d`.
pub open spec fn sv_style_at(
    d: DGrid,
    grid: Grid,
    colors: ColorsConfig,
    coordinate: Coordinate,
    old_value: Option<u8>,
    new_value: Option<u8>,
    c: Coordinate,
) -> DisplayColor {
    let s0 = d.style_at(c);
    let editable = grid.cell_at(c).editable;
    if old_value != new_value && old_value is Some && grid.value_at(c) == Some(old_value->0) {
        resolve_style(s0, editable, RenderVariant::Default, colors)
    } else if new_value is Some && grid.value_at(c) == Some(new_value->0) && c != coordinate {
        resolve_style(s0, editable, sv_variant(grid, coordinate, c), colors)
    } else {
        s0
    }
}

/// The writes the same-value repaint emits: first the clears, in reverse-index
/// order, then the highlights.
pub open spec fn sv_write_views(
    d: DGrid,
    grid: Grid,
    highlight_enabled: bool,
    colors: ColorsConfig,
    value_labels: ValueLabels,
    coordinate: Coordinate,
    old_value: Option<u8>,
    new_value: Option<u8>,
) -> Seq<WriteView> {
    sv_clear_coors(grid, old_value, new_value).map_values(
        sv_clear_write_fn(d, grid, highlight_enabled, colors, value_labels),
    ) + sv_apply_coors(grid, coordinate, new_value).map_values(
        sv_apply_write_fn(d, grid, highlight_enabled, colors, value_labels, coordinate),
    )
}


/// Extending a sequence by one element extends its filtered sequence by that
/// element exactly when the predicate keeps it.
proof fn lemma_filter_push(s: Seq<Coordinate>, x: Coordinate, pred: spec_fn(Coordinate) -> bool)
    ensures
        (s + seq![x]).filter(pred) == (if pred(x) {
            s.filter(pred).push(x)
        } else {
            s.filter(pred)
        }),
{
    reveal_with_fuel(Seq::filter, 2);
    assert((s + seq![x]).drop_last() =~= s);
    assert((s + seq![x]).last() == x);
    assert((s + seq![x]).len() == s.len() + 1);
}

/// What the one-longer prefix of a sequence contains: everything the shorter
/// prefix contains, and the newly included element.
proof fn lemma_take_push_contains(lst: Seq<Coordinate>, i: int, c: Coordinate)
    requires
        0 <= i < lst.len(),
    ensures
        lst.take(i + 1).contains(c) <==> (lst.take(i).contains(c) || c == lst[i]),
{
    assert(lst.take(i + 1) =~= lst.take(i).push(lst[i]));
    if lst.take(i).contains(c) {
        let j = choose|j: int| 0 <= j < i && lst.take(i)[j] == c;
        assert(lst.take(i + 1)[j] == c);
    }
    if c == lst[i] {
        assert(lst.take(i + 1)[i] == c);
    }
    if lst.take(i + 1).contains(c) {
        let j = choose|j: int| 0 <= j < i + 1 && #[trigger] lst.take(i + 1)[j] == c;
        if j < i {
            assert(lst.take(i)[j] == c);
        }
    }
}


/// Two in-bounds coordinates are related when they share a row, a column, or
/// a sub grid.
pub open spec fn related(grid: Grid, base: Coordinate, c: Coordinate) -> bool {
    grid.in_bounds(c) && (c.0 == base.0 || c.1 == base.1 || same_sub_grid(base, c, grid.sub_size))
}

/// The concatenation, in that order, of the column, row and sub grid
/// coordinate lists of `base`: exactly what the relative repaint walks.
pub open spec fn related_concat(grid: Grid, base: Coordinate) -> Seq<Coordinate> {
    Seq::new(grid.size as nat, |i: int| Coordinate(i as u8, base.1)) + Seq::new(
        grid.size as nat,
        |i: int| Coordinate(base.0, i as u8),
    ) + Seq::new(
        grid.size as nat,
        |i: int|
            sub_grid_member(sub_grid_index_of(base, grid.sub_size), i, grid.sub_size),
    )
}

/// The first `i` elements of `s` with every later duplicate dropped: the
/// order in which a walk over `s` first meets each coordinate.
pub open spec fn dedup_prefix(s: Seq<Coordinate>, i: int) -> Seq<Coordinate>
    decreases i,
{
    if i <= 0 {
        Seq::<Coordinate>::empty()
    } else {
        let prefix = dedup_prefix(s, i - 1);
        if s.take(i - 1).contains(s[i - 1]) {
            prefix
        } else {
            prefix.push(s[i - 1])
        }
    }
}

/// Deduplication keeps exactly the members of the prefix it walked.
proof fn lemma_dedup_contains(s: Seq<Coordinate>, i: int, c: Coordinate)
    requires
        0 <= i <= s.len(),
    ensures
        dedup_prefix(s, i).contains(c) <==> s.take(i).contains(c),
    decreases i,
{
    if i > 0 {
        lemma_dedup_contains(s, i - 1, c);
        lemma_take_push_contains(s, i - 1, c);
        let d1 = dedup_prefix(s, i - 1);
        let d = dedup_prefix(s, i);
        if d1.contains(c) {
            let j = choose|j: int| 0 <= j < d1.len() && #[trigger] d1[j] == c;
            assert(d[j] == c);
        }
        if c == s[i - 1] && !s.take(i - 1).contains(c) {
            assert(d[d.len() - 1] == c);
        }
        if d.contains(c) && !d1.contains(c) {
            let j = choose|j: int| 0 <= j < d.len() && #[trigger] d[j] == c;
            if j < d1.len() {
                assert(d1[j] == c);
            } else {
                assert(c == s[i - 1]);
            }
        }
    }
}

/// What the concatenated column, row and sub grid lists hold: exactly the
/// coordinates related to `base`.
proof fn lemma_related_concat(grid: Grid, base: Coordinate)
    requires
        grid.wf(),
        grid.in_bounds(base),
    ensures
        related_concat(grid, base).len() == 3 * grid.size,
        forall|k: int|
            0 <= k < 3 * grid.size ==> related(
                grid,
                base,
                #[trigger] related_concat(grid, base)[k],
            ),
        forall|c: Coordinate| #[trigger]
            related_concat(grid, base).contains(c) <==> related(grid, base, c),
{
    let cs = related_concat(grid, base);
    let n = grid.size as int;
    let sub = grid.sub_size;
    let g = sub_grid_index_of(base, sub);
    lemma_sub_grid_bounds(base, sub);
    lemma_member_roundtrip(base, sub);
    assert forall|k: int| 0 <= k < 3 * grid.size implies related(grid, base, #[trigger] cs[k]) by {
        if k < n {
            assert(cs[k] == Coordinate(k as u8, base.1));
        } else if k < 2 * n {
            assert(cs[k] == Coordinate(base.0, (k - n) as u8));
        } else {
            assert(cs[k] == sub_grid_member(g, k - 2 * n, sub));
            lemma_member_props(g, k - 2 * n, sub);
        }
    }
    assert forall|c: Coordinate| related(grid, base, c) implies #[trigger] cs.contains(c) by {
        if c.1 == base.1 {
            assert(cs[c.0 as int] == c);
        } else if c.0 == base.0 {
            assert(cs[n + c.1] == c);
        } else {
            lemma_sub_grid_bounds(c, sub);
            lemma_member_roundtrip(c, sub);
            assert(sub_grid_index_of(c, sub) == g);
            assert(cs[2 * n + sub_slot_of(c, sub)] == c);
        }
    }
}


/// The style cell `c` has after the clearing pass of the relative repaint
/// around a cursor move away from `old_coor`.
pub open spec fn rel_mid_style(
    d: DGrid,
    grid: Grid,
    colors: ColorsConfig,
    old_coor: Coordinate,
    active: Coordinate,
    c: Coordinate,
) -> DisplayColor {
    if related(grid, old_coor, c) && c != active {
        resolve_style(d.style_at(c), grid.cell_at(c).editable, RenderVariant::Default, colors)
    } else {
        d.style_at(c)
    }
}

/// The style cell `c` has after the whole relative repaint of a cursor move
/// from `old_coor` to `new_coor` with `active` the new cursor position.
pub open spec fn rel_style_at(
    d: DGrid,
    grid: Grid,
    colors: ColorsConfig,
    old_coor: Coordinate,
    new_coor: Coordinate,
    active: Coordinate,
    c: Coordinate,
) -> DisplayColor {
    let s1 = rel_mid_style(d, grid, colors, old_coor, active, c);
    if related(grid, new_coor, c) && c != active {
        resolve_style(s1, grid.cell_at(c).editable, RenderVariant::DirectionalRelative, colors)
    } else {
        s1
    }
}

/// The coordinates one relative pass paints, in walking order: the
/// deduplicated concatenation of the column, row and sub grid lists, without
/// the active cell.
pub open spec fn rel_painted(grid: Grid, base: Coordinate, active: Coordinate) -> Seq<Coordinate> {
    dedup_prefix(related_concat(grid, base), 3 * grid.size).filter(not_at(active))
}

/// The view of the highlighting write of the second relative pass for one
/// coordinate, over the styles the clearing pass left.
pub open spec fn rel_apply_write_fn(
    d: DGrid,
    grid: Grid,
    highlight_enabled: bool,
    colors: ColorsConfig,
    value_labels: ValueLabels,
    old_coor: Coordinate,
    active: Coordinate,
) -> spec_fn(Coordinate) -> WriteView {
    |c: Coordinate|
        value_write_view(
            rel_mid_style(d, grid, colors, old_coor, active, c),
            grid,
            highlight_enabled,
            colors,
            value_labels,
            c,
            RenderVariant::DirectionalRelative,
            d.origin,
        )
}

/// The writes the relative repaint emits: the clearing pass around the old
/// cursor position, then the highlighting pass around the new one.
pub open spec fn rel_write_views(
    d: DGrid,
    grid: Grid,
    highlight_enabled: bool,
    colors: ColorsConfig,
    value_labels: ValueLabels,
    old_coor: Coordinate,
    new_coor: Coordinate,
    active: Coordinate,
) -> Seq<WriteView> {
    rel_painted(grid, old_coor, active).map_values(
        paint_write_fn(d, grid, highlight_enabled, colors, value_labels, RenderVariant::Default),
    ) + rel_painted(grid, new_coor, active).map_values(
        rel_apply_write_fn(d, grid, highlight_enabled, colors, value_labels, old_coor, active),
    )
}

/// Every coordinate a relative pass paints is in bounds and related to its
/// base.
proof fn lemma_rel_painted_member(grid: Grid, base: Coordinate, active: Coordinate, k: int)
    requires
        grid.wf(),
        grid.in_bounds(base),
        0 <= k < rel_painted(grid, base, active).len(),
    ensures
        related(grid, base, rel_painted(grid, base, active)[k]),
        rel_painted(grid, base, active)[k] != active,
{
    let cs = related_concat(grid, base);
    let dp = dedup_prefix(cs, 3 * grid.size);
    let painted = rel_painted(grid, base, active);
    lemma_related_concat(grid, base);
    broadcast use vstd::seq_lib::group_filter_ensures;

    assert(not_at(active)(painted[k]));
    assert(dp.contains(painted[k])) by {
        assert(painted[k] == dp.filter(not_at(active))[k]);
        lemma_filter_subset(dp, not_at(active), k);
    }
    lemma_dedup_contains(cs, 3 * grid.size, painted[k]);
    assert(cs.take(3 * grid.size) =~= cs);
}

/// An element of a filtered sequence is an element of the sequence.
proof fn lemma_filter_subset(s: Seq<Coordinate>, pred: spec_fn(Coordinate) -> bool, k: int)
    requires
        0 <= k < s.filter(pred).len(),
    ensures
        s.contains(s.filter(pred)[k]),
    decreases s.len(),
{
    reveal_with_fuel(Seq::filter, 2);
    if s.len() > 0 {
        let sub = s.drop_last().filter(pred);
        if k < sub.len() {
            lemma_filter_subset(s.drop_last(), pred, k);
            let j = choose|j: int|
                0 <= j < s.drop_last().len() && #[trigger] s.drop_last()[j] == sub[k];
            assert(s[j] == s.filter(pred)[k]);
        } else {
            assert(s.filter(pred)[k] == s.last());
        }
    }
}

/// Deduplicating the whole related concatenation keeps exactly the related
/// coordinates.
proof fn lemma_dedup_contains_all(grid: Grid, base: Coordinate)
    requires
        grid.wf(),
        grid.in_bounds(base),
    ensures
        forall|c: Coordinate|
            #[trigger] dedup_prefix(related_concat(grid, base), 3 * grid.size).contains(c)
                <==> related(grid, base, c),
{
    let cs = related_concat(grid, base);
    lemma_related_concat(grid, base);
    assert forall|c: Coordinate|
        #[trigger] dedup_prefix(cs, 3 * grid.size).contains(c) <==> related(grid, base, c) by {
        lemma_dedup_contains(cs, 3 * grid.size, c);
        assert(cs.take(3 * grid.size) =~= cs);
    }
}



/// The style cell `c` has after a cursor move from `old_active` to
/// `new_active`: the relative repaint, then the same-value repaint of the two
/// cells' values.
pub open spec fn nav_to_style_at(
    d0: DGrid,
    grid: Grid,
    colors: ColorsConfig,
    old_active: Coordinate,
    new_active: Coordinate,
    c: Coordinate,
) -> DisplayColor {
    let s1 = rel_style_at(d0, grid, colors, old_active, new_active, new_active, c);
    let ov = grid.value_at(old_active);
    let nv = grid.value_at(new_active);
    let editable = grid.cell_at(c).editable;
    if ov != nv && ov is Some && grid.value_at(c) == Some(ov->0) {
        resolve_style(s1, editable, RenderVariant::Default, colors)
    } else if nv is Some && grid.value_at(c) == Some(nv->0) && c != new_active {
        resolve_style(s1, editable, sv_variant(grid, new_active, c), colors)
    } else {
        s1
    }
}

/// The view of a clearing write of the same-value repaint after a cursor
/// move, over the styles the relative repaint left.
pub open spec fn nav_sv_clear_write_fn(
    d0: DGrid,
    grid: Grid,
    highlight_enabled: bool,
    colors: ColorsConfig,
    value_labels: ValueLabels,
    old_active: Coordinate,
    new_active: Coordinate,
) -> spec_fn(Coordinate) -> WriteView {
    |c: Coordinate|
        value_write_view(
            rel_style_at(d0, grid, colors, old_active, new_active, new_active, c),
            grid,
            highlight_enabled,
            colors,
            value_labels,
            c,
            RenderVariant::Default,
            d0.origin,
        )
}

/// The view of a highlighting write of the same-value repaint after a cursor
/// move, over the styles the relative repaint left.
pub open spec fn nav_sv_apply_write_fn(
    d0: DGrid,
    grid: Grid,
    highlight_enabled: bool,
    colors: ColorsConfig,
    value_labels: ValueLabels,
    old_active: Coordinate,
    new_active: Coordinate,
) -> spec_fn(Coordinate) -> WriteView {
    |c: Coordinate|
        value_write_view(
            rel_style_at(d0, grid, colors, old_active, new_active, new_active, c),
            grid,
            highlight_enabled,
            colors,
            value_labels,
            c,
            sv_variant(grid, new_active, c),
            d0.origin,
        )
}

/// The writes a cursor move emits: the relative repaint around the old and
/// new positions, then the same-value repaint of the two cells' values.
pub open spec fn nav_to_write_views(
    d0: DGrid,
    grid: Grid,
    highlight_enabled: bool,
    colors: ColorsConfig,
    value_labels: ValueLabels,
    old_active: Coordinate,
    new_active: Coordinate,
) -> Seq<WriteView> {
    let ov = grid.value_at(old_active);
    let nv = grid.value_at(new_active);
    rel_write_views(
        d0,
        grid,
        highlight_enabled,
        colors,
        value_labels,
        old_active,
        new_active,
        new_active,
    ) + sv_clear_coors(grid, ov, nv).map_values(
        nav_sv_clear_write_fn(
            d0,
            grid,
            highlight_enabled,
            colors,
            value_labels,
            old_active,
            new_active,
        ),
    ) + sv_apply_coors(grid, new_active, nv).map_values(
        nav_sv_apply_write_fn(
            d0,
            grid,
            highlight_enabled,
            colors,
            value_labels,
            old_active,
            new_active,
        ),
    )
}


/// The style the centre repaint of `set_value` leaves on a cell whose
/// previous style is `s0`: only the changed cell is painted, with `Default`.
pub open spec fn set_value_mid_formula(
    s0: DisplayColor,
    grid: Grid,
    colors: ColorsConfig,
    coordinate: Coordinate,
    c: Coordinate,
) -> DisplayColor {
    if c == coordinate {
        resolve_style(s0, grid.cell_at(c).editable, RenderVariant::Default, colors)
    } else {
        s0
    }
}

/// The style a cell whose previous style is `s0` has after `set_value`: the
/// centre repaint of the changed cell, then the same-value repaint of the old
/// and new values.
pub open spec fn set_value_style_formula(
    s0: DisplayColor,
    grid: Grid,
    colors: ColorsConfig,
    coordinate: Coordinate,
    old_value: Option<u8>,
    new_value: Option<u8>,
    c: Coordinate,
) -> DisplayColor {
    let s1 = set_value_mid_formula(s0, grid, colors, coordinate, c);
    let editable = grid.cell_at(c).editable;
    if old_value != new_value && old_value is Some && grid.value_at(c) == Some(old_value->0) {
        resolve_style(s1, editable, RenderVariant::Default, colors)
    } else if new_value is Some && grid.value_at(c) == Some(new_value->0) && c != coordinate {
        resolve_style(s1, editable, sv_variant(grid, coordinate, c), colors)
    } else {
        s1
    }
}

/// The style the centre repaint of `set_value` leaves on cell `c` before the
/// same-value repaint runs.
pub open spec fn set_value_mid_style(
    d0: DGrid,
    grid: Grid,
    colors: ColorsConfig,
    coordinate: Coordinate,
    c: Coordinate,
) -> DisplayColor {
    set_value_mid_formula(d0.style_at(c), grid, colors, coordinate, c)
}

/// The style cell `c` has after `set_value`, starting from the styles cached
/// in `d0`.
pub open spec fn set_value_style_at(
    d0: DGrid,
    grid: Grid,
    colors: ColorsConfig,
    coordinate: Coordinate,
    old_value: Option<u8>,
    new_value: Option<u8>,
    c: Coordinate,
) -> DisplayColor {
    set_value_style_formula(d0.style_at(c), grid, colors, coordinate, old_value, new_value, c)
}

/// The view of a clearing write of the same-value repaint inside `set_value`,
/// over the styles the centre repaint left.
pub open spec fn set_value_sv_clear_write_fn(
    d0: DGrid,
    grid: Grid,
    highlight_enabled: bool,
    colors: ColorsConfig,
    value_labels: ValueLabels,
    coordinate: Coordinate,
) -> spec_fn(Coordinate) -> WriteView {
    |c: Coordinate|
        value_write_view(
            set_value_mid_style(d0, grid, colors, coordinate, c),
            grid,
            highlight_enabled,
            colors,
            value_labels,
            c,
            RenderVariant::Default,
            d0.origin,
        )
}

/// The view of a highlighting write of the same-value repaint inside
/// `set_value`, over the styles the centre repaint left.
pub open spec fn set_value_sv_apply_write_fn(
    d0: DGrid,
    grid: Grid,
    highlight_enabled: bool,
    colors: ColorsConfig,
    value_labels: ValueLabels,
    coordinate: Coordinate,
) -> spec_fn(Coordinate) -> WriteView {
    |c: Coordinate|
        value_write_view(
            set_value_mid_style(d0, grid, colors, coordinate, c),
            grid,
            highlight_enabled,
            colors,
            value_labels,
            c,
            sv_variant(grid, coordinate, c),
            d0.origin,
        )
}

/// The writes `set_value` emits: the changed cell's centre glyph repainted
/// with its baseline variant, then the same-value repaint.
pub open spec fn set_value_write_views(
    d0: DGrid,
    grid: Grid,
    highlight_enabled: bool,
    colors: ColorsConfig,
    value_labels: ValueLabels,
    coordinate: Coordinate,
    old_value: Option<u8>,
    new_value: Option<u8>,
) -> Seq<WriteView> {
    seq![
        value_write_view(
            d0.style_at(coordinate),
            grid,
            highlight_enabled,
            colors,
            value_labels,
            coordinate,
            RenderVariant::Default,
            d0.origin,
        ),
    ] + sv_clear_coors(grid, old_value, new_value).map_values(
        set_value_sv_clear_write_fn(
            d0,
            grid,
            highlight_enabled,
            colors,
            value_labels,
            coordinate,
        ),
    ) + sv_apply_coors(grid, coordinate, new_value).map_values(
        set_value_sv_apply_write_fn(
            d0,
            grid,
            highlight_enabled,
            colors,
            value_labels,
            coordinate,
        ),
    )
}

/// A toroidally wrapped index: where a step of `delta` from `x` lands on a
/// cycle of length `n`.
pub open spec fn wrap_target(x: u8, delta: i8, n: u8) -> u8 {
    ((x + delta) % (n as int)) as u8
}

/// Where a navigation request moves the cursor: row and column steps wrap
/// toroidally on their own axis; a group step moves by whole sub grids along
/// the column axis and carries into the row axis, both wrapping.
pub open spec fn nav_target(a: Coordinate, navigation: Navigation, n: u8, sub: u8) -> Coordinate {
    match navigation {
        Navigation::Row(step) => Coordinate(wrap_target(a.0, step, n), a.1),
        Navigation::Col(step) => Coordinate(a.0, wrap_target(a.1, step, n)),
        Navigation::Group(step) => {
            let t = a.1 + step * sub;
            let carry = t / (n as int);
            let new_col = t % (n as int);
            let new_row = (a.0 + carry * sub) % (n as int);
            Coordinate(new_row as u8, new_col as u8)
        },
    }
}

/// One toroidal step along one axis.
fn wrap_index(x: u8, delta: i8, n: u8) -> (r: u8)
    requires
        x < n,
        n >= 1,
    ensures
        r == wrap_target(x, delta, n),
        r < n,
{
    proof {
        vstd::arithmetic::div_mod::lemma_small_mod(x as nat, n as nat);
    }
    if delta >= 0 {
        let d = (delta as u8) % n;
        let r = ((x as u16 + d as u16) % (n as u16)) as u8;
        proof {
            vstd::arithmetic::div_mod::lemma_add_mod_noop(x as int, delta as int, n as int);
        }
        r
    } else {
        let m = (((-(delta as i16)) as u16) % (n as u16)) as u8;
        let r = (((x as u16 + n as u16) - m as u16) % (n as u16)) as u8;
        proof {
            vstd::arithmetic::div_mod::lemma_sub_mod_noop(x as int, -(delta as int), n as int);
            vstd::arithmetic::div_mod::lemma_mod_multiples_vanish(
                1,
                x as int - m as int,
                n as int,
            );
        }
        r
    }
}

/// Euclidean quotient and remainder of `t` by `n`: the remainder is always in
/// `0..n`, however `t` is signed.
fn euclid_div_mod(t: i32, n: u8) -> (qr: (i32, u8))
    requires
        n >= 1,
        -100000 <= t <= 100000,
    ensures
        qr.0 == t as int / n as int,
        qr.1 == t as int % n as int,
        qr.1 < n,
        t >= 0 ==> 0 <= qr.0 <= t,
        t < 0 ==> t <= qr.0 <= 0,
{
    if t >= 0 {
        let u = t as u32;
        let q = (u / (n as u32)) as i32;
        let r = (u % (n as u32)) as u8;
        proof {
            vstd::arithmetic::div_mod::lemma_fundamental_div_mod(t as int, n as int);
            vstd::arithmetic::div_mod::lemma_fundamental_div_mod_converse(
                t as int,
                n as int,
                u as int / n as int,
                u as int % n as int,
            );
        }
        (q, r)
    } else {
        let u = (-t) as u32;
        let q0 = u / (n as u32);
        let m = u % (n as u32);
        proof {
            vstd::arithmetic::div_mod::lemma_fundamental_div_mod(u as int, n as int);
        }
        if m == 0 {
            proof {
                assert(t as int == (-(q0 as int)) * (n as int) + 0) by (nonlinear_arith)
                    requires
                        u as int == n as int * (q0 as int) + (m as int),
                        m as int == 0,
                        t as int == -(u as int),
                ;
                vstd::arithmetic::div_mod::lemma_fundamental_div_mod_converse(
                    t as int,
                    n as int,
                    -(q0 as int),
                    0,
                );
                assert(q0 as int <= u as int) by (nonlinear_arith)
                    requires
                        u as int == n as int * (q0 as int) + (m as int),
                        m as int == 0,
                        n as int >= 1,
                        q0 as int >= 0,
                ;
            }
            (-(q0 as i32), 0)
        } else {
            proof {
                assert(t as int == (-(q0 as int) - 1) * (n as int) + (n as int - m as int))
                    by (nonlinear_arith)
                    requires
                        u as int == n as int * (q0 as int) + (m as int),
                        t as int == -(u as int),
                ;
                vstd::arithmetic::div_mod::lemma_fundamental_div_mod_converse(
                    t as int,
                    n as int,
                    -(q0 as int) - 1,
                    n as int - m as int,
                );
                assert(q0 as int + 1 <= u as int) by (nonlinear_arith)
                    requires
                        u as int == n as int * (q0 as int) + (m as int),
                        m as int >= 1,
                        n as int >= 1,
                        q0 as int >= 0,
                ;
            }
            (-(q0 as i32) - 1, (n as u32 - m) as u8)
        }
    }
}


/// An unstyled single-glyph write at a grid-relative position.
pub open spec fn border_write(at: Coordinate, glyph: char, origin: Coordinate) -> WriteView {
    WriteView { at: spec_plus(at, origin), text: seq![glyph], style: None }
}

/// The twelve border writes of one cell, in painting order: the four corners,
/// the two side midpoints, then the three-glyph top and bottom edges — each
/// glyph selected from the box-drawing tables by the cell's cached neighbour
/// relations.
pub open spec fn border_write_views(grid: Grid, coordinate: Coordinate, origin: Coordinate) -> Seq<
    WriteView,
> {
    let n = grid.size;
    let sub = grid.sub_size;
    let top = neighbor_rel(coordinate, -1, 0, n, sub);
    let left = neighbor_rel(coordinate, 0, -1, n, sub);
    let bottom = neighbor_rel(coordinate, 1, 0, n, sub);
    let right = neighbor_rel(coordinate, 0, 1, n, sub);
    let te = top.len() > 0;
    let ts = top.contains(CellRelation::SubGrid);
    let be = bottom.len() > 0;
    let bs = bottom.contains(CellRelation::SubGrid);
    let le = left.len() > 0;
    let ls = left.contains(CellRelation::SubGrid);
    let re = right.len() > 0;
    let rs = right.contains(CellRelation::SubGrid);
    let r = coordinate.0 as int;
    let k = coordinate.1 as int;
    let top_glyph = middle_glyph(
        middle_mask(MiddleRelative { relative: te, relative_sub_grid: ts }),
        MiddlePosition::Vertical,
    );
    let bottom_glyph = middle_glyph(
        middle_mask(MiddleRelative { relative: be, relative_sub_grid: bs }),
        MiddlePosition::Vertical,
    );
    seq![
        border_write(
            Coordinate((2 * r) as u8, (4 * k) as u8),
            corner_glyph(
                corner_mask(
                    CornerRelative {
                        vertical: te,
                        vertical_sub_grid: ts,
                        horizontal: le,
                        horizontal_sub_grid: ls,
                    },
                ),
                CornerPosition::TopLeft,
            ),
            origin,
        ),
        border_write(
            Coordinate((2 * r + 2) as u8, (4 * k) as u8),
            corner_glyph(
                corner_mask(
                    CornerRelative {
                        vertical: be,
                        vertical_sub_grid: bs,
                        horizontal: le,
                        horizontal_sub_grid: ls,
                    },
                ),
                CornerPosition::BottomLeft,
            ),
            origin,
        ),
        border_write(
            Coordinate((2 * r) as u8, (4 * k + 4) as u8),
            corner_glyph(
                corner_mask(
                    CornerRelative {
                        vertical: te,
                        vertical_sub_grid: ts,
                        horizontal: re,
                        horizontal_sub_grid: rs,
                    },
                ),
                CornerPosition::TopRight,
            ),
            origin,
        ),
        border_write(
            Coordinate((2 * r + 2) as u8, (4 * k + 4) as u8),
            corner_glyph(
                corner_mask(
                    CornerRelative {
                        vertical: be,
                        vertical_sub_grid: bs,
                        horizontal: re,
                        horizontal_sub_grid: rs,
                    },
                ),
                CornerPosition::BottomRight,
            ),
            origin,
        ),
        border_write(
            Coordinate((2 * r + 1) as u8, (4 * k) as u8),
            middle_glyph(
                middle_mask(MiddleRelative { relative: le, relative_sub_grid: ls }),
                MiddlePosition::Horizontal,
            ),
            origin,
        ),
        border_write(
            Coordinate((2 * r + 1) as u8, (4 * k + 4) as u8),
            middle_glyph(
                middle_mask(MiddleRelative { relative: re, relative_sub_grid: rs }),
                MiddlePosition::Horizontal,
            ),
            origin,
        ),
        border_write(Coordinate((2 * r) as u8, (4 * k + 1) as u8), top_glyph, origin),
        border_write(Coordinate((2 * r) as u8, (4 * k + 2) as u8), top_glyph, origin),
        border_write(Coordinate((2 * r) as u8, (4 * k + 3) as u8), top_glyph, origin),
        border_write(Coordinate((2 * r + 2) as u8, (4 * k + 1) as u8), bottom_glyph, origin),
        border_write(Coordinate((2 * r + 2) as u8, (4 * k + 2) as u8), bottom_glyph, origin),
        border_write(Coordinate((2 * r + 2) as u8, (4 * k + 3) as u8), bottom_glyph, origin),
    ]
}

/// Whether a relation vector reports sub grid membership.
fn has_sub_grid_relation(relations: &Vec<CellRelation>) -> (r: bool)
    ensures
        r == relations@.contains(CellRelation::SubGrid),
{
    let mut i: usize = 0;
    let mut found = false;
    while i < relations.len()
        invariant
            i <= relations@.len(),
            found == relations@.take(i as int).contains(CellRelation::SubGrid),
        decreases relations@.len() - i,
    {
        if matches!(relations[i], CellRelation::SubGrid) {
            found = true;
        }
        proof {
            assert(relations@.take(i + 1) =~= relations@.take(i as int).push(
                relations@[i as int],
            ));
            if relations@.take(i as int).contains(CellRelation::SubGrid) {
                let j = choose|j: int|
                    0 <= j < i && #[trigger] relations@.take(i as int)[j]
                        == CellRelation::SubGrid;
                assert(relations@.take(i + 1)[j] == CellRelation::SubGrid);
            }
            if relations@[i as int] == CellRelation::SubGrid {
                assert(relations@.take(i + 1)[i as int] == CellRelation::SubGrid);
            }
            if relations@.take(i + 1).contains(CellRelation::SubGrid)
                && !relations@.take(i as int).contains(CellRelation::SubGrid) {
                let j = choose|j: int|
                    0 <= j < i + 1 && #[trigger] relations@.take(i + 1)[j]
                        == CellRelation::SubGrid;
                if j < i {
                    assert(relations@.take(i as int)[j] == CellRelation::SubGrid);
                }
            }
        }
        i = i + 1;
    }
    proof {
        assert(relations@.take(relations@.len() as int) =~= relations@);
    }
    found
}

/// The style matrix cached in an engine, row-major.
pub open spec fn styles_mat_of(d: DGrid) -> Seq<Seq<DisplayColor>> {
    Seq::new(
        d.size as nat,
        |r: int| Seq::new(d.size as nat, |c: int| d.cells@[r]@[c].style),
    )
}

/// The entry of a style matrix at a coordinate.
pub open spec fn mat_at(mat: Seq<Seq<DisplayColor>>, c: Coordinate) -> DisplayColor {
    mat[c.0 as int][c.1 as int]
}

/// The style matrix after one `set_value`, pointwise.
pub open spec fn set_value_mat(
    mat: Seq<Seq<DisplayColor>>,
    grid: Grid,
    colors: ColorsConfig,
    coordinate: Coordinate,
    old_value: Option<u8>,
    new_value: Option<u8>,
) -> Seq<Seq<DisplayColor>> {
    Seq::new(
        grid.size as nat,
        |r: int|
            Seq::new(
                grid.size as nat,
                |k: int|
                    set_value_style_formula(
                        mat[r][k],
                        grid,
                        colors,
                        coordinate,
                        old_value,
                        new_value,
                        Coordinate(r as u8, k as u8),
                    ),
            ),
    )
}

/// The view of a clearing write of the same-value repaint inside `set_value`,
/// over a style matrix.
pub open spec fn sv_clear_mat_fn(
    mat: Seq<Seq<DisplayColor>>,
    origin: Coordinate,
    grid: Grid,
    highlight_enabled: bool,
    colors: ColorsConfig,
    value_labels: ValueLabels,
    coordinate: Coordinate,
) -> spec_fn(Coordinate) -> WriteView {
    |c: Coordinate|
        value_write_view(
            set_value_mid_formula(mat_at(mat, c), grid, colors, coordinate, c),
            grid,
            highlight_enabled,
            colors,
            value_labels,
            c,
            RenderVariant::Default,
            origin,
        )
}

/// The view of a highlighting write of the same-value repaint inside
/// `set_value`, over a style matrix.
pub open spec fn sv_apply_mat_fn(
    mat: Seq<Seq<DisplayColor>>,
    origin: Coordinate,
    grid: Grid,
    highlight_enabled: bool,
    colors: ColorsConfig,
    value_labels: ValueLabels,
    coordinate: Coordinate,
) -> spec_fn(Coordinate) -> WriteView {
    |c: Coordinate|
        value_write_view(
            set_value_mid_formula(mat_at(mat, c), grid, colors, coordinate, c),
            grid,
            highlight_enabled,
            colors,
            value_labels,
            c,
            sv_variant(grid, coordinate, c),
            origin,
        )
}

/// The writes one `set_value` emits, over a style matrix.
pub open spec fn set_value_views_mat(
    mat: Seq<Seq<DisplayColor>>,
    origin: Coordinate,
    grid: Grid,
    highlight_enabled: bool,
    colors: ColorsConfig,
    value_labels: ValueLabels,
    coordinate: Coordinate,
    old_value: Option<u8>,
    new_value: Option<u8>,
) -> Seq<WriteView> {
    seq![
        value_write_view(
            mat_at(mat, coordinate),
            grid,
            highlight_enabled,
            colors,
            value_labels,
            coordinate,
            RenderVariant::Default,
            origin,
        ),
    ] + sv_clear_coors(grid, old_value, new_value).map_values(
        sv_clear_mat_fn(
            mat,
            origin,
            grid,
            highlight_enabled,
            colors,
            value_labels,
            coordinate,
        ),
    ) + sv_apply_coors(grid, coordinate, new_value).map_values(
        sv_apply_mat_fn(
            mat,
            origin,
            grid,
            highlight_enabled,
            colors,
            value_labels,
            coordinate,
        ),
    )
}

/// The `k`-th cell of a row-major walk over the grid.
pub open spec fn rm_coordinate(grid: Grid, k: int) -> Coordinate {
    Coordinate((k / grid.size as int) as u8, (k % grid.size as int) as u8)
}

/// The style matrix after the full render has painted the first `k` cells in
/// row-major order: each step is one `set_value` of the cell's own value with
/// no previous value.
pub open spec fn render_mat_fold(
    mat0: Seq<Seq<DisplayColor>>,
    grid: Grid,
    colors: ColorsConfig,
    k: int,
) -> Seq<Seq<DisplayColor>>
    decreases k,
{
    if k <= 0 {
        mat0
    } else {
        let c = rm_coordinate(grid, k - 1);
        set_value_mat(
            render_mat_fold(mat0, grid, colors, k - 1),
            grid,
            colors,
            c,
            None,
            grid.value_at(c),
        )
    }
}

/// The writes the full render emits for its first `k` cells in row-major
/// order: each cell's twelve border glyphs, then its centre repaint with the
/// same-value highlighting of its own value.
pub open spec fn render_views_fold(
    mat0: Seq<Seq<DisplayColor>>,
    origin: Coordinate,
    grid: Grid,
    highlight_enabled: bool,
    colors: ColorsConfig,
    value_labels: ValueLabels,
    k: int,
) -> Seq<WriteView>
    decreases k,
{
    if k <= 0 {
        Seq::<WriteView>::empty()
    } else {
        let c = rm_coordinate(grid, k - 1);
        render_views_fold(
            mat0,
            origin,
            grid,
            highlight_enabled,
            colors,
            value_labels,
            k - 1,
        ) + border_write_views(grid, c, origin) + set_value_views_mat(
            render_mat_fold(mat0, grid, colors, k - 1),
            origin,
            grid,
            highlight_enabled,
            colors,
            value_labels,
            c,
            None,
            grid.value_at(c),
        )
    }
}


/// The writes of the coordinate guide for the first `k` indexes: for each
/// one-based index, its decimal label beside the column it heads and beside
/// the row it heads, in that order.
pub open spec fn guide_write_views(origin: Coordinate, k: int) -> Seq<WriteView>
    decreases k,
{
    if k <= 0 {
        Seq::<WriteView>::empty()
    } else {
        guide_write_views(origin, k - 1) + seq![
            WriteView {
                at: Coordinate(origin.0, (origin.1 + 4 * k) as u8),
                text: decimal_chars(k),
                style: None,
            },
            WriteView {
                at: Coordinate((origin.0 + 2 * k) as u8, origin.1),
                text: decimal_chars(k),
                style: None,
            },
        ]
    }
}

/// Write the one-based row and column indexes along the edges of a grid
/// rendered at `origin`, so a player can name cells.
pub fn render_coordinate_guide(origin: Coordinate, size: u8, out: &mut Vec<ScreenWrite>)
    requires
        origin.0 + 2 * size <= 255,
        origin.1 + 4 * size <= 255,
    ensures
        write_views(final(out)@) == write_views(old(out)@) + guide_write_views(
            origin,
            size as int,
        ),
{
    let ghost out0 = old(out)@;
    let mut i: u8 = 0;
    while i < size
        invariant
            i <= size,
            size <= 63,
            origin.0 + 2 * size <= 255,
            origin.1 + 4 * size <= 255,
            write_views(out@) == write_views(out0) + guide_write_views(origin, i as int),
        decreases size - i,
    {
        let label = i + 1;
        let ghost before = out@;
        // render col
        let col_at = origin.shift(None, Some(4 * (i + 1)));
        let w1 = ScreenWrite {
            at: col_at,
            text: ScreenText::Label(decimal_label(label)),
            style: None,
        };
        proof {
            assert(w1@ == (WriteView {
                at: Coordinate(origin.0, (origin.1 + 4 * (i + 1)) as u8),
                text: decimal_chars(i as int + 1),
                style: None,
            }));
        }
        out.push(w1);
        // render row
        let row_at = origin.shift(Some(2 * (i + 1)), None);
        let w2 = ScreenWrite {
            at: row_at,
            text: ScreenText::Label(decimal_label(label)),
            style: None,
        };
        proof {
            assert(w2@ == (WriteView {
                at: Coordinate((origin.0 + 2 * (i + 1)) as u8, origin.1),
                text: decimal_chars(i as int + 1),
                style: None,
            }));
        }
        out.push(w2);
        proof {
            assert(out@ == before.push(w1).push(w2));
        }
        proof {
            let prev = guide_write_views(origin, i as int);
            let next = guide_write_views(origin, i + 1);
            assert(next == prev + seq![
                WriteView {
                    at: Coordinate(origin.0, (origin.1 + 4 * (i + 1)) as u8),
                    text: decimal_chars(i as int + 1),
                    style: None,
                },
                WriteView {
                    at: Coordinate((origin.0 + 2 * (i + 1)) as u8, origin.1),
                    text: decimal_chars(i as int + 1),
                    style: None,
                },
            ]);
            assert(write_views(before.push(w1)) =~= write_views(before).push(w1@));
            assert(write_views(before.push(w1).push(w2)) =~= write_views(
                before.push(w1),
            ).push(w2@));
            assert(write_views(out@) =~= write_views(before).push(w1@).push(w2@));
            assert(write_views(out0) + next =~= write_views(out0) + prev + seq![w1@, w2@]);
            assert(write_views(out@) =~= write_views(out0) + next);
        }
        i = i + 1;
    }
}

/// One of the twelve border positions of the cell at `a`, grid-relative.
pub open spec fn is_border_position(a: Coordinate, p: Coordinate) -> bool {
    let r = a.0 as int;
    let k = a.1 as int;
    ||| p == Coordinate((2 * r) as u8, (4 * k) as u8)
    ||| p == Coordinate((2 * r) as u8, (4 * k + 1) as u8)
    ||| p == Coordinate((2 * r) as u8, (4 * k + 2) as u8)
    ||| p == Coordinate((2 * r) as u8, (4 * k + 3) as u8)
    ||| p == Coordinate((2 * r) as u8, (4 * k + 4) as u8)
    ||| p == Coordinate((2 * r + 1) as u8, (4 * k) as u8)
    ||| p == Coordinate((2 * r + 1) as u8, (4 * k + 4) as u8)
    ||| p == Coordinate((2 * r + 2) as u8, (4 * k) as u8)
    ||| p == Coordinate((2 * r + 2) as u8, (4 * k + 1) as u8)
    ||| p == Coordinate((2 * r + 2) as u8, (4 * k + 2) as u8)
    ||| p == Coordinate((2 * r + 2) as u8, (4 * k + 3) as u8)
    ||| p == Coordinate((2 * r + 2) as u8, (4 * k + 4) as u8)
}

/// The projection constants keep cells apart: two distinct logical cells have
/// distinct value-glyph positions, and no cell's border glyph ever lands on
/// any cell's value glyph, so repainting borders can never clobber a value.
pub proof fn lemma_projection_separates(a: Coordinate, b: Coordinate)
    requires
        a.0 <= 62,
        a.1 <= 62,
        b.0 <= 62,
        b.1 <= 62,
    ensures
        a != b ==> d_center(a) != d_center(b),
        !is_border_position(a, d_center(b)),
{
}



/// Conflict highlighting takes priority over same-value highlighting, for
/// every grid and every pair of distinct coordinates: during the same-value
/// repaint around a change at `coordinate`, another cell holding the new
/// value is painted `Error` exactly when it shares a row, a column or a sub
/// grid with the changed cell, and `SameValue` otherwise.
pub proof fn lemma_conflict_priority(grid: Grid, coordinate: Coordinate, c: Coordinate)
    requires
        c != coordinate,
    ensures
        sv_variant(grid, coordinate, c) == (if c.0 == coordinate.0 || c.1 == coordinate.1
            || same_sub_grid(coordinate, c, grid.sub_size) {
            RenderVariant::Error
        } else {
            RenderVariant::SameValue
        }),
{
    let relations = relations_seq(coordinate, c, grid.sub_size);
    if coordinate.0 == c.0 || coordinate.1 == c.1 || same_sub_grid(coordinate, c, grid.sub_size) {
        assert(relations.len() != 0);
    } else {
        assert(relations.len() == 0);
    }
}

} // verus!
