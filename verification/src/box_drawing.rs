use vstd::prelude::*;

verus! {

/// What surrounds a corner position: whether the neighbouring cells exist at
/// all, and whether they lie in the same sub grid.
#[derive(Debug, Copy, Clone)]
pub struct CornerRelative {
    /// vertical neighbour exists
    pub vertical: bool,
    /// vertical neighbour is in the same sub grid
    pub vertical_sub_grid: bool,
    /// horizontal neighbour exists
    pub horizontal: bool,
    /// horizontal neighbour is in the same sub grid
    pub horizontal_sub_grid: bool,
}

/// What lies across an edge midpoint: whether the neighbouring cell exists,
/// and whether it lies in the same sub grid.
#[derive(Debug, Copy, Clone)]
pub struct MiddleRelative {
    /// neighbouring cell exists
    pub relative: bool,
    /// neighbouring cell is in the same sub grid
    pub relative_sub_grid: bool,
}

/// Which of a cell's four corners is being drawn.
#[derive(Debug, Copy, Clone, PartialEq, Eq, Structural)]
pub enum CornerPosition {
    TopLeft,
    TopRight,
    BottomRight,
    BottomLeft,
}

/// Which edge-midpoint orientation is being drawn: a column separator
/// (`Horizontal` neighbour) or a row separator (`Vertical` neighbour).
#[derive(Debug, Copy, Clone, PartialEq, Eq, Structural)]
pub enum MiddlePosition {
    Vertical,
    Horizontal,
}

/// The 4-bit neighbour mask of a corner: bit 0 horizontal-exists, bit 1
/// horizontal-same-sub-grid, bit 2 vertical-exists, bit 3
/// vertical-same-sub-grid.
pub open spec fn corner_mask(relative: CornerRelative) -> u8 {
    ((if relative.horizontal {
        1int
    } else {
        0int
    }) + (if relative.horizontal_sub_grid {
        2int
    } else {
        0int
    }) + (if relative.vertical {
        4int
    } else {
        0int
    }) + (if relative.vertical_sub_grid {
        8int
    } else {
        0int
    })) as u8
}

/// The 2-bit neighbour mask of an edge midpoint: bit 0 neighbour-exists,
/// bit 1 neighbour-same-sub-grid.
pub open spec fn middle_mask(relative: MiddleRelative) -> u8 {
    ((if relative.relative {
        1int
    } else {
        0int
    }) + (if relative.relative_sub_grid {
        2int
    } else {
        0int
    })) as u8
}

/// The fixed corner glyph table, keyed by the neighbour mask and the corner
/// being drawn. Only the masks a real grid can produce select a box-drawing
/// glyph (a sub-grid bit can only be set together with its exists bit); every
/// other mask marks a defect and renders a visible placeholder instead of
/// stopping the render loop.
pub open spec fn corner_glyph(mask: u8, position: CornerPosition) -> char {
    if mask == 0x0 {
        match position {
            CornerPosition::TopLeft => '┏',
            CornerPosition::TopRight => '┓',
            CornerPosition::BottomRight => '┛',
            CornerPosition::BottomLeft => '┗',
        }
    } else if mask == 0x1 {
        match position {
            CornerPosition::TopLeft | CornerPosition::TopRight => '┳',
            CornerPosition::BottomRight | CornerPosition::BottomLeft => '┻',
        }
    } else if mask == 0x3 {
        match position {
            CornerPosition::TopLeft | CornerPosition::TopRight => '┯',
            CornerPosition::BottomRight | CornerPosition::BottomLeft => '┷',
        }
    } else if mask == 0x4 {
        match position {
            CornerPosition::TopLeft | CornerPosition::BottomLeft => '┣',
            CornerPosition::TopRight | CornerPosition::BottomRight => '┫',
        }
    } else if mask == 0xc {
        match position {
            CornerPosition::TopLeft | CornerPosition::BottomLeft => '┠',
            CornerPosition::TopRight | CornerPosition::BottomRight => '┨',
        }
    } else if mask == 0x5 {
        '╋'
    } else if mask == 0x7 {
        '┿'
    } else if mask == 0xd {
        '╂'
    } else if mask == 0xf {
        '┼'
    } else {
        '?'
    }
}

/// The fixed edge-midpoint glyph table: a thick line towards a missing or
/// foreign-sub-grid neighbour, a thin line inside a sub grid, and a visible
/// placeholder for the one impossible mask.
pub open spec fn middle_glyph(mask: u8, position: MiddlePosition) -> char {
    if mask == 0x0 || mask == 0x1 {
        match position {
            MiddlePosition::Horizontal => '┃',
            MiddlePosition::Vertical => '━',
        }
    } else if mask == 0x3 {
        match position {
            MiddlePosition::Horizontal => '│',
            MiddlePosition::Vertical => '─',
        }
    } else {
        '?'
    }
}

fn build_corner_byte(relative: CornerRelative) -> (byte: u8)
    ensures
        byte == corner_mask(relative),
{
    let mut byte: u8 = 0;
    if relative.horizontal {
        byte = byte + 1;
    }
    if relative.horizontal_sub_grid {
        byte = byte + 2;
    }
    if relative.vertical {
        byte = byte + 4;
    }
    if relative.vertical_sub_grid {
        byte = byte + 8;
    }
    byte
}

fn build_middle_byte(relative: MiddleRelative) -> (byte: u8)
    ensures
        byte == middle_mask(relative),
{
    let mut byte: u8 = 0;
    if relative.relative {
        byte = byte + 1;
    }
    if relative.relative_sub_grid {
        byte = byte + 2;
    }
    byte
}

/// The box-drawing character for one corner of a cell, selected by the
/// neighbour mask from the fixed glyph table.
pub fn build_corner_char(relative: CornerRelative, position: CornerPosition) -> (glyph: char)
    ensures
        glyph == corner_glyph(corner_mask(relative), position),
{
    let byte = build_corner_byte(relative);

    if byte == 0x0 {
        match position {
            CornerPosition::TopLeft => '┏',
            CornerPosition::TopRight => '┓',
            CornerPosition::BottomRight => '┛',
            CornerPosition::BottomLeft => '┗',
        }
    } else if byte == 0x1 {
        match position {
            CornerPosition::TopLeft | CornerPosition::TopRight => '┳',
            CornerPosition::BottomRight | CornerPosition::BottomLeft => '┻',
        }
    } else if byte == 0x3 {
        match position {
            CornerPosition::TopLeft | CornerPosition::TopRight => '┯',
            CornerPosition::BottomRight | CornerPosition::BottomLeft => '┷',
        }
    } else if byte == 0x4 {
        match position {
            CornerPosition::TopLeft | CornerPosition::BottomLeft => '┣',
            CornerPosition::TopRight | CornerPosition::BottomRight => '┫',
        }
    } else if byte == 0xc {
        match position {
            CornerPosition::TopLeft | CornerPosition::BottomLeft => '┠',
            CornerPosition::TopRight | CornerPosition::BottomRight => '┨',
        }
    } else if byte == 0x5 {
        '╋'
    } else if byte == 0x7 {
        '┿'
    } else if byte == 0xd {
        '╂'
    } else if byte == 0xf {
        '┼'
    } else {
        '?'
    }
}

/// The box-drawing character for one edge midpoint of a cell, selected by the
/// neighbour mask from the fixed glyph table.
pub fn build_middle_char(relative: MiddleRelative, position: MiddlePosition) -> (glyph: char)
    ensures
        glyph == middle_glyph(middle_mask(relative), position),
{
    let byte = build_middle_byte(relative);

    if byte == 0x0 || byte == 0x1 {
        match position {
            MiddlePosition::Horizontal => '┃',
            MiddlePosition::Vertical => '━',
        }
    } else if byte == 0x3 {
        match position {
            MiddlePosition::Horizontal => '│',
            MiddlePosition::Vertical => '─',
        }
    } else {
        '?'
    }
}

} // verus!
