use sudokube::{
    build_corner_char, build_middle_char, CornerPosition, CornerRelative, MiddlePosition,
    MiddleRelative,
};

fn corner(mask: u8) -> CornerRelative {
    CornerRelative {
        horizontal: mask & 1 != 0,
        horizontal_sub_grid: mask & 2 != 0,
        vertical: mask & 4 != 0,
        vertical_sub_grid: mask & 8 != 0,
    }
}

#[test]
fn isolated_corners_are_heavy_corners() {
    assert_eq!(build_corner_char(corner(0b0000), CornerPosition::TopLeft), '┏');
    assert_eq!(build_corner_char(corner(0b0000), CornerPosition::TopRight), '┓');
    assert_eq!(build_corner_char(corner(0b0000), CornerPosition::BottomRight), '┛');
    assert_eq!(build_corner_char(corner(0b0000), CornerPosition::BottomLeft), '┗');
}

#[test]
fn horizontal_neighbour_only_makes_a_tee() {
    // mask 0b0001: a horizontal neighbour exists outside the sub grid
    assert_eq!(build_corner_char(corner(0b0001), CornerPosition::TopLeft), '┳');
    assert_eq!(build_corner_char(corner(0b0001), CornerPosition::TopRight), '┳');
    assert_eq!(build_corner_char(corner(0b0001), CornerPosition::BottomLeft), '┻');
    assert_eq!(build_corner_char(corner(0b0001), CornerPosition::BottomRight), '┻');
}

#[test]
fn horizontal_neighbour_in_same_sub_grid_makes_a_light_tee() {
    assert_eq!(build_corner_char(corner(0b0011), CornerPosition::TopLeft), '┯');
    assert_eq!(build_corner_char(corner(0b0011), CornerPosition::BottomRight), '┷');
}

#[test]
fn vertical_neighbour_masks() {
    assert_eq!(build_corner_char(corner(0b0100), CornerPosition::TopLeft), '┣');
    assert_eq!(build_corner_char(corner(0b0100), CornerPosition::BottomRight), '┫');
    assert_eq!(build_corner_char(corner(0b1100), CornerPosition::BottomLeft), '┠');
    assert_eq!(build_corner_char(corner(0b1100), CornerPosition::TopRight), '┨');
}

#[test]
fn interior_crossing_masks() {
    assert_eq!(build_corner_char(corner(0b0101), CornerPosition::TopLeft), '╋');
    assert_eq!(build_corner_char(corner(0b0111), CornerPosition::BottomRight), '┿');
    assert_eq!(build_corner_char(corner(0b1101), CornerPosition::TopRight), '╂');
    assert_eq!(build_corner_char(corner(0b1111), CornerPosition::BottomLeft), '┼');
}

#[test]
fn impossible_corner_masks_render_a_placeholder() {
    // a sub-grid bit set without its exists bit cannot come from a real grid
    assert_eq!(build_corner_char(corner(0b0010), CornerPosition::TopLeft), '?');
    assert_eq!(build_corner_char(corner(0b1000), CornerPosition::BottomRight), '?');
    assert_eq!(build_corner_char(corner(0b1010), CornerPosition::TopRight), '?');
    assert_eq!(build_corner_char(corner(0b0110), CornerPosition::BottomLeft), '?');
}

#[test]
fn edge_midpoints_pick_heavy_or_light_lines() {
    let missing = MiddleRelative { relative: false, relative_sub_grid: false };
    let foreign = MiddleRelative { relative: true, relative_sub_grid: false };
    let inside = MiddleRelative { relative: true, relative_sub_grid: true };

    assert_eq!(build_middle_char(missing, MiddlePosition::Horizontal), '┃');
    assert_eq!(build_middle_char(missing, MiddlePosition::Vertical), '━');
    assert_eq!(build_middle_char(foreign, MiddlePosition::Horizontal), '┃');
    assert_eq!(build_middle_char(foreign, MiddlePosition::Vertical), '━');
    assert_eq!(build_middle_char(inside, MiddlePosition::Horizontal), '│');
    assert_eq!(build_middle_char(inside, MiddlePosition::Vertical), '─');
}

#[test]
fn impossible_edge_mask_renders_a_placeholder() {
    let broken = MiddleRelative { relative: false, relative_sub_grid: true };
    assert_eq!(build_middle_char(broken, MiddlePosition::Horizontal), '?');
    assert_eq!(build_middle_char(broken, MiddlePosition::Vertical), '?');
}
