use crate::coordinate::Coordinate;
use vstd::prelude::*;

verus! {

/// `n` is a perfect square, so it can be the side length of a sudoku grid.
pub open spec fn is_square(n: u8) -> bool {
    exists|k: u8| #[trigger] (k * k) == n
}

/// The exact square root of a perfect square `n`.
pub open spec fn spec_sqrt(n: u8) -> u8 {
    choose|k: u8| #[trigger] (k * k) == n
}

/// The index, in the grid's list of sub grids, of the sub grid that holds `c`,
/// for sub grid side length `s`.
pub open spec fn sub_grid_index_of(c: Coordinate, s: u8) -> int {
    (c.0 as int / s as int) * (s as int) + (c.1 as int / s as int)
}

/// The slot, inside its sub grid's fixed-order cell list, of the cell at `c`.
pub open spec fn sub_slot_of(c: Coordinate, s: u8) -> int {
    (c.0 as int % s as int) * (s as int) + (c.1 as int % s as int)
}

/// The position of the sub grid holding `c` within the `s x s` grid of sub grids.
pub open spec fn sub_coor_of(c: Coordinate, s: u8) -> Coordinate {
    Coordinate((c.0 as int / s as int) as u8, (c.1 as int / s as int) as u8)
}

/// The coordinate of the cell recorded at slot `s` of sub grid `g`, for sub
/// grid side length `sub`: the inverse of `sub_grid_index_of` / `sub_slot_of`.
pub open spec fn sub_grid_member(g: int, s: int, sub: u8) -> Coordinate {
    Coordinate(
        ((g / sub as int) * (sub as int) + s / sub as int) as u8,
        ((g % sub as int) * (sub as int) + s % sub as int) as u8,
    )
}

/// Two coordinates lie in the same sub grid of an `s*s`-sized grid.
pub open spec fn same_sub_grid(a: Coordinate, b: Coordinate, s: u8) -> bool {
    a.0 as int / s as int == b.0 as int / s as int && a.1 as int / s as int == b.1 as int / s as int
}

/// A square root that the grid can compute at run time: for a perfect square
/// it is exact.
pub fn int_sqrt(n: u8) -> (r: u8)
    ensures
        r * r <= n < (r + 1) * (r + 1),
        is_square(n) ==> r == spec_sqrt(n) && r * r == n,
{
    let mut k: u8 = 0;
    loop
        invariant
            k * k <= n,
            k <= 15,
        ensures
            k * k <= n < (k + 1) * (k + 1),
        decreases 16 - k,
    {
        let next: u16 = k as u16 + 1;
        assert(next * next <= 256) by (nonlinear_arith)
            requires
                next <= 16,
        ;
        if next * next > n as u16 {
            break ;
        }
        k = k + 1;
        assert(k <= 15) by (nonlinear_arith)
            requires
                k * k <= n,
                n <= 255,
                k >= 1,
        ;
    }
    proof {
        if is_square(n) {
            lemma_sqrt_unique(n, k);
        }
    }
    k
}

/// For a perfect square `n`, any `r` with `r*r <= n < (r+1)*(r+1)` is its
/// unique square root.
pub proof fn lemma_sqrt_unique(n: u8, r: u8)
    requires
        is_square(n),
        r * r <= n < (r + 1) * (r + 1),
    ensures
        r * r == n,
        r == spec_sqrt(n),
        forall|k: u8| #[trigger] (k * k) == n ==> k == r,
{
    assert forall|k: u8| #[trigger] (k * k) == n implies k == r by {
        if k < r {
            assert((k + 1) * (k + 1) <= r * r) by (nonlinear_arith)
                requires
                    0 <= k < r,
            ;
            assert(k * k < (k + 1) * (k + 1)) by (nonlinear_arith)
                requires
                    k >= 0,
            ;
        } else if k > r {
            assert(k * k >= (r + 1) * (r + 1)) by (nonlinear_arith)
                requires
                    k >= r + 1 >= 0,
            ;
        }
    }
    let w = choose|k: u8| #[trigger] (k * k) == n;
    assert(w == r);
}

/// A product `s * s` that fits in a byte is a perfect square whose exact
/// square root is `s`.
pub proof fn lemma_sqrt_of_square(s: u8)
    requires
        s * s <= 255,
    ensures
        is_square((s * s) as u8),
        spec_sqrt((s * s) as u8) == s,
{
    let n: u8 = (s * s) as u8;
    assert(s * s == n);
    assert(is_square(n));
    assert(n < (s + 1) * (s + 1)) by (nonlinear_arith)
        requires
            s >= 0,
            n == s * s,
    ;
    lemma_sqrt_unique(n, s);
}

/// The sub grid membership formulas invert each other: the member recorded at
/// a cell's own sub grid index and slot is the cell itself, and the quotient
/// and remainder of the index recover the sub grid position.
pub proof fn lemma_member_roundtrip(c: Coordinate, s: u8)
    requires
        s >= 1,
        c.0 < s * s,
        c.1 < s * s,
    ensures
        sub_grid_member(sub_grid_index_of(c, s), sub_slot_of(c, s), s) == c,
        sub_grid_index_of(c, s) / s as int == c.0 as int / s as int,
        sub_grid_index_of(c, s) % s as int == c.1 as int / s as int,
        sub_slot_of(c, s) / s as int == c.0 as int % s as int,
        sub_slot_of(c, s) % s as int == c.1 as int % s as int,
{
    let si = s as int;
    let x = c.0 as int;
    let y = c.1 as int;
    lemma_sub_grid_bounds(c, s);
    vstd::arithmetic::div_mod::lemma_fundamental_div_mod_converse(
        sub_grid_index_of(c, s),
        si,
        x / si,
        y / si,
    );
    vstd::arithmetic::div_mod::lemma_fundamental_div_mod_converse(
        sub_slot_of(c, s),
        si,
        x % si,
        y % si,
    );
    vstd::arithmetic::div_mod::lemma_fundamental_div_mod(x, si);
    vstd::arithmetic::div_mod::lemma_fundamental_div_mod(y, si);
    assert((x / si) * si + x % si == x) by (nonlinear_arith)
        requires
            si != 0,
            x == si * (x / si) + x % si,
    ;
    assert((y / si) * si + y % si == y) by (nonlinear_arith)
        requires
            si != 0,
            y == si * (y / si) + y % si,
    ;
}

/// The member formula lands inside the grid, inside the sub grid it was
/// computed for, and the index formulas recover `g` and `s_idx` from it.
pub proof fn lemma_member_props(g: int, s_idx: int, sub: u8)
    requires
        sub >= 1,
        sub * sub <= 255,
        0 <= g < sub * sub,
        0 <= s_idx < sub * sub,
    ensures
        ({
            let m = sub_grid_member(g, s_idx, sub);
            &&& m.0 < sub * sub
            &&& m.1 < sub * sub
            &&& m.0 as int / sub as int == g / sub as int
            &&& m.1 as int / sub as int == g % sub as int
            &&& sub_grid_index_of(m, sub) == g
            &&& sub_slot_of(m, sub) == s_idx
        }),
{
    let si = sub as int;
    let q1 = g / si;
    let q2 = g % si;
    let r1 = s_idx / si;
    let r2 = s_idx % si;
    assert(0 <= q1 < si && 0 <= q2 < si && 0 <= r1 < si && 0 <= r2 < si) by (nonlinear_arith)
        requires
            si >= 1,
            0 <= g < si * si,
            0 <= s_idx < si * si,
            q1 == g / si,
            q2 == g % si,
            r1 == s_idx / si,
            r2 == s_idx % si,
    ;
    assert(0 <= q1 * si + r1 < si * si && 0 <= q2 * si + r2 < si * si) by (nonlinear_arith)
        requires
            si >= 1,
            0 <= q1 < si,
            0 <= q2 < si,
            0 <= r1 < si,
            0 <= r2 < si,
    ;
    let m = sub_grid_member(g, s_idx, sub);
    assert(m.0 == q1 * si + r1 && m.1 == q2 * si + r2);
    vstd::arithmetic::div_mod::lemma_fundamental_div_mod_converse(m.0 as int, si, q1, r1);
    vstd::arithmetic::div_mod::lemma_fundamental_div_mod_converse(m.1 as int, si, q2, r2);
    vstd::arithmetic::div_mod::lemma_fundamental_div_mod(g, si);
    vstd::arithmetic::div_mod::lemma_fundamental_div_mod(s_idx, si);
    assert(q1 * si + q2 == g) by (nonlinear_arith)
        requires
            si != 0,
            g == si * q1 + q2,
    ;
    assert(r1 * si + r2 == s_idx) by (nonlinear_arith)
        requires
            si != 0,
            s_idx == si * r1 + r2,
    ;
}

/// Bounds of the sub grid index arithmetic: for a coordinate inside an
/// `s*s`-sized grid, the sub grid index and the slot index both lie in
/// `0..s*s`, and the component-wise quotients and remainders lie in `0..s`.
pub proof fn lemma_sub_grid_bounds(c: Coordinate, s: u8)
    requires
        s >= 1,
        c.0 < s * s,
        c.1 < s * s,
    ensures
        0 <= (c.0 as int / s as int) < s,
        0 <= (c.1 as int / s as int) < s,
        0 <= (c.0 as int % s as int) < s,
        0 <= (c.1 as int % s as int) < s,
        0 <= sub_grid_index_of(c, s) < s * s,
        0 <= sub_slot_of(c, s) < s * s,
{
    assert(0 <= (c.0 as int / s as int) < s && 0 <= (c.1 as int / s as int) < s && 0 <= (c.0
        as int % s as int) < s && 0 <= (c.1 as int % s as int) < s) by (nonlinear_arith)
        requires
            s >= 1,
            0 <= c.0 < s * s,
            0 <= c.1 < s * s,
    ;
    assert(0 <= sub_grid_index_of(c, s) < s * s) by (nonlinear_arith)
        requires
            s >= 1,
            0 <= (c.0 as int / s as int) < s,
            0 <= (c.1 as int / s as int) < s,
            sub_grid_index_of(c, s) == (c.0 as int / s as int) * (s as int) + (c.1 as int / s
                as int),
    ;
    assert(0 <= sub_slot_of(c, s) < s * s) by (nonlinear_arith)
        requires
            s >= 1,
            0 <= (c.0 as int % s as int) < s,
            0 <= (c.1 as int % s as int) < s,
            sub_slot_of(c, s) == (c.0 as int % s as int) * (s as int) + (c.1 as int % s as int),
    ;
}

} // verus!
