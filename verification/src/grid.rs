//! Toroidal grid geometry: cells and wrap-around.
//!
//! The playing field is a 13x13 torus whose cell coordinates run from -6 to
//! 6 on each axis, centred at the origin. `wrap_coord` is the sole place
//! where wrap-around happens: it maps any coordinate back into the grid
//! range by modulo arithmetic.

use vstd::prelude::*;

verus! {

/// Smallest cell coordinate on each axis.
pub const GRID_MIN: i32 = -6;
/// Largest cell coordinate on each axis.
pub const GRID_MAX: i32 = 6;
/// Number of cells along each axis of the torus.
pub const GRID_AXIS: i32 = 13;

/// One cell of the grid, addressed by signed integer coordinates.
#[derive(Clone, Copy, PartialEq, Eq, Structural, Debug)]
pub struct Cell {
    pub x: i32,
    pub y: i32,
}

/// A coordinate lies on the grid when it is within the torus range.
pub open spec fn coord_in_grid(v: int) -> bool {
    -6 <= v <= 6
}

/// A cell lies on the grid when both its coordinates do.
pub open spec fn cell_in_grid(c: Cell) -> bool {
    coord_in_grid(c.x as int) && coord_in_grid(c.y as int)
}

/// Mathematical wrap: shift the torus range to start at zero, reduce
/// modulo the axis length, and shift back. `%` here is the Euclidean
/// remainder, so the result is independent of the sign of `v`.
pub open spec fn wrap_int(v: int) -> int {
    (v + 6) % 13 - 6
}

/// The wrapped coordinate always lies on the grid.
pub proof fn lemma_wrap_in_range(v: int)
    ensures
        coord_in_grid(wrap_int(v)),
{
    vstd::arithmetic::div_mod::lemma_mod_division_less_than_divisor(v + 6, 13);
}

/// On the grid range itself, wrapping changes nothing.
pub proof fn lemma_wrap_identity(v: int)
    requires
        coord_in_grid(v),
    ensures
        wrap_int(v) == v,
{
    vstd::arithmetic::div_mod::lemma_small_mod((v + 6) as nat, 13nat);
}

/// Wrapping is idempotent: a second wrap changes nothing.
pub proof fn lemma_wrap_idempotent(v: int)
    ensures
        wrap_int(wrap_int(v)) == wrap_int(v),
{
    lemma_wrap_in_range(v);
    lemma_wrap_identity(wrap_int(v));
}

/// Restricted to the grid range, wrap is a bijection: it is injective
/// there, and every grid coordinate is reached from the range.
pub proof fn lemma_wrap_bijective_on_grid()
    ensures
        forall|a: int, b: int|
            coord_in_grid(a) && coord_in_grid(b) && #[trigger] wrap_int(a) == #[trigger] wrap_int(b)
                ==> a == b,
        forall|c: int|
            #[trigger] coord_in_grid(c) ==> exists|p: int| coord_in_grid(p) && wrap_int(p) == c,
{
    assert forall|a: int, b: int|
        coord_in_grid(a) && coord_in_grid(b) && #[trigger] wrap_int(a) == #[trigger] wrap_int(b)
            implies a == b by {
        lemma_wrap_identity(a);
        lemma_wrap_identity(b);
    }
    assert forall|c: int| #[trigger] coord_in_grid(c)
        implies exists|p: int| coord_in_grid(p) && wrap_int(p) == c by {
        lemma_wrap_identity(c);
        assert(coord_in_grid(c) && wrap_int(c) == c);
    }
}

/// Executable wrap of one coordinate. Adding a large multiple of the axis
/// length keeps the shifted value non-negative for every `i32`, so the
/// machine remainder agrees with the Euclidean one.
pub fn wrap_coord(v: i32) -> (r: i32)
    ensures
        r as int == wrap_int(v as int),
        coord_in_grid(r as int),
{
    proof {
        vstd::arithmetic::div_mod::lemma_mod_multiples_vanish(
            200_000_000,
            v as int + 6,
            13,
        );
        lemma_wrap_in_range(v as int);
    }
    let shifted: u64 = (v as i64 + 2_600_000_006i64) as u64;
    let m: u64 = shifted % 13;
    (m as i32) - 6
}

/// Executable wrap of a whole cell.
pub fn wrap_cell(x: i32, y: i32) -> (c: Cell)
    ensures
        c.x as int == wrap_int(x as int),
        c.y as int == wrap_int(y as int),
        cell_in_grid(c),
{
    Cell { x: wrap_coord(x), y: wrap_coord(y) }
}

} // verus!
