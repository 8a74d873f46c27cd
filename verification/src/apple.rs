//! Apple placement: a uniformly random free cell.
//!
//! The placer enumerates every cell of the grid, removes the occupied
//! ones, and picks one of the remaining cells at random. The grid can
//! never fill up in practice (it has far more cells than a snake can
//! reach before blocking itself), so callers guarantee a free cell.

use vstd::prelude::*;
use crate::grid::Cell;
use crate::grid::cell_in_grid;
use crate::grid::GRID_MIN;
use crate::grid::GRID_MAX;

verus! {

/// Relies on rand::random_range over `0..n`: the result is drawn
/// uniformly from the range, and the call panics only on an empty
/// range, which the precondition rules out.
#[verifier::external_body]
fn random_index(n: usize) -> (r: usize)
    requires
        0 < n,
    ensures
        r < n,
{
    rand::random_range(0..n)
}

/// Whether `v` holds cell `c`.
fn holds_cell(v: &Vec<Cell>, c: Cell) -> (r: bool)
    ensures
        r == v@.contains(c),
{
    let n = v.len();
    let mut idx: usize = 0;
    while idx < n
        invariant
            n == v@.len(),
            idx <= n,
            forall|j: int| 0 <= j < idx ==> v@[j] != c,
        decreases n - idx,
    {
        if v[idx] == c {
            return true;
        }
        idx = idx + 1;
    }
    false
}

/// A cell that the enumeration below has already passed: every cell of
/// an earlier column, and every cell of the current column with a
/// smaller row.
spec fn enumerated(c: Cell, cx: int, cy: int) -> bool {
    cell_in_grid(c) && (c.x < cx || (c.x == cx && c.y < cy))
}

/// All grid cells not present in `occupied`, each exactly once.
pub fn free_cells(occupied: &Vec<Cell>) -> (v: Vec<Cell>)
    ensures
        forall|c: Cell| v@.contains(c) <==> (cell_in_grid(c) && !occupied@.contains(c)),
        forall|k1: int, k2: int| 0 <= k1 < k2 < v@.len() ==> v@[k1] != v@[k2],
{
    let mut v: Vec<Cell> = Vec::new();
    let mut cx: i32 = GRID_MIN;
    while cx <= GRID_MAX
        invariant
            GRID_MIN <= cx <= GRID_MAX + 1,
            forall|c: Cell| v@.contains(c) <==> (enumerated(c, cx as int, GRID_MIN as int)
                && !occupied@.contains(c)),
            forall|k1: int, k2: int| 0 <= k1 < k2 < v@.len() ==> v@[k1] != v@[k2],
        decreases GRID_MAX + 1 - cx,
    {
        let mut cy: i32 = GRID_MIN;
        while cy <= GRID_MAX
            invariant
                GRID_MIN <= cx <= GRID_MAX,
                GRID_MIN <= cy <= GRID_MAX + 1,
                forall|c: Cell| v@.contains(c) <==> (enumerated(c, cx as int, cy as int)
                    && !occupied@.contains(c)),
                forall|k1: int, k2: int| 0 <= k1 < k2 < v@.len() ==> v@[k1] != v@[k2],
            decreases GRID_MAX + 1 - cy,
        {
            let cand = Cell { x: cx, y: cy };
            let ghost v0 = v@;
            if !holds_cell(occupied, cand) {
                v.push(cand);
                proof {
                    assert(v@[v@.len() - 1] == cand);
                    assert forall|c: Cell| #[trigger] v@.contains(c) implies (enumerated(
                        c,
                        cx as int,
                        cy as int + 1,
                    ) && !occupied@.contains(c)) by {
                        let j = choose|j: int| 0 <= j < v@.len() && v@[j] == c;
                        if j < v0.len() {
                            assert(v0[j] == c);
                            assert(v0.contains(c));
                        }
                    }
                    assert forall|c: Cell| (enumerated(c, cx as int, cy as int + 1)
                        && !occupied@.contains(c)) implies v@.contains(c) by {
                        if c == cand {
                        } else {
                            assert(enumerated(c, cx as int, cy as int));
                            assert(v0.contains(c));
                            let j = choose|j: int| 0 <= j < v0.len() && v0[j] == c;
                            assert(v@[j] == c);
                        }
                    }
                    assert(!v0.contains(cand));
                }
            } else {
                proof {
                    assert forall|c: Cell| #[trigger] v@.contains(c) implies (enumerated(
                        c,
                        cx as int,
                        cy as int + 1,
                    ) && !occupied@.contains(c)) by {}
                    assert forall|c: Cell| (enumerated(c, cx as int, cy as int + 1)
                        && !occupied@.contains(c)) implies v@.contains(c) by {
                        assert(c != cand);
                        assert(enumerated(c, cx as int, cy as int));
                    }
                }
            }
            cy = cy + 1;
        }
        proof {
            assert(forall|c: Cell|
                #[trigger] enumerated(c, cx as int + 1, GRID_MIN as int) == enumerated(
                    c,
                    cx as int,
                    GRID_MAX as int + 1,
                ));
        }
        cx = cx + 1;
    }
    proof {
        assert(forall|c: Cell|
            cell_in_grid(c) == #[trigger] enumerated(c, GRID_MAX as int + 1, GRID_MIN as int));
    }
    v
}

/// Row-major position of a grid cell among the grid's cells.
spec fn cell_slot(c: Cell) -> int {
    (c.x + 6) * 13 + (c.y + 6)
}

/// The grid can only run out of free cells once the snake covers all
/// of it: pairwise distinct grid cells fewer than the grid's cell
/// count always leave some grid cell uncovered.
pub proof fn lemma_free_cell_exists(cells: Seq<Cell>)
    requires
        forall|k: int| 0 <= k < cells.len() ==> cell_in_grid(#[trigger] cells[k]),
        forall|k1: int, k2: int| 0 <= k1 < k2 < cells.len() ==> cells[k1] != cells[k2],
        cells.len() < 169,
    ensures
        exists|w: Cell| cell_in_grid(w) && !cells.contains(w),
{
    let slots = cells.map_values(|c: Cell| cell_slot(c));
    assert(slots.no_duplicates()) by {
        assert forall|k1: int, k2: int| 0 <= k1 < k2 < slots.len() implies slots[k1]
            != slots[k2] by {
            assert(cells[k1] != cells[k2]);
            assert(cell_in_grid(cells[k1]) && cell_in_grid(cells[k2]));
        }
    }
    slots.unique_seq_to_set();
    vstd::seq_lib::seq_to_set_is_finite(slots);
    assert(slots.to_set().subset_of(vstd::set_lib::set_int_range(0, 169))) by {
        assert forall|i: int| slots.to_set().contains(i) implies vstd::set_lib::set_int_range(
            0,
            169,
        ).contains(i) by {
            let k = choose|k: int| 0 <= k < slots.len() && slots[k] == i;
            assert(cell_in_grid(cells[k]));
        }
    }
    vstd::set_lib::lemma_int_range(0, 169);
    if !(exists|w: Cell| cell_in_grid(w) && !cells.contains(w)) {
        // then the covered slots exhaust the whole index range
        assert(vstd::set_lib::set_int_range(0, 169).subset_of(slots.to_set())) by {
            assert forall|i: int| vstd::set_lib::set_int_range(0, 169).contains(
                i,
            ) implies slots.to_set().contains(i) by {
                vstd::arithmetic::div_mod::lemma_fundamental_div_mod(i, 13);
                vstd::arithmetic::div_mod::lemma_mod_division_less_than_divisor(i, 13);
                let c = Cell { x: (i / 13 - 6) as i32, y: (i % 13 - 6) as i32 };
                assert(cell_in_grid(c));
                assert(cell_slot(c) == i);
                assert(cells.contains(c));
                let k = choose|k: int| 0 <= k < cells.len() && cells[k] == c;
                assert(slots[k] == i);
                assert(slots.contains(i));
            }
        }
        vstd::set_lib::lemma_len_subset(
            vstd::set_lib::set_int_range(0, 169),
            slots.to_set(),
        );
        assert(false);
    }
}

/// Choose a free cell uniformly at random from the complement of the
/// occupied cells. The grid must not be full.
pub fn place_apple(occupied: &Vec<Cell>) -> (c: Cell)
    requires
        exists|w: Cell| cell_in_grid(w) && !occupied@.contains(w),
    ensures
        cell_in_grid(c),
        !occupied@.contains(c),
{
    let free = free_cells(occupied);
    proof {
        let w = choose|w: Cell| cell_in_grid(w) && !occupied@.contains(w);
        assert(free@.contains(w));
    }
    let i = random_index(free.len());
    let c = free[i];
    proof {
        assert(free@.contains(c));
        assert(cell_in_grid(c) && !occupied@.contains(c));
    }
    c
}

} // verus!
