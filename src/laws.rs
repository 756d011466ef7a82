use vstd::prelude::*;
use vstd::arithmetic::div_mod::lemma_fundamental_div_mod_converse;

use crate::cell::{Cell, alive_value};
use crate::universe::{
    UniverseView, cell_index, neighbor_count, step, well_formed, with_alive,
};

verus! {

/// One for a live cell at `(row, col)`, zero otherwise.
pub open spec fn alive_at(u: UniverseView, row: int, col: int) -> nat {
    alive_value(u.cells[cell_index(u.width, row, col)])
}

/// The index before `x` on a ring of `n` positions.
pub open spec fn ring_prev(x: nat, n: nat) -> nat {
    if x == 0 { (n - 1) as nat } else { (x - 1) as nat }
}

/// The index after `x` on a ring of `n` positions.
pub open spec fn ring_next(x: nat, n: nat) -> nat {
    if x + 1 == n { 0 } else { x + 1 }
}

/// `generations(u, n)` is `u` after `n` steps.
pub open spec fn generations(u: UniverseView, n: nat) -> UniverseView
    decreases n,
{
    if n == 0 { u } else { step(generations(u, (n - 1) as nat)) }
}

/// Adding `n - 1`, `0` or `1` modulo `n` moves to the previous, the same or the next position.
proof fn lemma_ring_offsets(x: nat, n: nat)
    requires
        x < n,
    ensures
        (x + (n - 1) as nat) % n == ring_prev(x, n),
        (x + 0nat) % n == x,
        (x + 1nat) % n == ring_next(x, n),
{
    let (xi, ni) = (x as int, n as int);
    if x == 0 {
        lemma_fundamental_div_mod_converse(xi + ni - 1, ni, 0, ni - 1);
    } else {
        lemma_fundamental_div_mod_converse(xi + ni - 1, ni, 1, xi - 1);
    }
    lemma_fundamental_div_mod_converse(xi, ni, 0, xi);
    if x + 1 == n {
        lemma_fundamental_div_mod_converse(xi + 1, ni, 1, 0);
    } else {
        lemma_fundamental_div_mod_converse(xi + 1, ni, 0, xi + 1);
    }
}

/// Wrap-around adjacency: on a grid of at least two rows and two columns, the
/// neighbors of a cell are the eight cells around it, where the row above the
/// first is the last, the row below the last is the first, and likewise for
/// columns. A cell on an edge or a corner thus counts cells of the opposite edges.
pub proof fn lemma_toroidal_neighbors(u: UniverseView, row: nat, col: nat)
    requires
        well_formed(u),
        row < u.height,
        col < u.width,
        u.height >= 2,
        u.width >= 2,
    ensures
        neighbor_count(u, row, col) == ({
            let (up, down) = (ring_prev(row, u.height) as int, ring_next(row, u.height) as int);
            let (left, right) = (ring_prev(col, u.width) as int, ring_next(col, u.width) as int);
            alive_at(u, up, left) + alive_at(u, up, col as int) + alive_at(u, up, right)
                + alive_at(u, row as int, left) + alive_at(u, row as int, right)
                + alive_at(u, down, left) + alive_at(u, down, col as int) + alive_at(u, down, right)
        }),
{
    lemma_ring_offsets(row, u.height);
    lemma_ring_offsets(col, u.width);
}

/// The rule holds of every cell in a step: a live cell with fewer than two or
/// more than three live neighbors dies, one with two or three lives on, a dead
/// cell with exactly three becomes alive, and every other dead cell stays dead.
pub proof fn lemma_step_follows_rule(u: UniverseView, row: nat, col: nat)
    requires
        well_formed(u),
        row < u.height,
        col < u.width,
    ensures
        ({
            let i = cell_index(u.width, row as int, col as int);
            let (c, n, next) = (u.cells[i], neighbor_count(u, row, col), step(u).cells[i]);
            &&& c == Cell::Alive && (n < 2 || n > 3) ==> next == Cell::Dead
            &&& c == Cell::Alive && (n == 2 || n == 3) ==> next == Cell::Alive
            &&& c == Cell::Dead && n == 3 ==> next == Cell::Alive
            &&& c == Cell::Dead && n != 3 ==> next == c
        }),
{
    assert(row * u.width + col < u.width * u.height) by (nonlinear_arith)
        requires row < u.height, col < u.width;
    lemma_fundamental_div_mod_converse(
        cell_index(u.width, row as int, col as int), u.width as int, row as int, col as int);
}

/// A step keeps the dimensions and the buffer's length.
pub proof fn lemma_step_keeps_dimensions(u: UniverseView)
    requires
        well_formed(u),
    ensures
        step(u).width == u.width,
        step(u).height == u.height,
        well_formed(step(u)),
{
}

/// Determinism: two universes with the same dimensions and the same cells
/// are equal after any number of steps.
pub proof fn lemma_deterministic(a: UniverseView, b: UniverseView, n: nat)
    requires
        a.width == b.width,
        a.height == b.height,
        a.cells == b.cells,
    ensures
        generations(a, n) == generations(b, n),
    decreases n,
{
    if n > 0 {
        lemma_deterministic(a, b, (n - 1) as nat);
    }
}

/// Setting the same cells alive a second time changes nothing.
pub proof fn lemma_set_cells_idempotent(cells: Seq<Cell>, width: nat, coords: Seq<(u32, u32)>)
    ensures
        with_alive(with_alive(cells, width, coords), width, coords) == with_alive(cells, width, coords),
{
    assert(with_alive(with_alive(cells, width, coords), width, coords) =~= with_alive(cells, width, coords));
}

} // verus!
