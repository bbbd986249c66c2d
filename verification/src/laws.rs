//! The engine's general laws, each stated and proved over the spec-level
//! model that the executable functions' contracts use.

use vstd::arithmetic::div_mod::lemma_mod_multiples_vanish;
use vstd::prelude::*;

use crate::grid::{
    alive_contribution, cell_at, lemma_flat_index, lemma_flat_injective, lemma_mod_dec,
    lemma_mod_inc, lemma_mod_small, neighbor_count, next_generation, token_stream, wrap_index,
    GridView,
};
use crate::state::State;

verus! {

/// Wrap-around addressing: shifting a coordinate by any whole number of
/// grid widths or heights addresses the same cell.
pub proof fn lemma_wrap_around(g: Seq<State>, w: int, h: int, x: int, y: int, k: int, m: int)
    requires
        0 < w,
        0 < h,
    ensures
        cell_at(g, w, h, x + k * w, y + m * h) == cell_at(g, w, h, x, y),
{
    lemma_mod_multiples_vanish(k, x, w);
    lemma_mod_multiples_vanish(m, y, h);
    assert(x + k * w == w * k + x) by (nonlinear_arith);
    assert(y + m * h == h * m + y) by (nonlinear_arith);
}

/// Neighbor-count bound: an alive-neighbor count is always in `[0, 8]`.
pub proof fn lemma_neighbor_count_bound(g: Seq<State>, w: int, h: int, x: int, y: int)
    ensures
        0 <= neighbor_count(g, w, h, x, y) <= 8,
{
}

/// One of the 8 neighbor offsets, applied with wrap-around, never lands on
/// the cell itself, so the cell's own state does not affect the
/// contribution read at that offset: two grids that agree everywhere except
/// at `(x, y)` give that offset the same contribution.
proof fn lemma_neighbor_offset_ignores_center(
    g1: Seq<State>,
    g2: Seq<State>,
    w: int,
    h: int,
    x: int,
    y: int,
    dx: int,
    dy: int,
)
    requires
        2 <= w,
        2 <= h,
        g1.len() == w * h,
        g2.len() == w * h,
        0 <= x < w,
        0 <= y < h,
        -1 <= dx <= 1,
        -1 <= dy <= 1,
        !(dx == 0 && dy == 0),
        forall|j: int| 0 <= j < g1.len() && j != y * w + x ==> g1[j] == g2[j],
    ensures
        alive_contribution(g1, w, h, x + dx, y + dy) == alive_contribution(g2, w, h, x + dx, y + dy),
{
    let cx = (x + dx) % w;
    let cy = (y + dy) % h;
    if dx == -1 {
        lemma_mod_dec(x, w);
    } else if dx == 0 {
        lemma_mod_small(x, w);
    } else {
        lemma_mod_inc(x, w);
    }
    if dy == -1 {
        lemma_mod_dec(y, h);
    } else if dy == 0 {
        lemma_mod_small(y, h);
    } else {
        lemma_mod_inc(y, h);
    }
    assert(0 <= cx < w);
    assert(0 <= cy < h);
    assert(dx != 0 ==> cx != x);
    assert(dy != 0 ==> cy != y);
    lemma_flat_index(w, h, cx, cy);
    lemma_flat_index(w, h, x, y);
    if cy * w + cx == y * w + x {
        lemma_flat_injective(w, cx, cy, x, y);
    }
    assert(wrap_index(w, h, x + dx, y + dy) == cy * w + cx);
}

/// No self-counting: the neighbor count of a cell does not depend on the
/// cell's own state. Two grids that agree everywhere except at `(x, y)`
/// give `(x, y)` the same alive-neighbor count.
///
/// Width and height of at least 2 are required: on a one-row or one-column
/// torus a neighbor offset can wrap back onto the cell itself.
pub proof fn lemma_no_self_counting(
    g1: Seq<State>,
    g2: Seq<State>,
    w: int,
    h: int,
    x: int,
    y: int,
)
    requires
        2 <= w,
        2 <= h,
        g1.len() == w * h,
        g2.len() == w * h,
        0 <= x < w,
        0 <= y < h,
        forall|j: int| 0 <= j < g1.len() && j != y * w + x ==> g1[j] == g2[j],
    ensures
        neighbor_count(g1, w, h, x, y) == neighbor_count(g2, w, h, x, y),
{
    lemma_neighbor_offset_ignores_center(g1, g2, w, h, x, y, -1, -1);
    lemma_neighbor_offset_ignores_center(g1, g2, w, h, x, y, 0, -1);
    lemma_neighbor_offset_ignores_center(g1, g2, w, h, x, y, 1, -1);
    lemma_neighbor_offset_ignores_center(g1, g2, w, h, x, y, -1, 0);
    lemma_neighbor_offset_ignores_center(g1, g2, w, h, x, y, 1, 0);
    lemma_neighbor_offset_ignores_center(g1, g2, w, h, x, y, -1, 1);
    lemma_neighbor_offset_ignores_center(g1, g2, w, h, x, y, 0, 1);
    lemma_neighbor_offset_ignores_center(g1, g2, w, h, x, y, 1, 1);
}

/// Determinism and double-buffer isolation in one statement: the next
/// generation and the token stream that a sweep produces are functions of
/// the dimensions and the current generation's contents alone. Two worlds
/// with identical current generations — however their next buffers differ —
/// yield identical next generations and identical token streams.
pub proof fn lemma_step_deterministic(a: GridView, b: GridView)
    requires
        a.width == b.width,
        a.height == b.height,
        a.cur == b.cur,
    ensures
        next_generation(a.cur, a.width, a.height) == next_generation(b.cur, b.width, b.height),
        token_stream(a.cur) == token_stream(b.cur),
{
}

/// An isolated alive cell dies: whatever the grid, a cell that is alive
/// with zero alive neighbors becomes `Dead` with age 1 after one sweep.
pub proof fn lemma_isolated_cell_dies(g: Seq<State>, w: int, h: int, x: int, y: int)
    requires
        0 < w,
        0 < h,
        g.len() == w * h,
        0 <= x < w,
        0 <= y < h,
        cell_at(g, w, h, x, y) is Alive,
        neighbor_count(g, w, h, x, y) == 0,
    ensures
        next_generation(g, w, h)[y * w + x] == State::Dead(1u8),
{
    lemma_flat_index(w, h, x, y);
}

} // verus!
