//! The grid store and the step engine: two full-size cell buffers with
//! toroidal (wrap-around) addressing, and the sweep that computes the next
//! generation from the current one while emitting one color token per cell.
//!
//! Wrap-around addressing maps any integer coordinate pair `(x, y)` to the
//! cell at `(x mod width, y mod height)` with a non-negative mathematical
//! modulus, so the grid's edges connect to the opposite edges.
//!
//! Color tokens are derived from a cell's state *before* the transition: a
//! currently-alive cell paints bright even when it is about to die, and a
//! currently-dead cell paints the fade color of its age before the
//! saturating increment.

use vstd::arithmetic::div_mod::{
    lemma_fundamental_div_mod, lemma_fundamental_div_mod_converse_div,
    lemma_fundamental_div_mod_converse_mod, lemma_small_mod,
};
use vstd::pervasive::VecAdditionalExecFns;
use vstd::prelude::*;

use crate::state::{
    color_of, color_token, lemma_transition_wf, next_state, state_wf, transition, Color, State,
};

verus! {

/// Which of the two logical generations an access targets.
#[derive(Clone, Copy, PartialEq, Eq, Structural, Debug)]
pub enum Generation {
    Current,
    Next,
}

/// The dimensions a grid is created with.
#[derive(Clone, Copy, PartialEq, Eq, Structural, Debug)]
pub struct Dimensions {
    pub width: usize,
    pub height: usize,
}

/// The grid store: a `width x height` cell buffer for each of the two
/// logical generations, owned exclusively by the engine.
pub struct World {
    width: usize,
    height: usize,
    cur: Vec<State>,
    next: Vec<State>,
}

/// The mathematical model of a `World`: its dimensions and the row-major
/// contents of the current and the next generation.
pub ghost struct GridView {
    pub width: int,
    pub height: int,
    pub cur: Seq<State>,
    pub next: Seq<State>,
}

impl View for World {
    type V = GridView;

    closed spec fn view(&self) -> GridView {
        GridView {
            width: self.width as int,
            height: self.height as int,
            cur: self.cur@,
            next: self.next@,
        }
    }
}

/// The row-major index of the cell that the wrap-around coordinates `(x, y)`
/// address, for any integers `x` and `y`: `(y mod h) * w + (x mod w)`.
pub open spec fn wrap_index(w: int, h: int, x: int, y: int) -> int {
    (y % h) * w + (x % w)
}

/// The cell of the row-major grid `g` at wrap-around coordinates `(x, y)`.
pub open spec fn cell_at(g: Seq<State>, w: int, h: int, x: int, y: int) -> State {
    g[wrap_index(w, h, x, y)]
}

/// 1 if the cell at wrap-around `(x, y)` is alive, else 0.
pub open spec fn alive_contribution(g: Seq<State>, w: int, h: int, x: int, y: int) -> int {
    if cell_at(g, w, h, x, y) is Alive {
        1
    } else {
        0
    }
}

/// The number of alive cells among the 8 toroidal neighbors of `(x, y)`:
/// the positions `(x +- 1, y +- 1)`, `(x +- 1, y)`, `(x, y +- 1)`, each read
/// with wrap-around addressing. The cell's own position is not among them.
pub open spec fn neighbor_count(g: Seq<State>, w: int, h: int, x: int, y: int) -> int {
    alive_contribution(g, w, h, x - 1, y - 1) + alive_contribution(g, w, h, x, y - 1)
        + alive_contribution(g, w, h, x + 1, y - 1) + alive_contribution(g, w, h, x - 1, y)
        + alive_contribution(g, w, h, x + 1, y) + alive_contribution(g, w, h, x - 1, y + 1)
        + alive_contribution(g, w, h, x, y + 1) + alive_contribution(g, w, h, x + 1, y + 1)
}

/// The generation that one full sweep computes from the current generation
/// `g`: every cell's transition applied to its own state and its toroidal
/// alive-neighbor count, all read from `g` alone.
pub open spec fn next_generation(g: Seq<State>, w: int, h: int) -> Seq<State> {
    Seq::new(g.len(), |i: int| transition(g[i], neighbor_count(g, w, h, i % w, i / w)))
}

/// The color tokens one full sweep emits: exactly one token per cell, in
/// row-major order, each derived from the cell's current (pre-transition)
/// state.
pub open spec fn token_stream(g: Seq<State>) -> Seq<Color> {
    Seq::new(g.len(), |i: int| color_of(g[i]))
}

/// `(x - 1) mod w`, written out for a coordinate already in range.
pub proof fn lemma_mod_dec(x: int, w: int)
    requires
        0 < w,
        0 <= x < w,
    ensures
        (x - 1) % w == if x == 0 {
            w - 1
        } else {
            x - 1
        },
{
    if x == 0 {
        lemma_fundamental_div_mod_converse_mod(x - 1, w, -1, w - 1);
    } else {
        lemma_fundamental_div_mod_converse_mod(x - 1, w, 0, x - 1);
    }
}

/// `(x + 1) mod w`, written out for a coordinate already in range.
pub proof fn lemma_mod_inc(x: int, w: int)
    requires
        0 < w,
        0 <= x < w,
    ensures
        (x + 1) % w == if x == w - 1 {
            0
        } else {
            x + 1
        },
{
    if x == w - 1 {
        lemma_fundamental_div_mod_converse_mod(x + 1, w, 1, 0);
    } else {
        lemma_fundamental_div_mod_converse_mod(x + 1, w, 0, x + 1);
    }
}

/// A coordinate already in range is its own modulus.
pub proof fn lemma_mod_small(x: int, w: int)
    requires
        0 < w,
        0 <= x < w,
    ensures
        x % w == x,
{
    lemma_small_mod(x as nat, w as nat);
}

/// For in-range coordinates, the wrap-around index is the plain row-major
/// index `y * w + x`, it lies inside the grid, and it decomposes back into
/// `x` and `y` by modulus and division.
pub proof fn lemma_flat_index(w: int, h: int, x: int, y: int)
    requires
        0 < w,
        0 < h,
        0 <= x < w,
        0 <= y < h,
    ensures
        0 <= y * w + x < w * h,
        wrap_index(w, h, x, y) == y * w + x,
        (y * w + x) % w == x,
        (y * w + x) / w == y,
{
    lemma_mod_small(x, w);
    lemma_mod_small(y, h);
    assert(0 <= y * w + x < w * h) by (nonlinear_arith)
        requires
            0 <= x < w,
            0 <= y < h,
    ;
    lemma_fundamental_div_mod_converse_mod(y * w + x, w, y, x);
    lemma_fundamental_div_mod_converse_div(y * w + x, w, y, x);
}

/// Two distinct in-range coordinate pairs have distinct row-major indices.
pub proof fn lemma_flat_injective(w: int, x1: int, y1: int, x2: int, y2: int)
    requires
        0 < w,
        0 <= x1 < w,
        0 <= x2 < w,
        y1 * w + x1 == y2 * w + x2,
    ensures
        x1 == x2,
        y1 == y2,
{
    lemma_fundamental_div_mod_converse_mod(y1 * w + x1, w, y1, x1);
    lemma_fundamental_div_mod_converse_div(y1 * w + x1, w, y1, x1);
    lemma_fundamental_div_mod_converse_mod(y2 * w + x2, w, y2, x2);
    lemma_fundamental_div_mod_converse_div(y2 * w + x2, w, y2, x2);
}

/// Relies on `rand::random::<bool>`: one fair coin flip from the
/// thread-local generator. Nothing is assumed about the value returned.
#[verifier::external_body]
fn random_bool() -> bool {
    rand::random()
}

/// Decrement a coordinate by one with wrap-around.
fn wrap_dec(x: usize, m: usize) -> (r: usize)
    requires
        x < m,
    ensures
        r < m,
        r as int == (x as int - 1) % (m as int),
{
    proof {
        lemma_mod_dec(x as int, m as int);
    }
    if x == 0 {
        m - 1
    } else {
        x - 1
    }
}

/// Increment a coordinate by one with wrap-around.
fn wrap_inc(x: usize, m: usize) -> (r: usize)
    requires
        x < m,
    ensures
        r < m,
        r as int == (x as int + 1) % (m as int),
{
    proof {
        lemma_mod_inc(x as int, m as int);
    }
    if x == m - 1 {
        0
    } else {
        x + 1
    }
}

/// Reduce an arbitrary (possibly negative) coordinate to its wrap-around
/// representative in `[0, m)`, the non-negative mathematical modulus.
fn wrap_i64(x: i64, m: usize) -> (r: usize)
    requires
        0 < m,
    ensures
        r < m,
        r as int == (x as int) % (m as int),
{
    let mi: u64 = m as u64;
    if x >= 0 {
        let rem: u64 = (x as u64) % mi;
        rem as usize
    } else {
        let a: u64 = (-(x as i128)) as u64;
        let q: u64 = a / mi;
        let rem: u64 = a % mi;
        proof {
            assert(x as int == -(a as int));
            lemma_fundamental_div_mod(a as int, m as int);
            assert(a as int == (m as int) * (q as int) + (rem as int));
            if rem == 0 {
                assert(x as int == (-(q as int)) * (m as int) + 0) by (nonlinear_arith)
                    requires
                        x as int == -(a as int),
                        a as int == (m as int) * (q as int) + (rem as int),
                        rem == 0,
                ;
                lemma_fundamental_div_mod_converse_mod(x as int, m as int, -(q as int), 0);
            } else {
                assert(x as int == (-(q as int) - 1) * (m as int) + (m as int - rem as int))
                    by (nonlinear_arith)
                    requires
                        x as int == -(a as int),
                        a as int == (m as int) * (q as int) + (rem as int),
                ;
                lemma_fundamental_div_mod_converse_mod(
                    x as int,
                    m as int,
                    -(q as int) - 1,
                    m as int - rem as int,
                );
            }
        }
        if rem == 0 {
            0
        } else {
            (mi - rem) as usize
        }
    }
}

impl World {
    /// A well-formed world: both buffers hold exactly `width * height`
    /// cells, and every dead cell carries an age of at least 1.
    pub open spec fn wf(self) -> bool {
        &&& 0 <= self@.width
        &&& 0 <= self@.height
        &&& self@.cur.len() == self@.width * self@.height
        &&& self@.next.len() == self@.width * self@.height
        &&& forall|i: int| 0 <= i < self@.cur.len() ==> state_wf(#[trigger] self@.cur[i])
        &&& forall|i: int| 0 <= i < self@.next.len() ==> state_wf(#[trigger] self@.next[i])
    }

    /// The contents of the chosen logical generation.
    pub open spec fn gen_seq(self, gen: Generation) -> Seq<State> {
        match gen {
            Generation::Current => self@.cur,
            Generation::Next => self@.next,
        }
    }

    /// Create a world of the given dimensions. Every cell of the current
    /// generation is independently randomized to `Alive` or `Dead(1)`; the
    /// next generation starts as all `Dead(1)` (its content is irrelevant
    /// until the first sweep writes it).
    pub fn from_dimensions(dimensions: Dimensions) -> (w: World)
        requires
            dimensions.width * dimensions.height <= usize::MAX,
        ensures
            w.wf(),
            w@.width == dimensions.width,
            w@.height == dimensions.height,
            forall|i: int|
                0 <= i < w@.cur.len() ==> (#[trigger] w@.cur[i] == State::Alive || w@.cur[i]
                    == State::Dead(1u8)),
            forall|i: int| 0 <= i < w@.next.len() ==> #[trigger] w@.next[i] == State::Dead(1u8),
    {
        let total = dimensions.width * dimensions.height;
        let mut cur: Vec<State> = Vec::new();
        let mut nxt: Vec<State> = Vec::new();
        let mut i: usize = 0;
        while i < total
            invariant
                i <= total,
                cur@.len() == i,
                nxt@.len() == i,
                forall|j: int|
                    0 <= j < i ==> (#[trigger] cur@[j] == State::Alive || cur@[j] == State::Dead(
                        1u8,
                    )),
                forall|j: int| 0 <= j < i ==> #[trigger] nxt@[j] == State::Dead(1u8),
            decreases total - i,
        {
            if random_bool() {
                cur.push(State::Alive);
            } else {
                cur.push(State::Dead(1));
            }
            nxt.push(State::Dead(1));
            i = i + 1;
        }
        World { width: dimensions.width, height: dimensions.height, cur, next: nxt }
    }

    /// Create a world with an explicitly given current generation; the next
    /// generation starts as all `Dead(1)`.
    pub fn from_cells(width: usize, height: usize, cells: Vec<State>) -> (w: World)
        requires
            cells@.len() == width * height,
            forall|i: int| 0 <= i < cells@.len() ==> state_wf(#[trigger] cells@[i]),
        ensures
            w.wf(),
            w@.width == width,
            w@.height == height,
            w@.cur == cells@,
            w@.next.len() == cells@.len(),
            forall|i: int| 0 <= i < w@.next.len() ==> #[trigger] w@.next[i] == State::Dead(1u8),
    {
        let total = cells.len();
        let mut nxt: Vec<State> = Vec::new();
        let mut i: usize = 0;
        while i < total
            invariant
                i <= total,
                nxt@.len() == i,
                forall|j: int| 0 <= j < i ==> #[trigger] nxt@[j] == State::Dead(1u8),
            decreases total - i,
        {
            nxt.push(State::Dead(1));
            i = i + 1;
        }
        World { width, height, cur: cells, next: nxt }
    }

    /// The grid's width.
    pub fn width(&self) -> (r: usize)
        ensures
            r == self@.width,
    {
        self.width
    }

    /// The grid's height.
    pub fn height(&self) -> (r: usize)
        ensures
            r == self@.height,
    {
        self.height
    }

    /// Read the cell at wrap-around position `(x, y)` of the chosen
    /// generation. Any integer coordinates are valid.
    pub fn read(&self, gen: Generation, x: i64, y: i64) -> (r: State)
        requires
            self.wf(),
            0 < self@.width,
            0 < self@.height,
        ensures
            r == cell_at(self.gen_seq(gen), self@.width, self@.height, x as int, y as int),
    {
        let cx = wrap_i64(x, self.width);
        let cy = wrap_i64(y, self.height);
        proof {
            lemma_flat_index(self@.width, self@.height, cx as int, cy as int);
        }
        let _len = self.cur.len();
        let idx = cy * self.width + cx;
        match gen {
            Generation::Current => self.cur[idx],
            Generation::Next => self.next[idx],
        }
    }

    /// Set the cell at wrap-around position `(x, y)` of the chosen
    /// generation to `v`; the other generation is untouched. Any integer
    /// coordinates are valid.
    pub fn write(&mut self, gen: Generation, x: i64, y: i64, v: State)
        requires
            old(self).wf(),
            0 < old(self)@.width,
            0 < old(self)@.height,
            state_wf(v),
        ensures
            final(self).wf(),
            final(self)@.width == old(self)@.width,
            final(self)@.height == old(self)@.height,
            final(self).gen_seq(gen) == old(self).gen_seq(gen).update(
                wrap_index(old(self)@.width, old(self)@.height, x as int, y as int),
                v,
            ),
            gen is Current ==> final(self)@.next == old(self)@.next,
            gen is Next ==> final(self)@.cur == old(self)@.cur,
    {
        let cx = wrap_i64(x, self.width);
        let cy = wrap_i64(y, self.height);
        proof {
            lemma_flat_index(self@.width, self@.height, cx as int, cy as int);
        }
        let _len = self.cur.len();
        let idx = cy * self.width + cx;
        match gen {
            Generation::Current => self.cur.set(idx, v),
            Generation::Next => self.next.set(idx, v),
        }
    }

    /// Flip which generation is current and which is next, in O(1), by
    /// exchanging the two buffer handles; no cell data is copied.
    pub fn swap(&mut self)
        requires
            old(self).wf(),
        ensures
            final(self).wf(),
            final(self)@.width == old(self)@.width,
            final(self)@.height == old(self)@.height,
            final(self)@.cur == old(self)@.next,
            final(self)@.next == old(self)@.cur,
    {
        core::mem::swap(&mut self.cur, &mut self.next);
    }

    /// True exactly when the current-generation cell at the in-range
    /// position `(cx, cy)` is alive.
    fn alive_at(&self, cx: usize, cy: usize) -> (b: bool)
        requires
            self.wf(),
            cx < self@.width,
            cy < self@.height,
        ensures
            b == (cell_at(self@.cur, self@.width, self@.height, cx as int, cy as int) is Alive),
    {
        proof {
            lemma_flat_index(self@.width, self@.height, cx as int, cy as int);
        }
        let _len = self.cur.len();
        let idx = cy * self.width + cx;
        matches!(self.cur[idx], State::Alive)
    }

    /// Count the alive cells among the 8 toroidal neighbors of the in-range
    /// position `(x, y)`, read from the current generation only.
    fn count_neighbors(&self, x: usize, y: usize) -> (n: u8)
        requires
            self.wf(),
            x < self@.width,
            y < self@.height,
        ensures
            n as int == neighbor_count(self@.cur, self@.width, self@.height, x as int, y as int),
            n <= 8,
    {
        let xl = wrap_dec(x, self.width);
        let xr = wrap_inc(x, self.width);
        let yu = wrap_dec(y, self.height);
        let yd = wrap_inc(y, self.height);
        proof {
            let w = self@.width;
            let h = self@.height;
            lemma_mod_small(x as int, w);
            lemma_mod_small(y as int, h);
            lemma_mod_small(xl as int, w);
            lemma_mod_small(xr as int, w);
            lemma_mod_small(yu as int, h);
            lemma_mod_small(yd as int, h);
        }
        let mut n: u8 = 0;
        if self.alive_at(xl, yu) {
            n = n + 1;
        }
        if self.alive_at(x, yu) {
            n = n + 1;
        }
        if self.alive_at(xr, yu) {
            n = n + 1;
        }
        if self.alive_at(xl, y) {
            n = n + 1;
        }
        if self.alive_at(xr, y) {
            n = n + 1;
        }
        if self.alive_at(xl, yd) {
            n = n + 1;
        }
        if self.alive_at(x, yd) {
            n = n + 1;
        }
        if self.alive_at(xr, yd) {
            n = n + 1;
        }
        n
    }

    /// Perform one full generation transition. For every cell in row-major
    /// order: count its alive neighbors among the 8 toroidal neighbors of
    /// the current generation, write the transition rule's result into the
    /// next generation, and emit one color token for the cell's current
    /// state. The buffers are then swapped, so the freshly computed
    /// generation is current when the call returns; the previous current
    /// generation survives unmodified as the new next buffer.
    ///
    /// Neighbor counts are read from the current generation only; the
    /// writes of the sweep go to the other buffer, so no cell's new state
    /// can influence another cell of the same sweep. On a degenerate grid
    /// (width or height 0) the sweep is a no-op and no token is emitted.
    pub fn step(&mut self) -> (tokens: Vec<Color>)
        requires
            old(self).wf(),
        ensures
            final(self).wf(),
            final(self)@.width == old(self)@.width,
            final(self)@.height == old(self)@.height,
            final(self)@.cur == next_generation(
                old(self)@.cur,
                old(self)@.width,
                old(self)@.height,
            ),
            final(self)@.next == old(self)@.cur,
            tokens@ == token_stream(old(self)@.cur),
    {
        let ghost g0 = self@.cur;
        let ghost wi = self@.width;
        let ghost hi = self@.height;
        let w = self.width;
        let h = self.height;
        let _total = self.cur.len();
        let mut tokens: Vec<Color> = Vec::new();
        let mut y: usize = 0;
        while y < h
            invariant
                self.wf(),
                self@.width == wi,
                self@.height == hi,
                w as int == wi,
                h as int == hi,
                self@.cur == g0,
                g0.len() == wi * hi,
                g0.len() <= usize::MAX,
                self@.next.len() == g0.len(),
                y <= h,
                tokens@.len() == y as int * wi,
                forall|i: int| 0 <= i < y as int * wi ==> tokens@[i] == color_of(g0[i]),
                forall|i: int|
                    0 <= i < y as int * wi ==> self@.next[i] == #[trigger] next_generation(
                        g0,
                        wi,
                        hi,
                    )[i],
            decreases h - y,
        {
            let mut x: usize = 0;
            while x < w
                invariant
                    self.wf(),
                    self@.width == wi,
                    self@.height == hi,
                    w as int == wi,
                    h as int == hi,
                    self@.cur == g0,
                    g0.len() == wi * hi,
                    g0.len() <= usize::MAX,
                    self@.next.len() == g0.len(),
                    y < h,
                    x <= w,
                    tokens@.len() == y as int * wi + x as int,
                    forall|i: int|
                        0 <= i < y as int * wi + x as int ==> tokens@[i] == color_of(g0[i]),
                    forall|i: int|
                        0 <= i < y as int * wi + x as int ==> self@.next[i]
                            == #[trigger] next_generation(g0, wi, hi)[i],
                decreases w - x,
            {
                proof {
                    lemma_flat_index(wi, hi, x as int, y as int);
                }
                let n = self.count_neighbors(x, y);
                let idx = y * w + x;
                let c = self.cur[idx];
                let nx = next_state(c, n);
                tokens.push(color_token(c));
                self.next.set(idx, nx);
                proof {
                    lemma_transition_wf(c, n as int);
                    assert(next_generation(g0, wi, hi)[idx as int] == transition(
                        g0[idx as int],
                        neighbor_count(g0, wi, hi, (idx as int) % wi, (idx as int) / wi),
                    ));
                }
                x = x + 1;
            }
            proof {
                assert((y as int + 1) * wi == y as int * wi + wi) by (nonlinear_arith);
            }
            y = y + 1;
        }
        proof {
            assert(hi * wi == wi * hi) by (nonlinear_arith);
            assert(tokens@ =~= token_stream(g0));
            assert(self@.next =~= next_generation(g0, wi, hi));
        }
        core::mem::swap(&mut self.cur, &mut self.next);
        tokens
    }
}

} // verus!
