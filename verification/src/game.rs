//! The grid, the neighbor counter, the initializer and the simulation clock.

use vstd::prelude::*;

use crate::cell::{Cell, CellState, CellType};
use crate::config::Config;
use crate::rng::{draw_index, draw_ratio};
use crate::rules::{draw_cell_draws, draws_admissible, next_cell, spec_next_cell, Draws};

verus! {

// ---------------------------------------------------------------------------
// Neighborhood generator
// ---------------------------------------------------------------------------

/// The offsets `(dx, dy_prev)` with this `dx` and `dy_prev` in
/// `[-radius, dy_end)`, excluding `(0, 0)`, in increasing `dy_prev` order.
pub open spec fn row_offsets_upto(radius: int, dx: int, dy_end: int) -> Seq<(isize, isize)>
    decreases dy_end + radius,
{
    if dy_end <= -radius {
        Seq::empty()
    } else {
        let prev = row_offsets_upto(radius, dx, dy_end - 1);
        if dx == 0 && dy_end - 1 == 0 {
            prev
        } else {
            prev.push((dx as isize, (dy_end - 1) as isize))
        }
    }
}

/// The offsets `(dx, dy)` with `dx` in `[-radius, dx_end)` and `dy` in
/// `[-radius, radius]`, excluding `(0, 0)`, ordered by `dx` and then `dy`.
pub open spec fn square_offsets_upto(radius: int, dx_end: int) -> Seq<(isize, isize)>
    decreases dx_end + radius,
{
    if dx_end <= -radius {
        Seq::empty()
    } else {
        square_offsets_upto(radius, dx_end - 1) + row_offsets_upto(radius, dx_end - 1, radius + 1)
    }
}

/// The full square neighborhood of the given radius: every `(dx, dy)` with
/// `dx, dy` in `[-radius, radius]` except `(0, 0)`, ordered by `dx`, then `dy`.
pub open spec fn ring_offsets(radius: int) -> Seq<(isize, isize)> {
    square_offsets_upto(radius, radius + 1)
}

/// All relative coordinates that count as "nearby" for the given radius: the
/// full square `[-radius, radius] x [-radius, radius]` without the center.
/// A radius of 0 yields an empty neighborhood.
pub fn generate_ring_offsets(radius: isize) -> (offsets: Vec<(isize, isize)>)
    requires
        0 <= radius < isize::MAX,
    ensures
        offsets@ == ring_offsets(radius as int),
{
    let mut offsets: Vec<(isize, isize)> = Vec::new();
    let mut dx: isize = -radius;
    assert(offsets@ =~= square_offsets_upto(radius as int, -radius as int));
    while dx <= radius
        invariant
            0 <= radius < isize::MAX,
            -radius <= dx <= radius + 1,
            offsets@ == square_offsets_upto(radius as int, dx as int),
        decreases radius + 1 - dx,
    {
        let mut dy: isize = -radius;
        assert(offsets@ =~= square_offsets_upto(radius as int, dx as int) + row_offsets_upto(
            radius as int,
            dx as int,
            -radius as int,
        ));
        while dy <= radius
            invariant
                0 <= radius < isize::MAX,
                -radius <= dx <= radius,
                -radius <= dy <= radius + 1,
                offsets@ == square_offsets_upto(radius as int, dx as int) + row_offsets_upto(
                    radius as int,
                    dx as int,
                    dy as int,
                ),
            decreases radius + 1 - dy,
        {
            if !(dx == 0 && dy == 0) {
                offsets.push((dx, dy));
            }
            assert(offsets@ =~= square_offsets_upto(radius as int, dx as int) + row_offsets_upto(
                radius as int,
                dx as int,
                dy as int + 1,
            ));
            dy = dy + 1;
        }
        assert(offsets@ =~= square_offsets_upto(radius as int, dx as int + 1));
        dx = dx + 1;
    }
    offsets
}

proof fn lemma_row_offsets_membership(radius: int, dx: int, dy_end: int, a: isize, b: isize)
    requires
        0 <= radius < isize::MAX,
        -radius <= dx <= radius,
        dy_end <= radius + 1,
    ensures
        row_offsets_upto(radius, dx, dy_end).contains((a, b)) <==> (a == dx && -radius <= b
            < dy_end && !(dx == 0 && b == 0)),
    decreases dy_end + radius,
{
    if dy_end <= -radius {
        assert(row_offsets_upto(radius, dx, dy_end).len() == 0);
    } else {
        lemma_row_offsets_membership(radius, dx, dy_end - 1, a, b);
        let prev = row_offsets_upto(radius, dx, dy_end - 1);
        let row = row_offsets_upto(radius, dx, dy_end);
        if dx == 0 && dy_end - 1 == 0 {
        } else {
            let e = (dx as isize, (dy_end - 1) as isize);
            assert(row == prev.push(e));
            if prev.contains((a, b)) {
                let i = choose|i: int| 0 <= i < prev.len() && prev[i] == (a, b);
                assert(row[i] == (a, b));
                assert(row.contains((a, b)));
            }
            if (a, b) == e {
                assert(row[row.len() - 1] == (a, b));
                assert(row.contains((a, b)));
            }
            if row.contains((a, b)) {
                let i = choose|i: int| 0 <= i < row.len() && row[i] == (a, b);
                if i < prev.len() {
                    assert(prev[i] == (a, b));
                    assert(prev.contains((a, b)));
                } else {
                    assert((a, b) == e);
                }
            }
        }
    }
}

proof fn lemma_square_offsets_membership(radius: int, dx_end: int, a: isize, b: isize)
    requires
        0 <= radius < isize::MAX,
        dx_end <= radius + 1,
    ensures
        square_offsets_upto(radius, dx_end).contains((a, b)) <==> (-radius <= a < dx_end
            && -radius <= b <= radius && !(a == 0 && b == 0)),
    decreases dx_end + radius,
{
    if dx_end <= -radius {
        assert(square_offsets_upto(radius, dx_end).len() == 0);
    } else {
        lemma_square_offsets_membership(radius, dx_end - 1, a, b);
        lemma_row_offsets_membership(radius, dx_end - 1, radius + 1, a, b);
        let s1 = square_offsets_upto(radius, dx_end - 1);
        let s2 = row_offsets_upto(radius, dx_end - 1, radius + 1);
        let sq = square_offsets_upto(radius, dx_end);
        assert(sq == s1 + s2);
        if s1.contains((a, b)) {
            let i = choose|i: int| 0 <= i < s1.len() && s1[i] == (a, b);
            assert(sq[i] == (a, b));
            assert(sq.contains((a, b)));
        }
        if s2.contains((a, b)) {
            let i = choose|i: int| 0 <= i < s2.len() && s2[i] == (a, b);
            assert(sq[s1.len() + i] == (a, b));
            assert(sq.contains((a, b)));
        }
        if sq.contains((a, b)) {
            let i = choose|i: int| 0 <= i < sq.len() && sq[i] == (a, b);
            if i < s1.len() {
                assert(s1[i] == (a, b));
                assert(s1.contains((a, b)));
            } else {
                assert(s2[i - s1.len()] == (a, b));
                assert(s2.contains((a, b)));
            }
        }
    }
}

/// Law: the generated neighborhood holds exactly the offsets of the full
/// square of the given radius without the center — no more, no fewer.
pub proof fn lemma_ring_offsets_complete(radius: int, a: isize, b: isize)
    requires
        0 <= radius < isize::MAX,
    ensures
        ring_offsets(radius).contains((a, b)) <==> (-radius <= a <= radius && -radius <= b
            <= radius && !(a == 0 && b == 0)),
{
    lemma_square_offsets_membership(radius, radius + 1, a, b);
}

proof fn lemma_row_offsets_len(radius: int, dx: int, dy_end: int)
    requires
        0 <= radius,
    ensures
        row_offsets_upto(radius, dx, dy_end).len() == if dy_end <= -radius {
            0int
        } else {
            (dy_end + radius) - (if dx == 0 && dy_end > 0 {
                1int
            } else {
                0int
            })
        },
    decreases dy_end + radius,
{
    if dy_end > -radius {
        lemma_row_offsets_len(radius, dx, dy_end - 1);
    }
}

proof fn lemma_square_offsets_len(radius: int, dx_end: int)
    requires
        0 <= radius,
    ensures
        square_offsets_upto(radius, dx_end).len() == if dx_end <= -radius {
            0int
        } else {
            (dx_end + radius) * (2 * radius + 1) - (if dx_end > 0 {
                1int
            } else {
                0int
            })
        },
    decreases dx_end + radius,
{
    if dx_end > -radius {
        lemma_square_offsets_len(radius, dx_end - 1);
        lemma_row_offsets_len(radius, dx_end - 1, radius + 1);
        if dx_end - 1 <= -radius {
            assert((dx_end + radius) * (2 * radius + 1) == 2 * radius + 1) by (nonlinear_arith)
                requires
                    dx_end + radius == 1,
            ;
        } else {
            assert((dx_end - 1 + radius) * (2 * radius + 1) + (2 * radius + 1) == (dx_end
                + radius) * (2 * radius + 1)) by (nonlinear_arith);
        }
    }
}

/// Law: the neighborhood of radius `r` holds exactly `(2r + 1)^2 - 1`
/// offsets.
pub proof fn lemma_ring_offsets_len(radius: int)
    requires
        0 <= radius,
    ensures
        ring_offsets(radius).len() == (2 * radius + 1) * (2 * radius + 1) - 1,
{
    lemma_square_offsets_len(radius, radius + 1);
    assert((radius + 1 + radius) * (2 * radius + 1) == (2 * radius + 1) * (2 * radius + 1))
        by (nonlinear_arith);
}

// ---------------------------------------------------------------------------
// The grid model
// ---------------------------------------------------------------------------

/// The cell of grid `g` at column `x`, row `y`.
pub open spec fn cell_at(g: Seq<Vec<Cell>>, x: int, y: int) -> Cell {
    g[y]@[x]
}

/// A well-formed grid of the given dimensions: one row per `y`, one cell per
/// `x` in each row, and every cell carries its own position.
pub open spec fn grid_wf(g: Seq<Vec<Cell>>, w: int, h: int) -> bool {
    &&& g.len() == h
    &&& forall|y: int| 0 <= y < h ==> (#[trigger] g[y])@.len() == w
    &&& forall|x: int, y: int|
        0 <= x < w && 0 <= y < h ==> (#[trigger] cell_at(g, x, y)).x == x && cell_at(g, x, y).y
            == y
}

/// Every cell of the grid is dead.
pub open spec fn all_dead(g: Seq<Vec<Cell>>, w: int, h: int) -> bool {
    forall|x: int, y: int|
        0 <= x < w && 0 <= y < h ==> (#[trigger] cell_at(g, x, y)).state is Dead
}

// ---------------------------------------------------------------------------
// Neighbor counter
// ---------------------------------------------------------------------------

/// Whether offset number `k` of `offs` reaches, from `(x, y)`, a live in-range
/// neighbor of the species selected by `prey`. Candidates outside
/// `[0, w) x [0, h)` are skipped, never wrapped around.
pub open spec fn neighbor_contributes(
    g: Seq<Vec<Cell>>,
    w: int,
    h: int,
    offs: Seq<(isize, isize)>,
    x: int,
    y: int,
    k: int,
    prey: bool,
) -> bool {
    let nx = x + offs[k].0;
    let ny = y + offs[k].1;
    &&& 0 <= nx < w
    &&& 0 <= ny < h
    &&& cell_at(g, nx, ny).state is Alive
    &&& if prey {
        cell_at(g, nx, ny).kind is Prey
    } else {
        cell_at(g, nx, ny).kind is Predetor
    }
}

/// How many of the first `n` offsets contribute a live neighbor of the
/// selected species.
pub open spec fn count_upto(
    g: Seq<Vec<Cell>>,
    w: int,
    h: int,
    offs: Seq<(isize, isize)>,
    x: int,
    y: int,
    n: int,
    prey: bool,
) -> nat
    decreases n,
{
    if n <= 0 {
        0
    } else {
        count_upto(g, w, h, offs, x, y, n - 1, prey) + if neighbor_contributes(
            g,
            w,
            h,
            offs,
            x,
            y,
            n - 1,
            prey,
        ) {
            1nat
        } else {
            0nat
        }
    }
}

/// The live prey neighbors of `(x, y)` over the whole neighborhood.
pub open spec fn prey_count(
    g: Seq<Vec<Cell>>,
    w: int,
    h: int,
    offs: Seq<(isize, isize)>,
    x: int,
    y: int,
) -> nat {
    count_upto(g, w, h, offs, x, y, offs.len() as int, true)
}

/// The live predator neighbors of `(x, y)` over the whole neighborhood.
pub open spec fn predator_count(
    g: Seq<Vec<Cell>>,
    w: int,
    h: int,
    offs: Seq<(isize, isize)>,
    x: int,
    y: int,
) -> nat {
    count_upto(g, w, h, offs, x, y, offs.len() as int, false)
}

proof fn lemma_count_upto_bounded(
    g: Seq<Vec<Cell>>,
    w: int,
    h: int,
    offs: Seq<(isize, isize)>,
    x: int,
    y: int,
    n: int,
)
    requires
        0 <= n,
    ensures
        count_upto(g, w, h, offs, x, y, n, true) + count_upto(g, w, h, offs, x, y, n, false)
            <= n,
    decreases n,
{
    if n > 0 {
        lemma_count_upto_bounded(g, w, h, offs, x, y, n - 1);
    }
}

/// Law: the two neighbor counts of a cell never exceed the neighborhood size
/// together; out-of-range candidates are excluded, not wrapped.
pub proof fn lemma_neighbor_count_bounded(
    g: Seq<Vec<Cell>>,
    w: int,
    h: int,
    offs: Seq<(isize, isize)>,
    x: int,
    y: int,
)
    ensures
        prey_count(g, w, h, offs, x, y) + predator_count(g, w, h, offs, x, y) <= offs.len(),
{
    lemma_count_upto_bounded(g, w, h, offs, x, y, offs.len() as int);
}

proof fn lemma_count_upto_reads_only_in_range(
    g: Seq<Vec<Cell>>,
    g2: Seq<Vec<Cell>>,
    w: int,
    h: int,
    offs: Seq<(isize, isize)>,
    x: int,
    y: int,
    n: int,
    prey: bool,
)
    requires
        0 <= n,
        forall|ax: int, ay: int|
            0 <= ax < w && 0 <= ay < h ==> #[trigger] cell_at(g, ax, ay) == cell_at(g2, ax, ay),
    ensures
        count_upto(g, w, h, offs, x, y, n, prey) == count_upto(g2, w, h, offs, x, y, n, prey),
    decreases n,
{
    if n > 0 {
        lemma_count_upto_reads_only_in_range(g, g2, w, h, offs, x, y, n - 1, prey);
        let nx = x + offs[n - 1].0;
        let ny = y + offs[n - 1].1;
        if 0 <= nx < w && 0 <= ny < h {
            assert(cell_at(g, nx, ny) == cell_at(g2, nx, ny));
        }
    }
}

/// Law: the neighbor counts are a function of the in-range cells alone — the
/// counter reads no coordinate outside `[0, w) x [0, h)`. Two grids that
/// agree on every in-range cell yield the same counts, whatever either holds
/// elsewhere.
pub proof fn lemma_count_reads_only_in_range(
    g: Seq<Vec<Cell>>,
    g2: Seq<Vec<Cell>>,
    w: int,
    h: int,
    offs: Seq<(isize, isize)>,
    x: int,
    y: int,
)
    requires
        forall|ax: int, ay: int|
            0 <= ax < w && 0 <= ay < h ==> #[trigger] cell_at(g, ax, ay) == cell_at(g2, ax, ay),
    ensures
        prey_count(g, w, h, offs, x, y) == prey_count(g2, w, h, offs, x, y),
        predator_count(g, w, h, offs, x, y) == predator_count(g2, w, h, offs, x, y),
{
    lemma_count_upto_reads_only_in_range(g, g2, w, h, offs, x, y, offs.len() as int, true);
    lemma_count_upto_reads_only_in_range(g, g2, w, h, offs, x, y, offs.len() as int, false);
}

proof fn lemma_all_dead_count_upto(
    g: Seq<Vec<Cell>>,
    w: int,
    h: int,
    offs: Seq<(isize, isize)>,
    x: int,
    y: int,
    n: int,
    prey: bool,
)
    requires
        all_dead(g, w, h),
        0 <= n,
    ensures
        count_upto(g, w, h, offs, x, y, n, prey) == 0,
    decreases n,
{
    if n > 0 {
        lemma_all_dead_count_upto(g, w, h, offs, x, y, n - 1, prey);
    }
}

/// Law: in an all-dead grid every neighbor count is zero.
pub proof fn lemma_all_dead_counts(
    g: Seq<Vec<Cell>>,
    w: int,
    h: int,
    offs: Seq<(isize, isize)>,
    x: int,
    y: int,
)
    requires
        all_dead(g, w, h),
    ensures
        prey_count(g, w, h, offs, x, y) == 0,
        predator_count(g, w, h, offs, x, y) == 0,
{
    lemma_all_dead_count_upto(g, w, h, offs, x, y, offs.len() as int, true);
    lemma_all_dead_count_upto(g, w, h, offs, x, y, offs.len() as int, false);
}

// ---------------------------------------------------------------------------
// Game state: the double-buffered grid and the telemetry counters
// ---------------------------------------------------------------------------

/// One buffer of the simulation: a grid plus its dimensions, the neighborhood
/// offsets it is stepped with, the live-species tallies and the generation
/// counter.
#[derive(Debug, Clone)]
pub struct GameState {
    pub h: usize,
    pub w: usize,
    pub map: Vec<Vec<Cell>>,
    pub offsets: Vec<(isize, isize)>,
    pub preys: usize,
    pub predators: usize,
    pub generation: usize,
}

impl GameState {
    pub open spec fn wf(self) -> bool {
        grid_wf(self.map@, self.w as int, self.h as int)
    }

    /// Replaces the map by a fresh all-dead grid of the state's dimensions,
    /// each cell carrying its own position.
    pub fn gen_empty_map(state: &mut GameState)
        ensures
            final(state).wf(),
            final(state).h == old(state).h,
            final(state).w == old(state).w,
            final(state).offsets == old(state).offsets,
            final(state).preys == old(state).preys,
            final(state).predators == old(state).predators,
            final(state).generation == old(state).generation,
            all_dead(final(state).map@, old(state).w as int, old(state).h as int),
            forall|x: int, y: int|
                0 <= x < old(state).w && 0 <= y < old(state).h ==> cell_at(
                    final(state).map@,
                    x,
                    y,
                ) == dead_cell_at(x, y),
    {
        let w = state.w;
        let h = state.h;
        let mut map: Vec<Vec<Cell>> = Vec::new();
        let mut y: usize = 0;
        while y < h
            invariant
                y <= h,
                map@.len() == y,
                forall|yy: int| 0 <= yy < y ==> (#[trigger] map@[yy])@.len() == w,
                forall|xx: int, yy: int|
                    0 <= xx < w && 0 <= yy < y ==> cell_at(map@, xx, yy) == (Cell {
                        x: xx as usize,
                        y: yy as usize,
                        state: CellState::Dead,
                        kind: CellType::Prey,
                    }),
            decreases h - y,
        {
            let mut row: Vec<Cell> = Vec::new();
            let mut x: usize = 0;
            while x < w
                invariant
                    x <= w,
                    row@.len() == x,
                    forall|xx: int|
                        0 <= xx < x ==> row@[xx] == (Cell {
                            x: xx as usize,
                            y: y as usize,
                            state: CellState::Dead,
                            kind: CellType::Prey,
                        }),
                decreases w - x,
            {
                row.push(Cell::new(x, y, CellState::Dead, CellType::Prey));
                x = x + 1;
            }
            let ghost m0 = map@;
            let ghost r0 = row@;
            map.push(row);
            proof {
                assert forall|xx: int, yy: int|
                    0 <= xx < w && 0 <= yy < y + 1 implies cell_at(map@, xx, yy) == (Cell {
                    x: xx as usize,
                    y: yy as usize,
                    state: CellState::Dead,
                    kind: CellType::Prey,
                }) by {
                    if yy < y {
                        assert(map@[yy] == m0[yy]);
                        assert(cell_at(m0, xx, yy) == (Cell {
                            x: xx as usize,
                            y: yy as usize,
                            state: CellState::Dead,
                            kind: CellType::Prey,
                        }));
                    } else {
                        assert(map@[yy]@ == r0);
                    }
                }
            }
            y = y + 1;
        }
        state.map = map;
    }

    /// A cleared state for the given configuration: an all-dead grid, the
    /// configuration's neighborhood offsets, zero tallies, generation zero.
    pub fn new(config: &Config) -> (s: GameState)
        ensures
            s.wf(),
            s.w == config.w,
            s.h == config.h,
            s.offsets@ == config.offsets@,
            s.preys == 0,
            s.predators == 0,
            s.generation == 0,
            all_dead(s.map@, config.w as int, config.h as int),
            forall|x: int, y: int|
                0 <= x < config.w && 0 <= y < config.h ==> cell_at(s.map@, x, y) == dead_cell_at(x, y),
    {
        let mut offsets: Vec<(isize, isize)> = Vec::new();
        let mut i: usize = 0;
        while i < config.offsets.len()
            invariant
                i <= config.offsets@.len(),
                offsets@ == config.offsets@.take(i as int),
            decreases config.offsets@.len() - i,
        {
            offsets.push(config.offsets[i]);
            assert(offsets@ =~= config.offsets@.take(i as int + 1));
            i = i + 1;
        }
        assert(offsets@ =~= config.offsets@);
        let mut state = GameState {
            map: Vec::new(),
            w: config.w,
            h: config.h,
            offsets,
            preys: 0,
            predators: 0,
            generation: 0,
        };
        GameState::gen_empty_map(&mut state);
        state
    }

    /// Writes one cell at its own position, leaving everything else
    /// untouched.
    fn set_cell(state: &mut GameState, x: usize, y: usize, c: Cell)
        requires
            old(state).wf(),
            x < old(state).w,
            y < old(state).h,
            c.x == x,
            c.y == y,
        ensures
            final(state).wf(),
            final(state).h == old(state).h,
            final(state).w == old(state).w,
            final(state).offsets == old(state).offsets,
            final(state).preys == old(state).preys,
            final(state).predators == old(state).predators,
            final(state).generation == old(state).generation,
            cell_at(final(state).map@, x as int, y as int) == c,
            forall|xx: int, yy: int|
                0 <= xx < old(state).w && 0 <= yy < old(state).h && !(xx == x && yy == y)
                    ==> cell_at(final(state).map@, xx, yy) == cell_at(old(state).map@, xx, yy),
    {
        let ghost g0 = state.map@;
        state.map[y][x] = c;
        proof {
            assert(state.map@[y as int]@ == g0[y as int]@.update(x as int, c));
            assert(cell_at(state.map@, x as int, y as int) == c);
            assert forall|xx: int, yy: int|
                0 <= xx < state.w && 0 <= yy < state.h && !(xx == x && yy == y) implies cell_at(
                state.map@,
                xx,
                yy,
            ) == cell_at(g0, xx, yy) by {
                if yy == y {
                    assert(state.map@[yy]@[xx] == g0[yy]@[xx]);
                } else {
                    assert(state.map@[yy] == g0[yy]);
                }
            }
            assert forall|yy: int| 0 <= yy < state.h implies (#[trigger] state.map@[yy])@.len()
                == state.w by {
                if yy != y {
                    assert(state.map@[yy] == g0[yy]);
                }
            }
            assert forall|xx: int, yy: int|
                0 <= xx < state.w && 0 <= yy < state.h implies (#[trigger] cell_at(
                state.map@,
                xx,
                yy,
            )).x == xx && cell_at(state.map@, xx, yy).y == yy by {
                if !(xx == x && yy == y) {
                    assert(cell_at(state.map@, xx, yy) == cell_at(g0, xx, yy));
                    assert(cell_at(g0, xx, yy).x == xx && cell_at(g0, xx, yy).y == yy);
                }
            }
        }
    }

    /// Seeds the grid with clustered random populations: `population` times,
    /// pick a uniformly random center, then mark every cell of the square of
    /// the configured cluster size around it — clipped to the grid — alive
    /// with the cluster density, choosing the predator species with the
    /// predator rate. Clusters may overlap; the last write wins. Beside the
    /// per-cell account, [`seeded_by`] ties the result to the drawn centers:
    /// changes are confined to their squares, and a full density fills every
    /// square with newborns.
    pub fn gen_clustered_random_map(
        state: &mut GameState,
        config: &Config,
        rng: &mut rand::rngs::StdRng,
    )
        requires
            old(state).wf(),
            old(state).w == config.w,
            old(state).h == config.h,
            config.cluster_density.wf(),
            config.predetor_rate.wf(),
            config.w > 0,
            config.h > 0,
        ensures
            final(state).wf(),
            final(state).h == old(state).h,
            final(state).w == old(state).w,
            final(state).offsets == old(state).offsets,
            final(state).preys == old(state).preys,
            final(state).predators == old(state).predators,
            final(state).generation == old(state).generation,
            forall|x: int, y: int|
                0 <= x < config.w && 0 <= y < config.h ==> unchanged_or_seeded(
                    *config,
                    cell_at(old(state).map@, x, y),
                    #[trigger] cell_at(final(state).map@, x, y),
                    x,
                    y,
                ),
            exists|centers: Seq<(int, int)>|
                #[trigger] seeded_by(*config, old(state).map@, final(state).map@, centers),
    {
        let w = state.w;
        let h = state.h;
        let cs = config.cluster_size;
        let ghost mut centers: Seq<(int, int)> = Seq::empty();
        let mut p: usize = 0;
        while p < config.population
            invariant
                state.wf(),
                state.w == w,
                state.h == h,
                w == config.w,
                h == config.h,
                0 < w,
                0 < h,
                config.cluster_density.wf(),
                config.predetor_rate.wf(),
                cs == config.cluster_size,
                state.offsets == old(state).offsets,
                state.preys == old(state).preys,
                state.predators == old(state).predators,
                state.generation == old(state).generation,
                p <= config.population,
                centers.len() == p,
                forall|i: int|
                    0 <= i < centers.len() ==> 0 <= (#[trigger] centers[i]).0 < config.w && 0
                        <= centers[i].1 < config.h,
                forall|x: int, y: int|
                    0 <= x < config.w && 0 <= y < config.h ==> unchanged_or_seeded(
                        *config,
                        cell_at(old(state).map@, x, y),
                        #[trigger] cell_at(state.map@, x, y),
                        x,
                        y,
                    ),
                forall|x: int, y: int|
                    0 <= x < config.w && 0 <= y < config.h && #[trigger] cell_at(state.map@, x, y)
                        != cell_at(old(state).map@, x, y) ==> exists|i: int|
                        0 <= i < centers.len() && #[trigger] in_cluster_square(
                            centers[i].0,
                            centers[i].1,
                            config.cluster_size as int,
                            x,
                            y,
                        ),
                config.cluster_density.num == config.cluster_density.den ==> forall|
                    i: int,
                    x: int,
                    y: int,
                |
                    0 <= i < centers.len() && 0 <= x < config.w && 0 <= y < config.h
                        && #[trigger] in_cluster_square(
                        centers[i].0,
                        centers[i].1,
                        config.cluster_size as int,
                        x,
                        y,
                    ) ==> cell_at(state.map@, x, y).state == CellState::Alive(1usize),
            decreases config.population - p,
        {
            let center_x = draw_index(rng, w);
            let center_y = draw_index(rng, h);
            let ghost centers0 = centers;
            proof {
                centers = centers.push((center_x as int, center_y as int));
                assert(centers[centers.len() - 1] == (center_x as int, center_y as int));
                assert forall|i: int|
                    0 <= i < centers.len() implies 0 <= (#[trigger] centers[i]).0 < config.w && 0
                    <= centers[i].1 < config.h by {
                    if i < centers0.len() {
                        assert(centers[i] == centers0[i]);
                    }
                }
                assert forall|ax: int, ay: int|
                    0 <= ax < config.w && 0 <= ay < config.h && #[trigger] cell_at(
                        state.map@,
                        ax,
                        ay,
                    ) != cell_at(old(state).map@, ax, ay) implies exists|i: int|
                    0 <= i < centers.len() && #[trigger] in_cluster_square(
                        centers[i].0,
                        centers[i].1,
                        config.cluster_size as int,
                        ax,
                        ay,
                    ) by {
                    let i = choose|i: int|
                        0 <= i < centers0.len() && #[trigger] in_cluster_square(
                            centers0[i].0,
                            centers0[i].1,
                            config.cluster_size as int,
                            ax,
                            ay,
                        );
                    assert(centers[i] == centers0[i]);
                    assert(in_cluster_square(
                        centers[i].0,
                        centers[i].1,
                        config.cluster_size as int,
                        ax,
                        ay,
                    ));
                }
                if config.cluster_density.num == config.cluster_density.den {
                    assert forall|i: int, ax: int, ay: int|
                        0 <= i < centers.len() - 1 && 0 <= ax < config.w && 0 <= ay < config.h
                            && #[trigger] in_cluster_square(
                            centers[i].0,
                            centers[i].1,
                            config.cluster_size as int,
                            ax,
                            ay,
                        ) implies cell_at(state.map@, ax, ay).state == CellState::Alive(
                        1usize,
                    ) by {
                        assert(centers[i] == centers0[i]);
                        assert(in_cluster_square(
                            centers0[i].0,
                            centers0[i].1,
                            config.cluster_size as int,
                            ax,
                            ay,
                        ));
                    }
                }
            }
            let x_lo = if center_x >= cs {
                center_x - cs
            } else {
                0
            };
            let x_hi = if w - 1 - center_x <= cs {
                w - 1
            } else {
                center_x + cs
            };
            let y_lo = if center_y >= cs {
                center_y - cs
            } else {
                0
            };
            let y_hi = if h - 1 - center_y <= cs {
                h - 1
            } else {
                center_y + cs
            };
            let mut x = x_lo;
            while x <= x_hi
                invariant
                    state.wf(),
                    state.w == w,
                    state.h == h,
                    w == config.w,
                    h == config.h,
                    0 < w,
                    0 < h,
                    config.cluster_density.wf(),
                    config.predetor_rate.wf(),
                    cs == config.cluster_size,
                    state.offsets == old(state).offsets,
                    state.preys == old(state).preys,
                    state.predators == old(state).predators,
                    state.generation == old(state).generation,
                    x_hi < w,
                    y_hi < h,
                    y_lo <= y_hi,
                    x_lo <= x <= x_hi + 1,
                    x_lo as int == clip_lo(center_x as int, cs as int),
                    x_hi as int == clip_hi(center_x as int, cs as int, w as int),
                    y_lo as int == clip_lo(center_y as int, cs as int),
                    y_hi as int == clip_hi(center_y as int, cs as int, h as int),
                    centers.len() >= 1,
                    centers[centers.len() - 1] == (center_x as int, center_y as int),
                    forall|i: int|
                        0 <= i < centers.len() ==> 0 <= (#[trigger] centers[i]).0 < config.w && 0
                            <= centers[i].1 < config.h,
                    forall|xx: int, yy: int|
                        0 <= xx < config.w && 0 <= yy < config.h ==> unchanged_or_seeded(
                            *config,
                            cell_at(old(state).map@, xx, yy),
                            #[trigger] cell_at(state.map@, xx, yy),
                            xx,
                            yy,
                        ),
                    forall|ax: int, ay: int|
                        0 <= ax < config.w && 0 <= ay < config.h && #[trigger] cell_at(
                            state.map@,
                            ax,
                            ay,
                        ) != cell_at(old(state).map@, ax, ay) ==> exists|i: int|
                            0 <= i < centers.len() && #[trigger] in_cluster_square(
                                centers[i].0,
                                centers[i].1,
                                config.cluster_size as int,
                                ax,
                                ay,
                            ),
                    config.cluster_density.num == config.cluster_density.den ==> forall|
                        i: int,
                        ax: int,
                        ay: int,
                    |
                        0 <= i < centers.len() - 1 && 0 <= ax < config.w && 0 <= ay < config.h
                            && #[trigger] in_cluster_square(
                            centers[i].0,
                            centers[i].1,
                            config.cluster_size as int,
                            ax,
                            ay,
                        ) ==> cell_at(state.map@, ax, ay).state == CellState::Alive(1usize),
                    config.cluster_density.num == config.cluster_density.den ==> forall|
                        ax: int,
                        ay: int,
                    |
                        x_lo <= ax < x && y_lo <= ay <= y_hi ==> #[trigger] cell_at(
                            state.map@,
                            ax,
                            ay,
                        ).state == CellState::Alive(1usize),
                decreases x_hi + 1 - x,
            {
                let mut yy = y_lo;
                while yy <= y_hi
                    invariant
                        state.wf(),
                        state.w == w,
                        state.h == h,
                        w == config.w,
                        h == config.h,
                        0 < w,
                        0 < h,
                        config.cluster_density.wf(),
                        config.predetor_rate.wf(),
                        cs == config.cluster_size,
                        state.offsets == old(state).offsets,
                        state.preys == old(state).preys,
                        state.predators == old(state).predators,
                        state.generation == old(state).generation,
                        x_hi < w,
                        y_hi < h,
                        x_lo <= x <= x_hi,
                        y_lo <= yy <= y_hi + 1,
                        x_lo as int == clip_lo(center_x as int, cs as int),
                        x_hi as int == clip_hi(center_x as int, cs as int, w as int),
                        y_lo as int == clip_lo(center_y as int, cs as int),
                        y_hi as int == clip_hi(center_y as int, cs as int, h as int),
                        centers.len() >= 1,
                        centers[centers.len() - 1] == (center_x as int, center_y as int),
                        forall|i: int|
                            0 <= i < centers.len() ==> 0 <= (#[trigger] centers[i]).0 < config.w
                                && 0 <= centers[i].1 < config.h,
                        forall|ax: int, ay: int|
                            0 <= ax < config.w && 0 <= ay < config.h ==> unchanged_or_seeded(
                                *config,
                                cell_at(old(state).map@, ax, ay),
                                #[trigger] cell_at(state.map@, ax, ay),
                                ax,
                                ay,
                            ),
                        forall|ax: int, ay: int|
                            0 <= ax < config.w && 0 <= ay < config.h && #[trigger] cell_at(
                                state.map@,
                                ax,
                                ay,
                            ) != cell_at(old(state).map@, ax, ay) ==> exists|i: int|
                                0 <= i < centers.len() && #[trigger] in_cluster_square(
                                    centers[i].0,
                                    centers[i].1,
                                    config.cluster_size as int,
                                    ax,
                                    ay,
                                ),
                        config.cluster_density.num == config.cluster_density.den ==> forall|
                            i: int,
                            ax: int,
                            ay: int,
                        |
                            0 <= i < centers.len() - 1 && 0 <= ax < config.w && 0 <= ay < config.h
                                && #[trigger] in_cluster_square(
                                centers[i].0,
                                centers[i].1,
                                config.cluster_size as int,
                                ax,
                                ay,
                            ) ==> cell_at(state.map@, ax, ay).state == CellState::Alive(1usize),
                        config.cluster_density.num == config.cluster_density.den ==> forall|
                            ax: int,
                            ay: int,
                        |
                            x_lo <= ax < x && y_lo <= ay <= y_hi ==> #[trigger] cell_at(
                                state.map@,
                                ax,
                                ay,
                            ).state == CellState::Alive(1usize),
                        config.cluster_density.num == config.cluster_density.den ==> forall|
                            ay: int,
                        |
                            y_lo <= ay < yy ==> #[trigger] cell_at(
                                state.map@,
                                x as int,
                                ay,
                            ).state == CellState::Alive(1usize),
                    decreases y_hi + 1 - yy,
                {
                    let alive = draw_ratio(
                        rng,
                        config.cluster_density.num,
                        config.cluster_density.den,
                    );
                    if alive {
                        let is_pred = draw_ratio(
                            rng,
                            config.predetor_rate.num,
                            config.predetor_rate.den,
                        );
                        let newc = if is_pred {
                            Cell::prededator(x, yy, CellState::Alive(1))
                        } else {
                            Cell::prey(x, yy, CellState::Alive(1))
                        };
                        let ghost g_prev = state.map@;
                        GameState::set_cell(state, x, yy, newc);
                        proof {
                            assert(cell_at(state.map@, x as int, yy as int) == newc);
                            assert forall|ax: int, ay: int|
                                0 <= ax < config.w && 0 <= ay < config.h implies unchanged_or_seeded(
                                *config,
                                cell_at(old(state).map@, ax, ay),
                                #[trigger] cell_at(state.map@, ax, ay),
                                ax,
                                ay,
                            ) by {
                                if ax == x && ay == yy {
                                    assert(cell_at(state.map@, ax, ay) == newc);
                                } else {
                                    assert(cell_at(state.map@, ax, ay) == cell_at(
                                        g_prev,
                                        ax,
                                        ay,
                                    ));
                                    assert(unchanged_or_seeded(
                                        *config,
                                        cell_at(old(state).map@, ax, ay),
                                        cell_at(g_prev, ax, ay),
                                        ax,
                                        ay,
                                    ));
                                }
                            }
                            assert(in_cluster_square(
                                centers[centers.len() - 1].0,
                                centers[centers.len() - 1].1,
                                config.cluster_size as int,
                                x as int,
                                yy as int,
                            ));
                            assert forall|ax: int, ay: int|
                                0 <= ax < config.w && 0 <= ay < config.h && #[trigger] cell_at(
                                    state.map@,
                                    ax,
                                    ay,
                                ) != cell_at(old(state).map@, ax, ay) implies exists|i: int|
                                0 <= i < centers.len() && #[trigger] in_cluster_square(
                                    centers[i].0,
                                    centers[i].1,
                                    config.cluster_size as int,
                                    ax,
                                    ay,
                                ) by {
                                if !(ax == x && ay == yy) {
                                    assert(cell_at(state.map@, ax, ay) == cell_at(
                                        g_prev,
                                        ax,
                                        ay,
                                    ));
                                }
                            }
                            if config.cluster_density.num == config.cluster_density.den {
                                assert forall|i: int, ax: int, ay: int|
                                    0 <= i < centers.len() - 1 && 0 <= ax < config.w && 0 <= ay
                                        < config.h && #[trigger] in_cluster_square(
                                        centers[i].0,
                                        centers[i].1,
                                        config.cluster_size as int,
                                        ax,
                                        ay,
                                    ) implies cell_at(state.map@, ax, ay).state == CellState::Alive(
                                    1usize,
                                ) by {
                                    if !(ax == x && ay == yy) {
                                        assert(cell_at(state.map@, ax, ay) == cell_at(
                                            g_prev,
                                            ax,
                                            ay,
                                        ));
                                    }
                                }
                                assert forall|ax: int, ay: int|
                                    x_lo <= ax < x && y_lo <= ay <= y_hi implies #[trigger] cell_at(
                                    state.map@,
                                    ax,
                                    ay,
                                ).state == CellState::Alive(1usize) by {
                                    assert(cell_at(state.map@, ax, ay) == cell_at(
                                        g_prev,
                                        ax,
                                        ay,
                                    ));
                                }
                                assert forall|ay: int|
                                    y_lo <= ay < yy + 1 implies #[trigger] cell_at(
                                    state.map@,
                                    x as int,
                                    ay,
                                ).state == CellState::Alive(1usize) by {
                                    if ay < yy {
                                        assert(cell_at(state.map@, x as int, ay) == cell_at(
                                            g_prev,
                                            x as int,
                                            ay,
                                        ));
                                    } else {
                                        assert(cell_at(state.map@, x as int, ay) == newc);
                                    }
                                }
                            }
                        }
                    }
                    yy = yy + 1;
                }
                proof {
                    if config.cluster_density.num == config.cluster_density.den {
                        assert forall|ax: int, ay: int|
                            x_lo <= ax < x + 1 && y_lo <= ay <= y_hi implies #[trigger] cell_at(
                            state.map@,
                            ax,
                            ay,
                        ).state == CellState::Alive(1usize) by {
                            if ax == x {
                                assert(cell_at(state.map@, x as int, ay).state == CellState::Alive(
                                    1usize,
                                ));
                            }
                        }
                    }
                }
                x = x + 1;
            }
            proof {
                if config.cluster_density.num == config.cluster_density.den {
                    assert forall|i: int, ax: int, ay: int|
                        0 <= i < centers.len() && 0 <= ax < config.w && 0 <= ay < config.h
                            && #[trigger] in_cluster_square(
                            centers[i].0,
                            centers[i].1,
                            config.cluster_size as int,
                            ax,
                            ay,
                        ) implies cell_at(state.map@, ax, ay).state == CellState::Alive(
                        1usize,
                    ) by {
                        if i == centers.len() - 1 {
                            assert(centers[i] == (center_x as int, center_y as int));
                            assert(x_lo <= ax < x && y_lo <= ay <= y_hi);
                        }
                    }
                }
            }
            p = p + 1;
        }
        proof {
            assert(seeded_by(*config, old(state).map@, state.map@, centers));
        }
    }

    /// A freshly seeded state for the given configuration: a cleared grid
    /// populated by the clustered random initializer.
    pub fn init(config: &Config, rng: &mut rand::rngs::StdRng) -> (s: GameState)
        requires
            config.cluster_density.wf(),
            config.predetor_rate.wf(),
            config.w > 0,
            config.h > 0,
        ensures
            s.wf(),
            s.w == config.w,
            s.h == config.h,
            s.offsets@ == config.offsets@,
            s.preys == 0,
            s.predators == 0,
            s.generation == 0,
            forall|x: int, y: int|
                0 <= x < config.w && 0 <= y < config.h ==> unchanged_or_seeded(
                    *config,
                    dead_cell_at(x, y),
                    #[trigger] cell_at(s.map@, x, y),
                    x,
                    y,
                ),
            exists|centers: Seq<(int, int)>|
                #[trigger] seeded_from_empty(*config, s.map@, centers),
    {
        let mut state = GameState::new(config);
        let ghost g_empty = state.map@;
        GameState::gen_clustered_random_map(&mut state, config, rng);
        proof {
            let centers = choose|centers: Seq<(int, int)>|
                #[trigger] seeded_by(*config, g_empty, state.map@, centers);
            assert forall|x: int, y: int|
                0 <= x < config.w && 0 <= y < config.h && #[trigger] cell_at(state.map@, x, y)
                    != dead_cell_at(x, y) implies exists|i: int|
                0 <= i < centers.len() && #[trigger] in_cluster_square(
                    centers[i].0,
                    centers[i].1,
                    config.cluster_size as int,
                    x,
                    y,
                ) by {
                assert(cell_at(g_empty, x, y) == dead_cell_at(x, y));
            }
            assert(seeded_from_empty(*config, state.map@, centers));
        }
        state
    }
}

// ---------------------------------------------------------------------------
// The initializer
// ---------------------------------------------------------------------------

/// After seeding, a cell is either untouched or a newborn of this seeding
/// pass: alive with age 1, at its own position, of either species. The
/// degenerate rates are pinned: a zero cluster density seeds nothing, a zero
/// predator rate seeds only prey, a full one only predators.
pub open spec fn unchanged_or_seeded(cfg: Config, oldc: Cell, newc: Cell, x: int, y: int) -> bool {
    ||| newc == oldc
    ||| {
        &&& cfg.cluster_density.num > 0
        &&& newc.x == x
        &&& newc.y == y
        &&& newc.state == CellState::Alive(1usize)
        &&& (cfg.predetor_rate.num == 0 ==> newc.kind is Prey)
        &&& (cfg.predetor_rate.num == cfg.predetor_rate.den ==> newc.kind is Predetor)
    }
}

/// The dead default cell that a cleared grid holds at `(x, y)`.
pub open spec fn dead_cell_at(x: int, y: int) -> Cell {
    Cell { x: x as usize, y: y as usize, state: CellState::Dead, kind: CellType::Prey }
}

/// `(x, y)` lies in the square of half-side `s` around the center
/// `(cx, cy)`. The clipping to the grid comes from quantifying only over
/// in-range coordinates.
pub open spec fn in_cluster_square(cx: int, cy: int, s: int, x: int, y: int) -> bool {
    &&& cx - s <= x <= cx + s
    &&& cy - s <= y <= cy + s
}

/// The lower edge of a cluster square, clipped to the grid.
spec fn clip_lo(c: int, s: int) -> int {
    if c - s >= 0 {
        c - s
    } else {
        0
    }
}

/// The upper edge of a cluster square, clipped to a dimension of `limit`.
spec fn clip_hi(c: int, s: int, limit: int) -> int {
    if c + s <= limit - 1 {
        c + s
    } else {
        limit - 1
    }
}

/// The seeding pass over grid `g` drew exactly these cluster centers, one
/// per population count, each in range. Every cell that changed lies in the
/// clipped square of some center, and a full cluster density leaves every
/// in-range cell of every such square a newborn — so a pass that seeds
/// nothing cannot meet this with a positive population and a full density.
pub open spec fn seeded_by(
    cfg: Config,
    g: Seq<Vec<Cell>>,
    g2: Seq<Vec<Cell>>,
    centers: Seq<(int, int)>,
) -> bool {
    &&& centers.len() == cfg.population
    &&& forall|i: int|
        0 <= i < centers.len() ==> 0 <= (#[trigger] centers[i]).0 < cfg.w && 0 <= centers[i].1
            < cfg.h
    &&& forall|x: int, y: int|
        0 <= x < cfg.w && 0 <= y < cfg.h && #[trigger] cell_at(g2, x, y) != cell_at(g, x, y)
            ==> exists|i: int|
            0 <= i < centers.len() && #[trigger] in_cluster_square(
                centers[i].0,
                centers[i].1,
                cfg.cluster_size as int,
                x,
                y,
            )
    &&& cfg.cluster_density.num == cfg.cluster_density.den ==> forall|i: int, x: int, y: int|
        0 <= i < centers.len() && 0 <= x < cfg.w && 0 <= y < cfg.h && #[trigger] in_cluster_square(
            centers[i].0,
            centers[i].1,
            cfg.cluster_size as int,
            x,
            y,
        ) ==> cell_at(g2, x, y).state == CellState::Alive(1usize)
}

/// As [`seeded_by`], for a pass over a freshly cleared grid: every cell that
/// is not the dead default lies in the clipped square of some drawn center.
pub open spec fn seeded_from_empty(cfg: Config, g2: Seq<Vec<Cell>>, centers: Seq<(int, int)>) -> bool {
    &&& centers.len() == cfg.population
    &&& forall|i: int|
        0 <= i < centers.len() ==> 0 <= (#[trigger] centers[i]).0 < cfg.w && 0 <= centers[i].1
            < cfg.h
    &&& forall|x: int, y: int|
        0 <= x < cfg.w && 0 <= y < cfg.h && #[trigger] cell_at(g2, x, y) != dead_cell_at(x, y)
            ==> exists|i: int|
            0 <= i < centers.len() && #[trigger] in_cluster_square(
                centers[i].0,
                centers[i].1,
                cfg.cluster_size as int,
                x,
                y,
            )
    &&& cfg.cluster_density.num == cfg.cluster_density.den ==> forall|i: int, x: int, y: int|
        0 <= i < centers.len() && 0 <= x < cfg.w && 0 <= y < cfg.h && #[trigger] in_cluster_square(
            centers[i].0,
            centers[i].1,
            cfg.cluster_size as int,
            x,
            y,
        ) ==> cell_at(g2, x, y).state == CellState::Alive(1usize)
}

/// Law: the pinned clustering run — population 1, cluster size 0, full
/// cluster density, zero predator rate, over a cleared grid — leaves exactly
/// one live cell: a newborn prey at the drawn center. Every other cell is
/// still the dead default. Returns the center.
pub proof fn lemma_pinned_seed(cfg: Config, g2: Seq<Vec<Cell>>, centers: Seq<(int, int)>) -> (center: (int, int))
    requires
        cfg.population == 1,
        cfg.cluster_size == 0,
        cfg.cluster_density.num == cfg.cluster_density.den,
        cfg.predetor_rate.num == 0,
        seeded_from_empty(cfg, g2, centers),
        forall|x: int, y: int|
            0 <= x < cfg.w && 0 <= y < cfg.h ==> unchanged_or_seeded(
                cfg,
                dead_cell_at(x, y),
                #[trigger] cell_at(g2, x, y),
                x,
                y,
            ),
    ensures
        0 <= center.0 < cfg.w,
        0 <= center.1 < cfg.h,
        cell_at(g2, center.0, center.1) == (Cell {
            x: center.0 as usize,
            y: center.1 as usize,
            state: CellState::Alive(1usize),
            kind: CellType::Prey,
        }),
        forall|x: int, y: int|
            0 <= x < cfg.w && 0 <= y < cfg.h && !(x == center.0 && y == center.1)
                ==> #[trigger] cell_at(g2, x, y) == dead_cell_at(x, y),
{
    let cx = centers[0].0;
    let cy = centers[0].1;
    assert(in_cluster_square(centers[0].0, centers[0].1, cfg.cluster_size as int, cx, cy));
    assert(cell_at(g2, cx, cy).state == CellState::Alive(1usize));
    assert(cell_at(g2, cx, cy) != dead_cell_at(cx, cy));
    assert(unchanged_or_seeded(cfg, dead_cell_at(cx, cy), cell_at(g2, cx, cy), cx, cy));
    assert forall|x: int, y: int|
        0 <= x < cfg.w && 0 <= y < cfg.h && !(x == cx && y == cy) implies #[trigger] cell_at(
        g2,
        x,
        y,
    ) == dead_cell_at(x, y) by {
        if cell_at(g2, x, y) != dead_cell_at(x, y) {
            let i = choose|i: int|
                0 <= i < centers.len() && #[trigger] in_cluster_square(
                    centers[i].0,
                    centers[i].1,
                    cfg.cluster_size as int,
                    x,
                    y,
                );
            assert(i == 0);
            assert(x == cx && y == cy);
        }
    }
    (cx, cy)
}

// ---------------------------------------------------------------------------
// One generation step, as a relation between grids
// ---------------------------------------------------------------------------

/// The cell of `g2` at `(x, y)` is a legal next-generation image of `g`
/// there: some admissible set of draws takes the current cell, with its
/// neighbor counts read from `g`, to the cell of `g2`.
pub open spec fn cell_stepped(
    cfg: Config,
    offs: Seq<(isize, isize)>,
    g: Seq<Vec<Cell>>,
    g2: Seq<Vec<Cell>>,
    x: int,
    y: int,
) -> bool {
    exists|d: Draws|
        #[trigger] draws_admissible(cfg, d) && cell_at(g2, x, y) == spec_next_cell(
            cell_at(g, x, y),
            prey_count(g, cfg.w as int, cfg.h as int, offs, x, y) as int,
            predator_count(g, cfg.w as int, cfg.h as int, offs, x, y) as int,
            cfg,
            d,
        )
}

/// `g2` is a legal next generation of `g`: every cell in range was stepped by
/// the rule engine, reading only from `g`.
pub open spec fn step_rel(
    cfg: Config,
    offs: Seq<(isize, isize)>,
    g: Seq<Vec<Cell>>,
    g2: Seq<Vec<Cell>>,
) -> bool {
    forall|x: int, y: int|
        0 <= x < cfg.w && 0 <= y < cfg.h ==> #[trigger] cell_stepped(cfg, offs, g, g2, x, y)
}

/// Law: no spontaneous generation. An all-dead grid stepped under a zero
/// mutation rate stays all dead, whatever the predator rate and the rest of
/// the draws. (With a reproduction threshold of zero the rule chain would
/// read a dead cell's zero prey neighbors as "exactly the threshold" and
/// revive it, so that degenerate threshold is excluded.)
pub proof fn lemma_stasis(
    cfg: Config,
    offs: Seq<(isize, isize)>,
    g: Seq<Vec<Cell>>,
    g2: Seq<Vec<Cell>>,
)
    requires
        cfg.mutation.num == 0,
        cfg.reproduction > 0,
        all_dead(g, cfg.w as int, cfg.h as int),
        step_rel(cfg, offs, g, g2),
    ensures
        all_dead(g2, cfg.w as int, cfg.h as int),
{
    let w = cfg.w as int;
    let h = cfg.h as int;
    assert forall|x: int, y: int|
        0 <= x < w && 0 <= y < h implies (#[trigger] cell_at(g2, x, y)).state is Dead by {
        assert(cell_stepped(cfg, offs, g, g2, x, y));
        let d = choose|d: Draws|
            #[trigger] draws_admissible(cfg, d) && cell_at(g2, x, y) == spec_next_cell(
                cell_at(g, x, y),
                prey_count(g, w, h, offs, x, y) as int,
                predator_count(g, w, h, offs, x, y) as int,
                cfg,
                d,
            );
        lemma_all_dead_counts(g, w, h, offs, x, y);
        assert(!d.mutation);
        assert(cell_at(g, x, y).state is Dead);
    }
}

// ---------------------------------------------------------------------------
// The renderer's view of an age
// ---------------------------------------------------------------------------

/// The band of the normalized age `age / max_age`: 3 from three quarters up,
/// 2 from one half, 1 from one quarter, 0 below.
pub open spec fn spec_age_band(age: int, max_age: int) -> int {
    if 4 * age >= 3 * max_age {
        3
    } else if 2 * age >= max_age {
        2
    } else if 4 * age >= max_age {
        1
    } else {
        0
    }
}

/// The age band a renderer picks a glyph and color from. The comparisons are
/// exact integer forms of the quarter thresholds on `age / max_age`.
pub fn age_band(age: usize, max_age: usize) -> (band: u8)
    ensures
        band as int == spec_age_band(age as int, max_age as int),
{
    let a = age as u128;
    let m = max_age as u128;
    if 4 * a >= 3 * m {
        3
    } else if 2 * a >= m {
        2
    } else if 4 * a >= m {
        1
    } else {
        0
    }
}

// ---------------------------------------------------------------------------
// Telemetry tallies
// ---------------------------------------------------------------------------

/// Live cells of the selected species among the first `n` cells of a row.
pub open spec fn row_count_upto(row: Seq<Cell>, n: int, prey: bool) -> nat
    decreases n,
{
    if n <= 0 {
        0
    } else {
        row_count_upto(row, n - 1, prey) + if row[n - 1].state is Alive && (if prey {
            row[n - 1].kind is Prey
        } else {
            row[n - 1].kind is Predetor
        }) {
            1nat
        } else {
            0nat
        }
    }
}

/// Live cells of the selected species in the first `n` rows of the grid.
pub open spec fn grid_count_upto(g: Seq<Vec<Cell>>, n: int, prey: bool) -> nat
    decreases n,
{
    if n <= 0 {
        0
    } else {
        grid_count_upto(g, n - 1, prey) + row_count_upto(g[n - 1]@, g[n - 1]@.len() as int, prey)
    }
}

/// All live cells of the selected species in the grid.
pub open spec fn total_live(g: Seq<Vec<Cell>>, prey: bool) -> nat {
    grid_count_upto(g, g.len() as int, prey)
}

proof fn lemma_row_count_bounded(row: Seq<Cell>, n: int, prey: bool)
    requires
        0 <= n,
    ensures
        row_count_upto(row, n, prey) <= n,
    decreases n,
{
    if n > 0 {
        lemma_row_count_bounded(row, n - 1, prey);
    }
}

proof fn lemma_grid_count_bounded(g: Seq<Vec<Cell>>, n: int, w: int, prey: bool)
    requires
        0 <= n <= g.len(),
        forall|y: int| 0 <= y < g.len() ==> (#[trigger] g[y])@.len() == w,
    ensures
        grid_count_upto(g, n, prey) <= n * w,
    decreases n,
{
    if n > 0 {
        lemma_grid_count_bounded(g, n - 1, w, prey);
        assert((g[n - 1])@.len() == w);
        lemma_row_count_bounded(g[n - 1]@, w, prey);
        assert(grid_count_upto(g, n, prey) == grid_count_upto(g, n - 1, prey) + row_count_upto(
            g[n - 1]@,
            g[n - 1]@.len() as int,
            prey,
        ));
        assert((n - 1) * w + w == n * w) by (nonlinear_arith);
    } else {
        assert(n * w == 0) by (nonlinear_arith)
            requires
                n == 0,
        ;
    }
}

/// Counts the live prey and live predators of the whole grid: the pure
/// aggregate shown as telemetry beside each frame.
pub fn tally_live(map: &Vec<Vec<Cell>>, w: usize, h: usize) -> (counts: (usize, usize))
    requires
        map@.len() == h,
        forall|y: int| 0 <= y < h ==> (#[trigger] map@[y])@.len() == w,
        w * h <= usize::MAX,
    ensures
        counts.0 == total_live(map@, true),
        counts.1 == total_live(map@, false),
{
    let mut preys: usize = 0;
    let mut predators: usize = 0;
    let mut y: usize = 0;
    while y < h
        invariant
            y <= h,
            map@.len() == h,
            forall|yy: int| 0 <= yy < h ==> (#[trigger] map@[yy])@.len() == w,
            w * h <= usize::MAX,
            preys == grid_count_upto(map@, y as int, true),
            predators == grid_count_upto(map@, y as int, false),
            preys <= y * w,
            predators <= y * w,
        decreases h - y,
    {
        let mut x: usize = 0;
        while x < w
            invariant
                x <= w,
                y < h,
                map@.len() == h,
                forall|yy: int| 0 <= yy < h ==> (#[trigger] map@[yy])@.len() == w,
                w * h <= usize::MAX,
                preys == grid_count_upto(map@, y as int, true) + row_count_upto(
                    map@[y as int]@,
                    x as int,
                    true,
                ),
                predators == grid_count_upto(map@, y as int, false) + row_count_upto(
                    map@[y as int]@,
                    x as int,
                    false,
                ),
                grid_count_upto(map@, y as int, true) <= y * w,
                grid_count_upto(map@, y as int, false) <= y * w,
                row_count_upto(map@[y as int]@, x as int, true) <= x,
                row_count_upto(map@[y as int]@, x as int, false) <= x,
            decreases w - x,
        {
            proof {
                assert(y * w + x + 1 <= h * w) by (nonlinear_arith)
                    requires
                        0 <= y < h,
                        0 <= x < w,
                ;
            }
            let c = map[y][x];
            match c.state {
                CellState::Alive(_) => {
                    match c.kind {
                        CellType::Prey => {
                            preys = preys + 1;
                        },
                        CellType::Predetor => {
                            predators = predators + 1;
                        },
                    }
                },
                CellState::Dead => {},
            }
            x = x + 1;
        }
        proof {
            lemma_row_count_bounded(map@[y as int]@, w as int, true);
            lemma_row_count_bounded(map@[y as int]@, w as int, false);
            assert(y * w + w == (y + 1) * w) by (nonlinear_arith);
        }
        y = y + 1;
    }
    (preys, predators)
}

// ---------------------------------------------------------------------------
// The simulation clock
// ---------------------------------------------------------------------------

/// The simulation: a configuration and the current buffer. Each tick computes
/// a brand-new next buffer from the current one, then swaps.
pub struct GameOfLife {
    pub config: Config,
    pub state: GameState,
}

impl GameOfLife {
    /// A new simulation: the configuration plus a freshly seeded state.
    pub fn new(config: Config, rng: &mut rand::rngs::StdRng) -> (game: GameOfLife)
        requires
            config.wf(),
            config.w > 0,
            config.h > 0,
        ensures
            game.wf(),
            game.config == config,
            game.state.generation == 0,
            game.state.preys == 0,
            game.state.predators == 0,
            forall|x: int, y: int|
                0 <= x < config.w && 0 <= y < config.h ==> unchanged_or_seeded(
                    config,
                    dead_cell_at(x, y),
                    #[trigger] cell_at(game.state.map@, x, y),
                    x,
                    y,
                ),
            exists|centers: Seq<(int, int)>|
                #[trigger] seeded_from_empty(config, game.state.map@, centers),
    {
        let state = GameState::init(&config, rng);
        GameOfLife { config, state }
    }

    pub open spec fn wf(self) -> bool {
        &&& self.config.wf()
        &&& self.state.wf()
        &&& self.state.w == self.config.w
        &&& self.state.h == self.config.h
        &&& self.state.offsets@ == self.config.offsets@
    }

    /// Tallies the live prey and predator neighbors of `(x, y)`, one count
    /// per species. Candidate coordinates are computed in signed arithmetic
    /// and range-checked before any conversion; out-of-range candidates are
    /// skipped.
    pub fn count_neighbours(&self, x: usize, y: usize) -> (counts: (usize, usize))
        requires
            self.wf(),
        ensures
            counts.0 == prey_count(
                self.state.map@,
                self.config.w as int,
                self.config.h as int,
                self.state.offsets@,
                x as int,
                y as int,
            ),
            counts.1 == predator_count(
                self.state.map@,
                self.config.w as int,
                self.config.h as int,
                self.state.offsets@,
                x as int,
                y as int,
            ),
    {
        let mut preys: usize = 0;
        let mut predators: usize = 0;
        let mut i: usize = 0;
        let w = self.config.w;
        let h = self.config.h;
        while i < self.state.offsets.len()
            invariant
                self.wf(),
                w == self.config.w,
                h == self.config.h,
                i <= self.state.offsets@.len(),
                preys <= i,
                predators <= i,
                preys == count_upto(
                    self.state.map@,
                    w as int,
                    h as int,
                    self.state.offsets@,
                    x as int,
                    y as int,
                    i as int,
                    true,
                ),
                predators == count_upto(
                    self.state.map@,
                    w as int,
                    h as int,
                    self.state.offsets@,
                    x as int,
                    y as int,
                    i as int,
                    false,
                ),
            decreases self.state.offsets@.len() - i,
        {
            let (dx, dy) = self.state.offsets[i];
            let nx: i128 = x as i128 + dx as i128;
            let ny: i128 = y as i128 + dy as i128;
            if nx >= 0 && nx < w as i128 && ny >= 0 && ny < h as i128 {
                let ux = nx as usize;
                let uy = ny as usize;
                let c = self.state.map[uy][ux];
                match c.state {
                    CellState::Alive(_) => {
                        match c.kind {
                            CellType::Prey => {
                                preys = preys + 1;
                            },
                            CellType::Predetor => {
                                predators = predators + 1;
                            },
                        }
                    },
                    CellState::Dead => {},
                }
            }
            i = i + 1;
        }
        (preys, predators)
    }

    /// Steps one cell: reads the neighbor counts of `cell` from the current
    /// grid, draws this cell's randomness, and writes the rule engine's
    /// verdict into the next buffer at the cell's own position. Everything
    /// else in `next` is left untouched.
    pub fn apply_rules(&self, cell: &Cell, next: &mut GameState, rng: &mut rand::rngs::StdRng)
        requires
            self.wf(),
            cell.x < self.config.w,
            cell.y < self.config.h,
            *cell == cell_at(self.state.map@, cell.x as int, cell.y as int),
            old(next).wf(),
            old(next).w == self.config.w,
            old(next).h == self.config.h,
        ensures
            final(next).wf(),
            final(next).h == old(next).h,
            final(next).w == old(next).w,
            final(next).offsets == old(next).offsets,
            final(next).preys == old(next).preys,
            final(next).predators == old(next).predators,
            final(next).generation == old(next).generation,
            cell_stepped(
                self.config,
                self.state.offsets@,
                self.state.map@,
                final(next).map@,
                cell.x as int,
                cell.y as int,
            ),
            forall|x: int, y: int|
                0 <= x < self.config.w && 0 <= y < self.config.h && !(x == cell.x && y == cell.y)
                    ==> cell_at(final(next).map@, x, y) == cell_at(old(next).map@, x, y),
    {
        let (prey, predators) = self.count_neighbours(cell.x, cell.y);
        let d = draw_cell_draws(&self.config, rng);
        let c2 = next_cell(cell, prey, predators, &self.config, d);
        let ghost g0 = next.map@;
        next.map[cell.y][cell.x] = c2;
        proof {
            crate::rules::lemma_next_cell_keeps_position(
                *cell,
                prey as int,
                predators as int,
                self.config,
                d,
            );
            assert(next.map@[cell.y as int]@ == g0[cell.y as int]@.update(cell.x as int, c2));
            assert(cell_at(next.map@, cell.x as int, cell.y as int) == c2);
            assert forall|x: int, y: int|
                0 <= x < self.config.w && 0 <= y < self.config.h && !(x == cell.x && y
                    == cell.y) implies cell_at(next.map@, x, y) == cell_at(g0, x, y) by {
                if y == cell.y {
                    assert(next.map@[y]@[x] == g0[y]@[x]);
                } else {
                    assert(next.map@[y] == g0[y]);
                }
            }
            assert forall|y: int| 0 <= y < next.h implies (#[trigger] next.map@[y])@.len()
                == next.w by {
                if y != cell.y {
                    assert(next.map@[y] == g0[y]);
                }
            }
            assert forall|x: int, y: int|
                0 <= x < next.w && 0 <= y < next.h implies (#[trigger] cell_at(
                next.map@,
                x,
                y,
            )).x == x && cell_at(next.map@, x, y).y == y by {
                if !(x == cell.x && y == cell.y) {
                    assert(cell_at(next.map@, x, y) == cell_at(g0, x, y));
                    assert(cell_at(g0, x, y).x == x && cell_at(g0, x, y).y == y);
                }
            }
        }
    }

    /// Advances one generation: allocates a cleared next buffer, steps every
    /// cell of the current grid into it, tallies the next grid's live
    /// species, increments the generation counter and swaps the buffers.
    pub fn simulate(&mut self, rng: &mut rand::rngs::StdRng)
        requires
            old(self).wf(),
            old(self).state.generation < usize::MAX,
        ensures
            final(self).wf(),
            final(self).config == old(self).config,
            final(self).state.w == old(self).state.w,
            final(self).state.h == old(self).state.h,
            final(self).state.offsets@ == old(self).state.offsets@,
            final(self).state.generation == old(self).state.generation + 1,
            step_rel(
                old(self).config,
                old(self).state.offsets@,
                old(self).state.map@,
                final(self).state.map@,
            ),
            final(self).state.preys == total_live(final(self).state.map@, true),
            final(self).state.predators == total_live(final(self).state.map@, false),
    {
        let mut next = GameState::new(&self.config);
        next.generation = self.state.generation + 1;
        let w = self.config.w;
        let h = self.config.h;
        let mut y: usize = 0;
        while y < h
            invariant
                self.wf(),
                w == self.config.w,
                h == self.config.h,
                y <= h,
                next.wf(),
                next.w == self.config.w,
                next.h == self.config.h,
                next.offsets@ == self.config.offsets@,
                next.preys == 0,
                next.predators == 0,
                next.generation == old(self).state.generation + 1,
                self.config == old(self).config,
                self.state == old(self).state,
                forall|xx: int, yy: int|
                    0 <= xx < w && 0 <= yy < y ==> #[trigger] cell_stepped(
                        self.config,
                        self.state.offsets@,
                        self.state.map@,
                        next.map@,
                        xx,
                        yy,
                    ),
            decreases h - y,
        {
            let mut x: usize = 0;
            while x < w
                invariant
                    self.wf(),
                    w == self.config.w,
                    h == self.config.h,
                    x <= w,
                    y < h,
                    next.wf(),
                    next.w == self.config.w,
                    next.h == self.config.h,
                    next.offsets@ == self.config.offsets@,
                    next.preys == 0,
                    next.predators == 0,
                    next.generation == old(self).state.generation + 1,
                    self.config == old(self).config,
                    self.state == old(self).state,
                    forall|xx: int, yy: int|
                        0 <= xx < w && 0 <= yy < y ==> #[trigger] cell_stepped(
                            self.config,
                            self.state.offsets@,
                            self.state.map@,
                            next.map@,
                            xx,
                            yy,
                        ),
                    forall|xx: int|
                        0 <= xx < x ==> #[trigger] cell_stepped(
                            self.config,
                            self.state.offsets@,
                            self.state.map@,
                            next.map@,
                            xx,
                            y as int,
                        ),
                decreases w - x,
            {
                let c = self.state.map[y][x];
                proof {
                    assert(cell_at(self.state.map@, x as int, y as int).x == x as int);
                    assert(c == cell_at(self.state.map@, x as int, y as int));
                }
                let ghost g_before = next.map@;
                self.apply_rules(&c, &mut next, rng);
                proof {
                    assert forall|xx: int, yy: int|
                        0 <= xx < w && 0 <= yy < y implies #[trigger] cell_stepped(
                        self.config,
                        self.state.offsets@,
                        self.state.map@,
                        next.map@,
                        xx,
                        yy,
                    ) by {
                        assert(cell_at(next.map@, xx, yy) == cell_at(g_before, xx, yy));
                        assert(cell_stepped(
                            self.config,
                            self.state.offsets@,
                            self.state.map@,
                            g_before,
                            xx,
                            yy,
                        ));
                    }
                    assert forall|xx: int|
                        0 <= xx < x + 1 implies #[trigger] cell_stepped(
                        self.config,
                        self.state.offsets@,
                        self.state.map@,
                        next.map@,
                        xx,
                        y as int,
                    ) by {
                        if xx < x {
                            assert(cell_at(next.map@, xx, y as int) == cell_at(
                                g_before,
                                xx,
                                y as int,
                            ));
                            assert(cell_stepped(
                                self.config,
                                self.state.offsets@,
                                self.state.map@,
                                g_before,
                                xx,
                                y as int,
                            ));
                        }
                    }
                }
                x = x + 1;
            }
            y = y + 1;
        }
        let counts = tally_live(&next.map, w, h);
        next.preys = counts.0;
        next.predators = counts.1;
        self.state = next;
    }
}

} // verus!
