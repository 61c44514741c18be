//! What one generation does to the grid as a whole and to single cells.
use crate::grid::{rectangular, width};
use crate::rule::{
    bounded, inflow, kept, lemma_next_value_fits, next_grid, next_value, rain_at, share,
    MAX_SAFE_COUNT,
};
use crate::driver::generation;
use crate::sums::{
    grid_sum, lemma_grid_sum_rows, lemma_sum_add, lemma_sum_add5, lemma_sum_combine, lemma_sum_ext, lemma_sum_scale,
    lemma_sum_shift_back, lemma_sum_shift_forward, lemma_sum_zero, sum_to,
};
use vstd::prelude::*;

verus! {

/// The grains on cell `(i, j)`.
pub open spec fn count_at(g: Seq<Seq<u32>>, i: int, j: int) -> int {
    g[i][j] as int
}

/// All grains on the grid.
pub open spec fn total(g: Seq<Seq<u32>>) -> int {
    grid_sum(|i: int, j: int| count_at(g, i, j), g.len() as int, width(g))
}

/// The number of cells of the grid that are rain sources.
pub open spec fn rain_count(g: Seq<Seq<u32>>, rain: Seq<(usize, usize)>) -> int {
    grid_sum(|i: int, j: int| rain_at(rain, i, j), g.len() as int, width(g))
}

/// The shares sent by the first `w` cells of row `i` (nothing outside the grid).
pub open spec fn row_shares(g: Seq<Seq<u32>>, i: int, w: int) -> int {
    sum_to(|j: int| share(g, i, j), w)
}

/// Grains that leave the grid in one step: each cell of the top row sends a
/// share north, of the bottom row south, of the first column west and of the
/// last column east, and each of those shares falls off the edge.
pub open spec fn boundary_loss(g: Seq<Seq<u32>>) -> int {
    row_shares(g, 0, width(g)) + row_shares(g, g.len() - 1, width(g)) + sum_to(
        |i: int| share(g, i, 0),
        g.len() as int,
    ) + sum_to(|i: int| share(g, i, width(g) - 1), g.len() as int)
}

spec fn row_kept(g: Seq<Seq<u32>>, i: int, w: int) -> int {
    sum_to(|j: int| kept(g[i][j]), w)
}

spec fn row_rain(rain: Seq<(usize, usize)>, i: int, w: int) -> int {
    sum_to(|j: int| rain_at(rain, i, j), w)
}

proof fn lemma_row_of_next(g: Seq<Seq<u32>>, rain: Seq<(usize, usize)>, i: int)
    requires
        rectangular(g),
        bounded(g, MAX_SAFE_COUNT as int),
        0 <= i < g.len(),
        width(g) >= 1,
    ensures
        sum_to(|j: int| count_at(next_grid(g, rain), i, j), width(g)) == row_kept(g, i, width(g))
            + row_rain(rain, i, width(g)) + row_shares(g, i - 1, width(g)) + row_shares(
            g,
            i + 1,
            width(g),
        ) + 2 * row_shares(g, i, width(g)) - share(g, i, 0) - share(g, i, width(g) - 1),
{
    let w = width(g);
    let ng = next_grid(g, rain);
    let f = |j: int| count_at(ng, i, j);
    let a = |j: int| kept(g[i][j]) + rain_at(rain, i, j);
    let bn = |j: int| share(g, i - 1, j);
    let bs = |j: int| share(g, i + 1, j);
    let bw = |j: int| share(g, i, j - 1);
    let be = |j: int| share(g, i, j + 1);
    let q = |j: int| share(g, i, j);
    assert(g[i].len() == w);
    assert forall|j: int| 0 <= j < w implies #[trigger] f(j) == a(j) + bn(j) + bs(j) + bw(j) + be(
        j,
    ) by {
        lemma_next_value_fits(g, rain, i, j);
    }
    lemma_sum_add5(f, a, bn, bs, bw, be, w);
    lemma_sum_add(a, |j: int| kept(g[i][j]), |j: int| rain_at(rain, i, j), w);
    lemma_sum_ext(bn, |j: int| share(g, i - 1, j), w);
    lemma_sum_ext(bs, |j: int| share(g, i + 1, j), w);
    lemma_sum_ext(q, |j: int| share(g, i, j), w);
    lemma_sum_shift_back(q, bw, w);
    lemma_sum_shift_forward(q, be, w);
    assert(q(-1) == 0);
    assert(q(w) == 0);
}

proof fn lemma_row_of_grid(g: Seq<Seq<u32>>, i: int)
    requires
        rectangular(g),
        0 <= i < g.len(),
    ensures
        sum_to(|j: int| count_at(g, i, j), width(g)) == row_kept(g, i, width(g)) + 4 * row_shares(
            g,
            i,
            width(g),
        ),
{
    let w = width(g);
    let v = |j: int| count_at(g, i, j);
    let k = |j: int| kept(g[i][j]);
    let q4 = |j: int| 4 * share(g, i, j);
    let q = |j: int| share(g, i, j);
    assert(g[i].len() == w);
    assert forall|j: int| 0 <= j < w implies #[trigger] v(j) == k(j) + q4(j) by {}
    lemma_sum_add(v, k, q4, w);
    lemma_sum_scale(q4, q, 4, w);
    lemma_sum_ext(q, |j: int| share(g, i, j), w);
}

proof fn lemma_grid_total(g: Seq<Seq<u32>>)
    ensures
        total(g) == sum_to(|i: int| sum_to(|j: int| count_at(g, i, j), width(g)), g.len() as int),
{
    let f = |i: int, j: int| count_at(g, i, j);
    let t = |i: int| sum_to(|j: int| count_at(g, i, j), width(g));
    assert forall|i: int| 0 <= i < g.len() implies #[trigger] t(i) == sum_to(
        |j: int| f(i, j),
        width(g),
    ) by {
        lemma_sum_ext(|j: int| count_at(g, i, j), |j: int| f(i, j), width(g));
    }
    lemma_grid_sum_rows(f, t, g.len() as int, width(g));
}

proof fn lemma_rain_total(g: Seq<Seq<u32>>, rain: Seq<(usize, usize)>)
    ensures
        rain_count(g, rain) == sum_to(
            |i: int| sum_to(|j: int| rain_at(rain, i, j), width(g)),
            g.len() as int,
        ),
{
    let f = |i: int, j: int| rain_at(rain, i, j);
    let t = |i: int| sum_to(|j: int| rain_at(rain, i, j), width(g));
    assert forall|i: int| 0 <= i < g.len() implies #[trigger] t(i) == sum_to(
        |j: int| f(i, j),
        width(g),
    ) by {
        lemma_sum_ext(|j: int| rain_at(rain, i, j), |j: int| f(i, j), width(g));
    }
    lemma_grid_sum_rows(f, t, g.len() as int, width(g));
}

/// One step changes the number of grains on the grid by the rain that falls
/// on it less the grains that leave over its edge.
pub proof fn lemma_grain_balance(g: Seq<Seq<u32>>, rain: Seq<(usize, usize)>)
    requires
        rectangular(g),
        bounded(g, MAX_SAFE_COUNT as int),
    ensures
        total(next_grid(g, rain)) == total(g) - boundary_loss(g) + rain_count(g, rain),
{
    let r = g.len() as int;
    let w = width(g);
    let ng = next_grid(g, rain);
    if r > 0 {
        assert(ng[0].len() == g[0].len());
    }
    assert(width(ng) == w);
    let t = |i: int| sum_to(|j: int| count_at(ng, i, j), w);
    let tg = |i: int| sum_to(|j: int| count_at(g, i, j), w);
    let rr = |i: int| sum_to(|j: int| rain_at(rain, i, j), w);
    let c0 = |i: int| share(g, i, 0);
    let cl = |i: int| share(g, i, w - 1);
    if r == 0 {
    } else if w == 0 {
        lemma_sum_zero(t, r);
        lemma_grid_total(ng);
        lemma_grid_total(g);
        lemma_rain_total(g, rain);
        lemma_sum_zero(tg, r);
        lemma_sum_zero(rr, r);
        lemma_sum_zero(c0, r);
        lemma_sum_zero(cl, r);
    } else {
        let a = |i: int| row_kept(g, i, w) + row_rain(rain, i, w);
        let kk = |i: int| row_kept(g, i, w);
        let rn = |i: int| row_rain(rain, i, w);
        let n = |i: int| row_shares(g, i - 1, w);
        let s = |i: int| row_shares(g, i + 1, w);
        let q = |i: int| row_shares(g, i, w);
        let q4 = |i: int| 4 * row_shares(g, i, w);
        assert forall|i: int| 0 <= i < r implies #[trigger] t(i) == a(i) + n(i) + s(i) + 2 * q(i)
            - c0(i) - cl(i) by {
            lemma_row_of_next(g, rain, i);
        }
        lemma_sum_combine(t, a, n, s, q, c0, cl, r);
        lemma_sum_add(a, kk, rn, r);
        lemma_sum_ext(rn, rr, r);
        lemma_rain_total(g, rain);
        lemma_sum_shift_back(q, n, r);
        lemma_sum_shift_forward(q, s, r);
        lemma_sum_zero(|j: int| share(g, -1, j), w);
        lemma_sum_zero(|j: int| share(g, r, j), w);
        assert forall|i: int| 0 <= i < r implies #[trigger] tg(i) == kk(i) + q4(i) by {
            lemma_row_of_grid(g, i);
        }
        lemma_sum_add(tg, kk, q4, r);
        lemma_sum_scale(q4, q, 4, r);
        assert(total(ng) == sum_to(t, r)) by {
            lemma_grid_total(ng);
        }
        assert(total(g) == sum_to(tg, r)) by {
            lemma_grid_total(g);
        }
    }
}

/// Whether `(i, j)` lies on the grid.
pub open spec fn on_grid(g: Seq<Seq<u32>>, i: int, j: int) -> bool {
    0 <= i < g.len() && 0 <= j < width(g)
}

/// How many of the four orthogonal neighbours of `(i, j)` lie on the grid.
pub open spec fn neighbours_on_grid(g: Seq<Seq<u32>>, i: int, j: int) -> int {
    (if on_grid(g, i - 1, j) { 1int } else { 0 }) + (if on_grid(g, i + 1, j) { 1int } else { 0 })
        + (if on_grid(g, i, j - 1) { 1int } else { 0 }) + (if on_grid(g, i, j + 1) { 1int } else { 0 })
}

/// Grains that `(i, j)` hands to neighbours on the grid in one step.
pub open spec fn delivered(g: Seq<Seq<u32>>, i: int, j: int) -> int {
    neighbours_on_grid(g, i, j) * share(g, i, j)
}

/// A cell on the first or last row or column.
pub open spec fn on_edge(g: Seq<Seq<u32>>, i: int, j: int) -> bool {
    on_grid(g, i, j) && (i == 0 || i == g.len() - 1 || j == 0 || j == width(g) - 1)
}

/// An interior cell loses no grain: what it keeps and what its four
/// neighbours receive from it add up to what it held.
pub proof fn lemma_interior_cell_conserves(g: Seq<Seq<u32>>, i: int, j: int)
    requires
        rectangular(g),
        0 < i < g.len() - 1,
        0 < j < width(g) - 1,
    ensures
        neighbours_on_grid(g, i, j) == 4,
        kept(g[i][j]) + delivered(g, i, j) == g[i][j],
{
    assert(g[i].len() == width(g));
}

/// A cell on the edge that topples has a neighbour missing, and the grains
/// meant for it are lost: it delivers fewer than four shares.
pub proof fn lemma_edge_cell_loses(g: Seq<Seq<u32>>, i: int, j: int)
    requires
        rectangular(g),
        on_edge(g, i, j),
        g[i][j] >= 4,
    ensures
        neighbours_on_grid(g, i, j) < 4,
        delivered(g, i, j) < 4 * share(g, i, j),
        kept(g[i][j]) + delivered(g, i, j) < g[i][j],
{
    assert(g[i].len() == width(g));
    let n = neighbours_on_grid(g, i, j);
    let s = share(g, i, j);
    assert(s >= 1);
    assert(n * s < 4 * s) by (nonlinear_arith)
        requires
            0 <= n < 4,
            s >= 1,
    ;
}

/// When no cell on the edge topples, no grain is lost: a step adds exactly
/// the rain that falls on the grid.
pub proof fn lemma_conserved_without_edge_toppling(g: Seq<Seq<u32>>, rain: Seq<(usize, usize)>)
    requires
        rectangular(g),
        bounded(g, MAX_SAFE_COUNT as int),
        forall|i: int, j: int| #[trigger] on_edge(g, i, j) ==> g[i][j] < 4,
    ensures
        boundary_loss(g) == 0,
        total(next_grid(g, rain)) == total(g) + rain_count(g, rain),
{
    let r = g.len() as int;
    let w = width(g);
    assert forall|j: int| 0 <= j < w implies #[trigger] share(g, 0, j) == 0 by {
        assert(on_edge(g, 0, j));
    }
    assert forall|j: int| 0 <= j < w implies #[trigger] share(g, r - 1, j) == 0 by {
        assert(on_edge(g, r - 1, j));
    }
    assert forall|i: int| 0 <= i < r implies #[trigger] share(g, i, 0) == 0 by {
        if w > 0 {
            assert(on_edge(g, i, 0));
        }
    }
    assert forall|i: int| 0 <= i < r implies #[trigger] share(g, i, w - 1) == 0 by {
        if w > 0 {
            assert(on_edge(g, i, w - 1));
        }
    }
    lemma_sum_zero(|j: int| share(g, 0, j), w);
    lemma_sum_zero(|j: int| share(g, r - 1, j), w);
    lemma_sum_zero(|i: int| share(g, i, 0), r);
    lemma_sum_zero(|i: int| share(g, i, w - 1), r);
    lemma_grain_balance(g, rain);
}

/// Equal starting grids and rain sources give equal grids after any number
/// of generations: nothing but them decides a run.
pub proof fn lemma_generations_deterministic(
    g1: Seq<Seq<u32>>,
    g2: Seq<Seq<u32>>,
    rain1: Seq<(usize, usize)>,
    rain2: Seq<(usize, usize)>,
    n: nat,
)
    requires
        g1 == g2,
        rain1 == rain2,
    ensures
        generation(g1, rain1, n) == generation(g2, rain2, n),
{
}

/// A cell below four grains with no inflow and no rain keeps its count.
pub proof fn lemma_below_threshold_stays(g: Seq<Seq<u32>>, rain: Seq<(usize, usize)>, i: int, j: int)
    requires
        rectangular(g),
        on_grid(g, i, j),
        g[i][j] < 4,
        inflow(g, i, j) == 0,
        rain_at(rain, i, j) == 0,
    ensures
        next_value(g, rain, i, j) == g[i][j],
        next_grid(g, rain)[i][j] == g[i][j],
{
    assert(g[i].len() == width(g));
}

/// A rain source below four grains whose neighbours on the grid are all
/// empty gains exactly one grain.
pub proof fn lemma_rain_adds_one(g: Seq<Seq<u32>>, rain: Seq<(usize, usize)>, i: int, j: int)
    requires
        rectangular(g),
        on_grid(g, i, j),
        g[i][j] < 4,
        rain.contains((i as usize, j as usize)),
        quiet_neighbours(g, i, j),
    ensures
        next_value(g, rain, i, j) == g[i][j] + 1,
        next_grid(g, rain)[i][j] == g[i][j] + 1,
{
    assert(g[i].len() == width(g));
    if 0 <= i - 1 < g.len() {
        assert(g[i - 1].len() == width(g));
    }
    if 0 <= i + 1 < g.len() {
        assert(g[i + 1].len() == width(g));
    }
}

/// On a grid of one cell nothing flows in: the cell keeps its count modulo
/// four, plus one grain of rain if it is a source, so it never exceeds four;
/// without rain it is settled after one step.
pub proof fn lemma_single_cell(g: Seq<Seq<u32>>, rain: Seq<(usize, usize)>)
    requires
        g.len() == 1,
        g[0].len() == 1,
    ensures
        next_grid(g, rain)[0][0] == g[0][0] % 4 + rain_at(rain, 0, 0),
        next_grid(g, rain)[0][0] <= 4,
        rain_at(rain, 0, 0) == 0 ==> next_grid(next_grid(g, rain), rain) == next_grid(g, rain),
{
    let ng = next_grid(g, rain);
    assert(ng[0].len() == 1);
    if rain_at(rain, 0, 0) == 0 {
        assert(next_grid(ng, rain)[0] =~= ng[0]);
        assert(next_grid(ng, rain) =~= ng);
    }
}

/// The neighbours of `(i, j)` that lie on the grid are all empty.
pub open spec fn quiet_neighbours(g: Seq<Seq<u32>>, i: int, j: int) -> bool {
    &&& on_grid(g, i - 1, j) ==> g[i - 1][j] == 0
    &&& on_grid(g, i + 1, j) ==> g[i + 1][j] == 0
    &&& on_grid(g, i, j - 1) ==> g[i][j - 1] == 0
    &&& on_grid(g, i, j + 1) ==> g[i][j + 1] == 0
}

/// Step after step, a rain source gains one grain per generation for as
/// long as its neighbours stay empty and it stays below four before a step.
pub proof fn lemma_rain_accumulates(
    g: Seq<Seq<u32>>,
    rain: Seq<(usize, usize)>,
    i: int,
    j: int,
    k: nat,
)
    requires
        rectangular(g),
        on_grid(g, i, j),
        g[i][j] + k <= 4,
        rain.contains((i as usize, j as usize)),
        forall|t: nat| t < k ==> quiet_neighbours(#[trigger] generation(g, rain, t), i, j),
    ensures
        rectangular(generation(g, rain, k)),
        generation(g, rain, k).len() == g.len(),
        width(generation(g, rain, k)) == width(g),
        generation(g, rain, k)[i][j] == g[i][j] + k,
    decreases k,
{
    if k > 0 {
        let k1 = (k - 1) as nat;
        lemma_rain_accumulates(g, rain, i, j, k1);
        let prev = generation(g, rain, k1);
        assert(quiet_neighbours(prev, i, j));
        lemma_rain_adds_one(prev, rain, i, j);
        let ng = next_grid(prev, rain);
        if prev.len() > 0 {
            assert(ng[0].len() == prev[0].len());
        }
        assert forall|r: int| 0 <= r < ng.len() implies #[trigger] ng[r].len() == width(ng) by {
            assert(prev[r].len() == width(prev));
        }
    }
}

} // verus!
