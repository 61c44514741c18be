//! The toppling rule: one generation of the sandpile from the previous one.
use crate::grid::{
    array_cells, array_columns, grid_columns, grid_get, grid_rows, grid_set, rectangular, shaped,
    width,
};
use vstd::prelude::*;

verus! {

/// The largest count that a cell may hold before a step, so that no cell of
/// the next generation exceeds `u32::MAX`.
pub const MAX_SAFE_COUNT: u32 = u32::MAX - 4;

/// Grains that the cell at `(i, j)` sends to each of its four neighbours:
/// one per full group of four, and nothing from outside the grid.
pub open spec fn share(g: Seq<Seq<u32>>, i: int, j: int) -> int {
    if 0 <= i < g.len() && 0 <= j < g[i].len() {
        g[i][j] as int / 4
    } else {
        0
    }
}

/// What a cell keeps of its own grains: the remainder modulo four once it
/// holds four or more, everything below that.
pub open spec fn kept(v: u32) -> int {
    if v >= 4 {
        v as int % 4
    } else {
        v as int
    }
}

/// One grain for a rain source, none elsewhere.
pub open spec fn rain_at(rain: Seq<(usize, usize)>, i: int, j: int) -> int {
    if rain.contains((i as usize, j as usize)) {
        1
    } else {
        0
    }
}

/// Grains that flow into `(i, j)` from its four orthogonal neighbours.
pub open spec fn inflow(g: Seq<Seq<u32>>, i: int, j: int) -> int {
    share(g, i - 1, j) + share(g, i + 1, j) + share(g, i, j - 1) + share(g, i, j + 1)
}

/// The count of `(i, j)` in the generation after `g`.
pub open spec fn next_value(g: Seq<Seq<u32>>, rain: Seq<(usize, usize)>, i: int, j: int) -> int {
    kept(g[i][j]) + rain_at(rain, i, j) + inflow(g, i, j)
}

/// The generation after `g`, of the same shape.
pub open spec fn next_grid(g: Seq<Seq<u32>>, rain: Seq<(usize, usize)>) -> Seq<Seq<u32>> {
    Seq::new(g.len(), |i: int| Seq::new(g[i].len(), |j: int| next_value(g, rain, i, j) as u32))
}

/// No cell of `g` holds more than `m` grains.
pub open spec fn bounded(g: Seq<Seq<u32>>, m: int) -> bool {
    forall|i: int, j: int| 0 <= i < g.len() && 0 <= j < g[i].len() ==> g[i][j] <= m
}

/// Whether `(i, j)` is one of the rain sources.
pub fn is_rain_cell(rain_cells: &[(usize, usize)], i: usize, j: usize) -> (r: bool)
    ensures
        r == rain_cells@.contains((i, j)),
{
    let mut k: usize = 0;
    while k < rain_cells.len()
        invariant
            0 <= k <= rain_cells@.len(),
            forall|m: int| 0 <= m < k ==> rain_cells@[m] != (i, j),
        decreases rain_cells@.len() - k,
    {
        let (ri, rj) = rain_cells[k];
        if ri == i && rj == j {
            assert(rain_cells@[k as int] == (i, j));
            return true;
        }
        k = k + 1;
    }
    false
}

/// The count of cell `(i, j)` in the next generation of `array`.
pub fn update_grain(array: &array2d::Array2D<u32>, i: usize, j: usize, rain_cells: &[(
    usize,
    usize,
)]) -> (r: u32)
    requires
        shaped(*array),
        i < array_cells(*array).len(),
        j < array_columns(*array),
        bounded(array_cells(*array), MAX_SAFE_COUNT as int),
    ensures
        r == next_value(array_cells(*array), rain_cells@, i as int, j as int),
{
    let ghost g = array_cells(*array);
    let n_rows = grid_rows(array);
    let n_cols = grid_columns(array);
    let old_val = grid_get(array, i, j).unwrap();
    let remainder = if old_val >= 4 {
        old_val % 4
    } else {
        old_val
    };
    let update_north = if i > 0 {
        grid_get(array, i - 1, j).unwrap() / 4
    } else {
        0
    };
    let update_south = if i + 1 < n_rows {
        grid_get(array, i + 1, j).unwrap() / 4
    } else {
        0
    };
    let update_west = if j > 0 {
        grid_get(array, i, j - 1).unwrap() / 4
    } else {
        0
    };
    let update_east = if j + 1 < n_cols {
        grid_get(array, i, j + 1).unwrap() / 4
    } else {
        0
    };
    let update_rain: u32 = if is_rain_cell(rain_cells, i, j) {
        1
    } else {
        0
    };
    assert(update_north == share(g, i - 1, j as int));
    assert(update_south == share(g, i + 1, j as int));
    assert(update_west == share(g, i as int, j - 1));
    assert(update_east == share(g, i as int, j + 1));
    assert(old_val <= MAX_SAFE_COUNT);
    let ghost m = MAX_SAFE_COUNT as int;
    assert(update_north + update_south + update_west + update_east <= 4 * (m / 4));
    remainder + update_rain + update_north + update_south + update_west + update_east
}

/// Writes into `new` the generation that follows `prev`. Both arrays have the
/// same shape; a mismatch is the caller's error.
pub fn update_sandpile(
    prev: &array2d::Array2D<u32>,
    new: &mut array2d::Array2D<u32>,
    rain_cells: &[(usize, usize)],
)
    requires
        shaped(*prev),
        shaped(*old(new)),
        array_cells(*prev).len() == array_cells(*old(new)).len(),
        array_columns(*prev) == array_columns(*old(new)),
        bounded(array_cells(*prev), MAX_SAFE_COUNT as int),
    ensures
        shaped(*final(new)),
        array_columns(*final(new)) == array_columns(*prev),
        array_cells(*final(new)) == next_grid(array_cells(*prev), rain_cells@),
        forall|i: int, j: int|
            0 <= i < array_cells(*prev).len() && 0 <= j < array_columns(*prev) ==> array_cells(
                *final(new),
            )[i][j] == next_value(array_cells(*prev), rain_cells@, i, j),
{
    let ghost g = array_cells(*prev);
    let ghost rain = rain_cells@;
    let ghost cols = array_columns(*prev);
    let n_rows = grid_rows(prev);
    let n_cols = grid_columns(prev);
    let mut i: usize = 0;
    while i < n_rows
        invariant
            0 <= i <= n_rows,
            n_rows == g.len(),
            n_cols == cols,
            cols == array_columns(*prev),
            g == array_cells(*prev),
            rain == rain_cells@,
            shaped(*prev),
            bounded(g, MAX_SAFE_COUNT as int),
            array_columns(*new) == cols,
            array_cells(*new).len() == g.len(),
            forall|r: int| 0 <= r < g.len() ==> #[trigger] array_cells(*new)[r].len() == cols,
            forall|r: int, c: int|
                0 <= r < i && 0 <= c < cols ==> array_cells(*new)[r][c] == next_value(
                    g,
                    rain,
                    r,
                    c,
                ),
        decreases n_rows - i,
    {
        let mut j: usize = 0;
        while j < n_cols
            invariant
                0 <= i < n_rows,
                0 <= j <= n_cols,
                n_rows == g.len(),
                n_cols == cols,
                cols == array_columns(*prev),
                g == array_cells(*prev),
                rain == rain_cells@,
                shaped(*prev),
                bounded(g, MAX_SAFE_COUNT as int),
                array_columns(*new) == cols,
                array_cells(*new).len() == g.len(),
                forall|r: int| 0 <= r < g.len() ==> #[trigger] array_cells(*new)[r].len() == cols,
                forall|r: int, c: int|
                    0 <= r < i && 0 <= c < cols ==> array_cells(*new)[r][c] == next_value(
                        g,
                        rain,
                        r,
                        c,
                    ),
                forall|c: int|
                    0 <= c < j ==> array_cells(*new)[i as int][c] == next_value(
                        g,
                        rain,
                        i as int,
                        c,
                    ),
            decreases n_cols - j,
        {
            let new_val = update_grain(prev, i, j, rain_cells);
            let res = grid_set(new, i, j, new_val);
            assert(res is Ok);
            j = j + 1;
        }
        i = i + 1;
    }
    assert(array_cells(*new) =~~= next_grid(g, rain)) by {
        assert forall|r: int| 0 <= r < g.len() implies array_cells(*new)[r] =~~= next_grid(
            g,
            rain,
        )[r] by {
            assert(g[r].len() == cols);
            assert forall|c: int| 0 <= c < cols implies array_cells(*new)[r][c] == next_grid(
                g,
                rain,
            )[r][c] by {
                assert(0 <= next_value(g, rain, r, c) <= u32::MAX) by {
                    lemma_next_value_fits(g, rain, r, c);
                }
            }
        }
    }
}

/// A cell of the next generation exceeds the largest count of `g` by at most
/// four, so a grid bounded by `MAX_SAFE_COUNT` yields counts that fit a `u32`.
pub proof fn lemma_next_value_fits(g: Seq<Seq<u32>>, rain: Seq<(usize, usize)>, i: int, j: int)
    requires
        bounded(g, MAX_SAFE_COUNT as int),
        0 <= i < g.len(),
        0 <= j < g[i].len(),
    ensures
        0 <= next_value(g, rain, i, j) <= u32::MAX,
{
    let m = MAX_SAFE_COUNT as int;
    assert(share(g, i - 1, j) <= m / 4);
    assert(share(g, i + 1, j) <= m / 4);
    assert(share(g, i, j - 1) <= m / 4);
    assert(share(g, i, j + 1) <= m / 4);
}

/// A step raises the largest count by at most four.
pub proof fn lemma_next_grid_bounded(g: Seq<Seq<u32>>, rain: Seq<(usize, usize)>, m: int)
    requires
        bounded(g, m),
        m <= MAX_SAFE_COUNT,
    ensures
        bounded(next_grid(g, rain), m + 4),
{
    assert forall|i: int, j: int|
        0 <= i < next_grid(g, rain).len() && 0 <= j < next_grid(g, rain)[i].len() implies next_grid(
        g,
        rain,
    )[i][j] <= m + 4 by {
        assert(bounded(g, MAX_SAFE_COUNT as int));
        lemma_next_value_fits(g, rain, i, j);
        assert(share(g, i - 1, j) <= m / 4);
        assert(share(g, i + 1, j) <= m / 4);
        assert(share(g, i, j - 1) <= m / 4);
        assert(share(g, i, j + 1) <= m / 4);
    }
}

} // verus!
