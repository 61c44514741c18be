//! Finite sums over a row and over a grid, with the reindexing facts that
//! grain counting needs.
use vstd::prelude::*;

verus! {

/// `f(0) + f(1) + ... + f(n - 1)`.
pub open spec fn sum_to(f: spec_fn(int) -> int, n: int) -> int
    decreases n,
{
    if n <= 0 {
        0
    } else {
        sum_to(f, n - 1) + f(n - 1)
    }
}

/// The sum of `f(i, j)` over `rows` rows and `cols` columns, row by row.
pub open spec fn grid_sum(f: spec_fn(int, int) -> int, rows: int, cols: int) -> int
    decreases rows,
{
    if rows <= 0 {
        0
    } else {
        grid_sum(f, rows - 1, cols) + sum_to(|j: int| f(rows - 1, j), cols)
    }
}

/// A grid sum is the sum of its row sums.
pub proof fn lemma_grid_sum_rows(f: spec_fn(int, int) -> int, t: spec_fn(int) -> int, rows: int, cols: int)
    requires
        forall|i: int| 0 <= i < rows ==> #[trigger] t(i) == sum_to(|j: int| f(i, j), cols),
    ensures
        grid_sum(f, rows, cols) == sum_to(t, rows),
    decreases rows,
{
    if rows > 0 {
        lemma_grid_sum_rows(f, t, rows - 1, cols);
        assert(t(rows - 1) == sum_to(|j: int| f(rows - 1, j), cols));
    }
}

pub proof fn lemma_sum_ext(f: spec_fn(int) -> int, h: spec_fn(int) -> int, n: int)
    requires
        forall|i: int| 0 <= i < n ==> #[trigger] f(i) == h(i),
    ensures
        sum_to(f, n) == sum_to(h, n),
    decreases n,
{
    if n > 0 {
        lemma_sum_ext(f, h, n - 1);
    }
}

pub proof fn lemma_sum_zero(f: spec_fn(int) -> int, n: int)
    requires
        forall|i: int| 0 <= i < n ==> #[trigger] f(i) == 0,
    ensures
        sum_to(f, n) == 0,
    decreases n,
{
    if n > 0 {
        lemma_sum_zero(f, n - 1);
    }
}

pub proof fn lemma_sum_add(f: spec_fn(int) -> int, a: spec_fn(int) -> int, b: spec_fn(int) -> int, n: int)
    requires
        forall|i: int| 0 <= i < n ==> #[trigger] f(i) == a(i) + b(i),
    ensures
        sum_to(f, n) == sum_to(a, n) + sum_to(b, n),
    decreases n,
{
    if n > 0 {
        lemma_sum_add(f, a, b, n - 1);
    }
}

pub proof fn lemma_sum_scale(f: spec_fn(int) -> int, a: spec_fn(int) -> int, c: int, n: int)
    requires
        forall|i: int| 0 <= i < n ==> #[trigger] f(i) == c * a(i),
    ensures
        sum_to(f, n) == c * sum_to(a, n),
    decreases n,
{
    if n > 0 {
        lemma_sum_scale(f, a, c, n - 1);
        assert(c * sum_to(a, n - 1) + c * a(n - 1) == c * (sum_to(a, n - 1) + a(n - 1)))
            by (nonlinear_arith);
    }
}

/// Five terms summed at once.
pub proof fn lemma_sum_add5(
    f: spec_fn(int) -> int,
    a: spec_fn(int) -> int,
    b: spec_fn(int) -> int,
    c: spec_fn(int) -> int,
    d: spec_fn(int) -> int,
    e: spec_fn(int) -> int,
    n: int,
)
    requires
        forall|i: int| 0 <= i < n ==> #[trigger] f(i) == a(i) + b(i) + c(i) + d(i) + e(i),
    ensures
        sum_to(f, n) == sum_to(a, n) + sum_to(b, n) + sum_to(c, n) + sum_to(d, n) + sum_to(e, n),
    decreases n,
{
    if n > 0 {
        lemma_sum_add5(f, a, b, c, d, e, n - 1);
    }
}

/// A sum of `a + b + c + 2 d - e - h`, term by term.
pub proof fn lemma_sum_combine(
    f: spec_fn(int) -> int,
    a: spec_fn(int) -> int,
    b: spec_fn(int) -> int,
    c: spec_fn(int) -> int,
    d: spec_fn(int) -> int,
    e: spec_fn(int) -> int,
    h: spec_fn(int) -> int,
    n: int,
)
    requires
        forall|i: int| 0 <= i < n ==> #[trigger] f(i) == a(i) + b(i) + c(i) + 2 * d(i) - e(i) - h(i),
    ensures
        sum_to(f, n) == sum_to(a, n) + sum_to(b, n) + sum_to(c, n) + 2 * sum_to(d, n) - sum_to(
            e,
            n,
        ) - sum_to(h, n),
    decreases n,
{
    if n > 0 {
        lemma_sum_combine(f, a, b, c, d, e, h, n - 1);
    }
}

/// Summing `f(i - 1)` for `i < n` is summing `f` from `-1` to `n - 2`.
pub proof fn lemma_sum_shift_back(f: spec_fn(int) -> int, h: spec_fn(int) -> int, n: int)
    requires
        n >= 1,
        forall|i: int| 0 <= i < n ==> #[trigger] h(i) == f(i - 1),
    ensures
        sum_to(h, n) == f(-1) + sum_to(f, n - 1),
    decreases n,
{
    if n > 1 {
        lemma_sum_shift_back(f, h, n - 1);
    } else {
        assert(sum_to(h, 0) == 0);
        assert(sum_to(f, 0) == 0);
        assert(h(0) == f(-1));
    }
}

/// Summing `f(i + 1)` for `i < n` is summing `f` from `1` to `n`.
pub proof fn lemma_sum_shift_forward(f: spec_fn(int) -> int, h: spec_fn(int) -> int, n: int)
    requires
        n >= 0,
        forall|i: int| 0 <= i < n ==> #[trigger] h(i) == f(i + 1),
    ensures
        sum_to(h, n) == sum_to(f, n) - f(0) + f(n),
    decreases n,
{
    if n > 0 {
        lemma_sum_shift_forward(f, h, n - 1);
    }
}

} // verus!
