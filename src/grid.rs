//! The grid of grain counts, held in an `array2d::Array2D`, and its model.
use vstd::prelude::*;

verus! {

#[verifier::external_type_specification]
#[verifier::external_body]
#[verifier::reject_recursive_types(T)]
pub struct ExArray2D<T: Clone>(array2d::Array2D<T>);

#[verifier::external_type_specification]
#[verifier::external_body]
pub struct ExArray2DError(array2d::Error);

/// The cells of an array, row by row.
pub uninterp spec fn array_cells(a: array2d::Array2D<u32>) -> Seq<Seq<u32>>;

/// The number of columns that an array was made with.
pub uninterp spec fn array_columns(a: array2d::Array2D<u32>) -> nat;

/// The number of columns of a model grid (zero for a grid without rows).
pub open spec fn width(g: Seq<Seq<u32>>) -> int {
    if g.len() > 0 { g[0].len() as int } else { 0 }
}

/// Every row of the model has the same length.
pub open spec fn rectangular(g: Seq<Seq<u32>>) -> bool {
    forall|i: int| 0 <= i < g.len() ==> #[trigger] g[i].len() == width(g)
}

/// Every row of the array holds as many cells as the array has columns.
pub open spec fn shaped(a: array2d::Array2D<u32>) -> bool {
    forall|i: int|
        0 <= i < array_cells(a).len() ==> #[trigger] array_cells(a)[i].len() == array_columns(a)
}

/// A grid of `rows` rows and `cols` columns, every cell `value`.
pub open spec fn filled(value: u32, rows: nat, cols: nat) -> Seq<Seq<u32>> {
    Seq::new(rows, |i: int| Seq::new(cols, |j: int| value))
}

/// Relies on `Array2D::filled_with`: a `rows` by `cols` array with every
/// element equal to `value` (it multiplies `rows` by `cols`).
#[verifier::external_body]
pub(crate) fn grid_filled(value: u32, rows: usize, cols: usize) -> (r: array2d::Array2D<u32>)
    requires
        rows * cols <= usize::MAX,
    ensures
        array_cells(r) == filled(value, rows as nat, cols as nat),
        array_columns(r) == cols,
{
    array2d::Array2D::filled_with(value, rows, cols)
}

/// Relies on `Array2D::num_rows`: the number of rows.
#[verifier::external_body]
pub(crate) fn grid_rows(a: &array2d::Array2D<u32>) -> (r: usize)
    ensures
        r == array_cells(*a).len(),
{
    a.num_rows()
}

/// Relies on `Array2D::num_columns`: the number of columns it was made with.
#[verifier::external_body]
pub(crate) fn grid_columns(a: &array2d::Array2D<u32>) -> (r: usize)
    ensures
        r == array_columns(*a),
{
    a.num_columns()
}

/// Relies on `Array2D::get`: the element at `(row, col)`, or `None` when
/// either index is out of bounds.
#[verifier::external_body]
pub(crate) fn grid_get(a: &array2d::Array2D<u32>, row: usize, col: usize) -> (r: Option<u32>)
    ensures
        (row < array_cells(*a).len() && col < array_columns(*a)) <==> r is Some,
        r is Some ==> r->Some_0 == array_cells(*a)[row as int][col as int],
{
    a.get(row, col).copied()
}

/// Relies on `Array2D::set`: replaces the element at `(row, col)` when both
/// indices are in bounds and fails, leaving the array as it was, otherwise.
#[verifier::external_body]
pub(crate) fn grid_set(a: &mut array2d::Array2D<u32>, row: usize, col: usize, value: u32) -> (r:
    Result<(), array2d::Error>)
    ensures
        array_columns(*final(a)) == array_columns(*old(a)),
        (row < array_cells(*old(a)).len() && col < array_columns(*old(a))) <==> r is Ok,
        r is Ok ==> array_cells(*final(a)) == array_cells(*old(a)).update(
            row as int,
            array_cells(*old(a))[row as int].update(col as int, value),
        ),
        r is Err ==> array_cells(*final(a)) == array_cells(*old(a)),
{
    a.set(row, col, value)
}

} // verus!
