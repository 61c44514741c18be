//! The colours of the final grid: one pixel per cell.
use crate::grid::{array_cells, array_columns, grid_columns, grid_get, grid_rows, shaped};
use vstd::prelude::*;

verus! {

/// The colour, as red, green and blue, that a cell of `count` grains is drawn
/// in: one shade for each count up to five, white above.
pub open spec fn palette(count: u32) -> (u8, u8, u8) {
    if count == 0 {
        (0, 0, 0)
    } else if count == 1 {
        (200, 0, 0)
    } else if count == 2 {
        (200, 64, 0)
    } else if count == 3 {
        (200, 128, 0)
    } else if count == 4 {
        (255, 192, 0)
    } else if count == 5 {
        (255, 255, 0)
    } else {
        (255, 255, 255)
    }
}

/// The colour of a cell holding `count` grains.
pub fn palette_color(count: u32) -> (r: (u8, u8, u8))
    ensures
        r == palette(count),
{
    match count {
        0 => (0, 0, 0),
        1 => (200, 0, 0),
        2 => (200, 64, 0),
        3 => (200, 128, 0),
        4 => (255, 192, 0),
        5 => (255, 255, 0),
        _ => (255, 255, 255),
    }
}

/// The colour of every cell of `array`, row by row.
pub fn pixel_colors(array: &array2d::Array2D<u32>) -> (r: Vec<Vec<(u8, u8, u8)>>)
    requires
        shaped(*array),
    ensures
        r@.len() == array_cells(*array).len(),
        forall|i: int| 0 <= i < r@.len() ==> #[trigger] r@[i]@.len() == array_columns(*array),
        forall|i: int, j: int|
            0 <= i < r@.len() && 0 <= j < array_columns(*array) ==> r@[i]@[j] == palette(
                array_cells(*array)[i][j],
            ),
{
    let n_rows = grid_rows(array);
    let n_cols = grid_columns(array);
    let mut out: Vec<Vec<(u8, u8, u8)>> = Vec::new();
    let mut i: usize = 0;
    while i < n_rows
        invariant
            0 <= i <= n_rows,
            n_rows == array_cells(*array).len(),
            n_cols == array_columns(*array),
            shaped(*array),
            out@.len() == i,
            forall|r: int| 0 <= r < i ==> #[trigger] out@[r]@.len() == n_cols,
            forall|r: int, c: int|
                0 <= r < i && 0 <= c < n_cols ==> out@[r]@[c] == palette(
                    array_cells(*array)[r][c],
                ),
        decreases n_rows - i,
    {
        let mut row: Vec<(u8, u8, u8)> = Vec::new();
        let mut j: usize = 0;
        while j < n_cols
            invariant
                0 <= i < n_rows,
                0 <= j <= n_cols,
                n_rows == array_cells(*array).len(),
                n_cols == array_columns(*array),
                row@.len() == j,
                forall|c: int|
                    0 <= c < j ==> row@[c] == palette(array_cells(*array)[i as int][c]),
            decreases n_cols - j,
        {
            let v = grid_get(array, i, j).unwrap();
            row.push(palette_color(v));
            j = j + 1;
        }
        out.push(row);
        i = i + 1;
    }
    out
}

} // verus!
