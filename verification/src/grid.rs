//! Grid geometry: coordinates, flat indices and the neighbourhood relation.

use vstd::arithmetic::div_mod::{lemma_fundamental_div_mod, lemma_fundamental_div_mod_converse};
use vstd::prelude::*;
use vstd::seq_lib::lemma_seq_concat_contains_all_elements;

verus! {

/// A column `x` (field 0) and a row `y` (field 1) of the grid.
#[derive(Debug, Clone, Copy, PartialEq, Eq, Structural)]
pub struct Coordinate(pub usize, pub usize);

/// `(x, y)` names a cell of a grid with `width` columns and `height` rows.
pub open spec fn in_grid(width: int, height: int, x: int, y: int) -> bool {
    0 <= x < width && 0 <= y < height
}

/// The flat index of the cell in column `x` of row `y`: rows are laid out
/// one after the other.
pub open spec fn index_of(width: int, x: int, y: int) -> int {
    y * width + x
}

/// The column of the cell with flat index `index`.
pub open spec fn col_of(width: int, index: int) -> int {
    index % width
}

/// The row of the cell with flat index `index`.
pub open spec fn row_of(width: int, index: int) -> int {
    index / width
}

/// A coordinate inside the grid has an index inside the cell array.
pub proof fn lemma_index_in_range(width: int, height: int, x: int, y: int)
    requires
        in_grid(width, height, x, y),
    ensures
        0 <= index_of(width, x, y) < width * height,
{
    assert(0 <= y * width && y * width + width <= height * width && height * width == width
        * height) by (nonlinear_arith)
        requires
            0 <= y < height,
            0 < width,
    ;
}

/// Converting a coordinate to its index and back gives the coordinate.
pub proof fn lemma_index_roundtrip(width: int, x: int, y: int)
    requires
        0 <= x < width,
    ensures
        col_of(width, index_of(width, x, y)) == x,
        row_of(width, index_of(width, x, y)) == y,
{
    lemma_fundamental_div_mod_converse(index_of(width, x, y), width, y, x);
}

/// Converting an index to its coordinate and back gives the index, and the
/// coordinate of an index of the cell array lies inside the grid.
pub proof fn lemma_coord_roundtrip(width: int, height: int, index: int)
    requires
        0 < width,
        0 <= index < width * height,
    ensures
        in_grid(width, height, col_of(width, index), row_of(width, index)),
        index_of(width, col_of(width, index), row_of(width, index)) == index,
{
    let x = index % width;
    let y = index / width;
    lemma_fundamental_div_mod(index, width);
    assert(width * y == y * width) by (nonlinear_arith);
    assert(0 <= x < width) by (nonlinear_arith)
        requires
            x == index % width,
            0 < width,
    ;
    assert(0 <= y < height) by (nonlinear_arith)
        requires
            index == y * width + x,
            0 <= x < width,
            0 <= index < width * height,
    ;
}

/// `(nx, ny)` is one of the eight positions around `(x, y)`.
pub open spec fn near(x: int, y: int, nx: int, ny: int) -> bool {
    &&& -1 <= nx - x <= 1
    &&& -1 <= ny - y <= 1
    &&& !(nx == x && ny == y)
}

/// The cells with flat indices `a` and `b` both lie in the grid and touch,
/// by an edge or by a corner.
pub open spec fn adjacent(width: int, height: int, a: int, b: int) -> bool {
    &&& 0 <= a < width * height
    &&& 0 <= b < width * height
    &&& near(col_of(width, a), row_of(width, a), col_of(width, b), row_of(width, b))
}

/// The position `(x, y)` alone if it lies in the grid, nothing otherwise.
pub open spec fn cell_if(width: int, height: int, x: int, y: int) -> Seq<(int, int)> {
    if in_grid(width, height, x, y) {
        seq![(x, y)]
    } else {
        Seq::empty()
    }
}

/// The positions around `(x, y)` that lie in the grid, row by row and from
/// left to right: three for a corner, five on an edge, eight inside.
pub open spec fn neighbor_coords(width: int, height: int, x: int, y: int) -> Seq<(int, int)> {
    cell_if(width, height, x - 1, y - 1) + cell_if(width, height, x, y - 1) + cell_if(
        width,
        height,
        x + 1,
        y - 1,
    ) + cell_if(width, height, x - 1, y) + cell_if(width, height, x + 1, y) + cell_if(
        width,
        height,
        x - 1,
        y + 1,
    ) + cell_if(width, height, x, y + 1) + cell_if(width, height, x + 1, y + 1)
}

/// A position is listed among the neighbours of `(x, y)` exactly if it
/// lies in the grid and is one of the eight around `(x, y)`.
pub proof fn lemma_neighbor_coords_contains(width: int, height: int, x: int, y: int, c: (int, int))
    ensures
        neighbor_coords(width, height, x, y).contains(c) <==> in_grid(width, height, c.0, c.1)
            && near(x, y, c.0, c.1),
{
    let p0 = cell_if(width, height, x - 1, y - 1);
    let p1 = cell_if(width, height, x, y - 1);
    let p2 = cell_if(width, height, x + 1, y - 1);
    let p3 = cell_if(width, height, x - 1, y);
    let p4 = cell_if(width, height, x + 1, y);
    let p5 = cell_if(width, height, x - 1, y + 1);
    let p6 = cell_if(width, height, x, y + 1);
    let p7 = cell_if(width, height, x + 1, y + 1);
    lemma_cell_if_contains(width, height, x - 1, y - 1, c);
    lemma_cell_if_contains(width, height, x, y - 1, c);
    lemma_cell_if_contains(width, height, x + 1, y - 1, c);
    lemma_cell_if_contains(width, height, x - 1, y, c);
    lemma_cell_if_contains(width, height, x + 1, y, c);
    lemma_cell_if_contains(width, height, x - 1, y + 1, c);
    lemma_cell_if_contains(width, height, x, y + 1, c);
    lemma_cell_if_contains(width, height, x + 1, y + 1, c);
    lemma_seq_concat_contains_all_elements(p0, p1, c);
    lemma_seq_concat_contains_all_elements(p0 + p1, p2, c);
    lemma_seq_concat_contains_all_elements(p0 + p1 + p2, p3, c);
    lemma_seq_concat_contains_all_elements(p0 + p1 + p2 + p3, p4, c);
    lemma_seq_concat_contains_all_elements(p0 + p1 + p2 + p3 + p4, p5, c);
    lemma_seq_concat_contains_all_elements(p0 + p1 + p2 + p3 + p4 + p5, p6, c);
    lemma_seq_concat_contains_all_elements(p0 + p1 + p2 + p3 + p4 + p5 + p6, p7, c);
}

proof fn lemma_cell_if_contains(width: int, height: int, x: int, y: int, c: (int, int))
    ensures
        cell_if(width, height, x, y).contains(c) <==> in_grid(width, height, x, y) && c == (x, y),
{
    if in_grid(width, height, x, y) {
        assert(cell_if(width, height, x, y)[0] == (x, y));
    }
}

/// A cell has at most eight neighbours.
pub proof fn lemma_neighbor_coords_len(width: int, height: int, x: int, y: int)
    ensures
        neighbor_coords(width, height, x, y).len() <= 8,
{
}

/// Two cells touch exactly if the position of the second is listed among
/// the neighbours of the first.
pub proof fn lemma_adjacent_iff_listed(width: int, height: int, a: int, b: int)
    requires
        0 < width,
        0 <= a < width * height,
        0 <= b < width * height,
    ensures
        adjacent(width, height, a, b) <==> neighbor_coords(
            width,
            height,
            col_of(width, a),
            row_of(width, a),
        ).contains((col_of(width, b), row_of(width, b))),
{
    lemma_coord_roundtrip(width, height, b);
    lemma_neighbor_coords_contains(
        width,
        height,
        col_of(width, a),
        row_of(width, a),
        (col_of(width, b), row_of(width, b)),
    );
}

} // verus!
