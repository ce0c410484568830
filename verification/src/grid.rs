//! The scoring grid: where a color goes, and what a tile scores there.

use crate::colors::Color;
use vstd::prelude::*;

verus! {

/// Occupancy of a player's 5 x 5 scoring grid, by row and column.
pub type PlayGrid = [[bool; 5]; 5];

/// The column in which a color goes in a row: colors run along diagonals.
pub open spec fn spec_played_column(row: int, color: Color) -> int {
    (color.spec_index() + row) % 5
}

/// The position of the color that belongs in a cell.
pub open spec fn spec_played_color(row: int, column: int) -> int {
    (column - row) % 5
}

/// Whether a cell holds a tile.
pub open spec fn occupied(grid: PlayGrid, row: int, col: int) -> bool {
    grid[row][col]
}

/// The grid with one more cell occupied.
pub open spec fn with_cell(grid: PlayGrid, row: int, col: int) -> PlayGrid {
    vstd::array::spec_array_update(grid, row, vstd::array::spec_array_update(grid[row], col, true))
}

/// A row of the grid, from left to right.
pub open spec fn grid_row(grid: PlayGrid, row: int) -> Seq<bool> {
    Seq::new(5, |c: int| grid[row][c])
}

/// A column of the grid, from top to bottom.
pub open spec fn grid_column(grid: PlayGrid, col: int) -> Seq<bool> {
    Seq::new(5, |r: int| grid[r][col])
}

/// Number of occupied cells directly after position `i`, up to the first gap.
pub open spec fn run_after(line: Seq<bool>, i: int) -> int
    decreases line.len() - i,
{
    if 0 <= i + 1 < line.len() && line[i + 1] {
        1 + run_after(line, i + 1)
    } else {
        0
    }
}

/// Number of occupied cells directly before position `i`, down to the first gap.
pub open spec fn run_before(line: Seq<bool>, i: int) -> int
    decreases i,
{
    if 0 <= i - 1 < line.len() && line[i - 1] {
        1 + run_before(line, i - 1)
    } else {
        0
    }
}

/// Length of the unbroken run through position `i`, the position included.
pub open spec fn run_through(line: Seq<bool>, i: int) -> int {
    1 + run_after(line, i) + run_before(line, i)
}

/// Points for a tile at a cell: the lengths of the horizontal and the
/// vertical run through it, where a run of one counts nothing unless both
/// are runs of one.
pub open spec fn spec_score_tile(grid: PlayGrid, row: int, col: int) -> int {
    let horiz = run_through(grid_row(grid, row), col);
    let vert = run_through(grid_column(grid, col), row);
    if horiz == 1 || vert == 1 {
        horiz + vert - 1
    } else {
        horiz + vert
    }
}

/// Whether all five cells of a row are occupied.
pub open spec fn row_full(grid: PlayGrid, row: int) -> bool {
    &&& occupied(grid, row, 0)
    &&& occupied(grid, row, 1)
    &&& occupied(grid, row, 2)
    &&& occupied(grid, row, 3)
    &&& occupied(grid, row, 4)
}

/// Whether all five cells of a column are occupied.
pub open spec fn column_full(grid: PlayGrid, col: int) -> bool {
    &&& occupied(grid, 0, col)
    &&& occupied(grid, 1, col)
    &&& occupied(grid, 2, col)
    &&& occupied(grid, 3, col)
    &&& occupied(grid, 4, col)
}

/// A color is complete when its cell is occupied in every row.
pub open spec fn color_full(grid: PlayGrid, color: int) -> bool {
    &&& occupied(grid, 0, color % 5)
    &&& occupied(grid, 1, (color + 1) % 5)
    &&& occupied(grid, 2, (color + 2) % 5)
    &&& occupied(grid, 3, (color + 3) % 5)
    &&& occupied(grid, 4, (color + 4) % 5)
}

/// One for what holds, zero for what does not.
pub open spec fn one_if(b: bool) -> int {
    if b {
        1
    } else {
        0
    }
}

/// Number of full rows.
pub open spec fn spec_num_full_rows(grid: PlayGrid) -> int {
    one_if(row_full(grid, 0)) + one_if(row_full(grid, 1)) + one_if(row_full(grid, 2)) + one_if(
        row_full(grid, 3),
    ) + one_if(row_full(grid, 4))
}

/// Number of full columns.
pub open spec fn spec_num_full_columns(grid: PlayGrid) -> int {
    one_if(column_full(grid, 0)) + one_if(column_full(grid, 1)) + one_if(column_full(grid, 2))
        + one_if(column_full(grid, 3)) + one_if(column_full(grid, 4))
}

/// Number of complete colors.
pub open spec fn spec_num_full_colors(grid: PlayGrid) -> int {
    one_if(color_full(grid, 0)) + one_if(color_full(grid, 1)) + one_if(color_full(grid, 2))
        + one_if(color_full(grid, 3)) + one_if(color_full(grid, 4))
}

/// Number of occupied cells among the first `n` in row-major order.
pub open spec fn cells_before(grid: PlayGrid, n: int) -> int
    decreases n,
{
    if n <= 0 {
        0
    } else {
        cells_before(grid, n - 1) + one_if(occupied(grid, (n - 1) / 5, (n - 1) % 5))
    }
}

/// Number of occupied cells of the grid.
pub open spec fn cell_count(grid: PlayGrid) -> int {
    cells_before(grid, 25)
}

/// The column in which a color goes in a row.
pub fn played_column(row: usize, color: Color) -> (col: usize)
    ensures
        col == spec_played_column(row as int, color),
        col < 5,
{
    (color.index() + row % 5) % 5
}

/// The position of the color that belongs in a cell.
pub fn played_color(row: usize, column: usize) -> (color: usize)
    ensures
        color == spec_played_color(row as int, column as int),
        color < 5,
{
    (column % 5 + 5 - row % 5) % 5
}

fn horizontal_run(grid: &PlayGrid, row: usize, col: usize) -> (len: i32)
    requires
        row < 5,
        col < 5,
    ensures
        len == run_through(grid_row(*grid, row as int), col as int),
        1 <= len <= 5,
{
    let ghost line = grid_row(*grid, row as int);
    let mut len: i32 = 1;
    let mut c: usize = col + 1;
    while c < 5 && grid[row][c]
        invariant
            row < 5,
            col < c <= 5,
            line == grid_row(*grid, row as int),
            len == c - col,
            run_after(line, col as int) == (c - col - 1) + run_after(line, c - 1),
        decreases 5 - c,
    {
        len += 1;
        c += 1;
    }
    let ghost after = len;
    let mut c: usize = col;
    while c > 0 && grid[row][c - 1]
        invariant
            row < 5,
            c <= col < 5,
            line == grid_row(*grid, row as int),
            len == after + (col - c),
            1 <= after <= 5 - col,
            run_before(line, col as int) == (col - c) + run_before(line, c as int),
        decreases c,
    {
        len += 1;
        c -= 1;
    }
    len
}

fn vertical_run(grid: &PlayGrid, row: usize, col: usize) -> (len: i32)
    requires
        row < 5,
        col < 5,
    ensures
        len == run_through(grid_column(*grid, col as int), row as int),
        1 <= len <= 5,
{
    let ghost line = grid_column(*grid, col as int);
    let mut len: i32 = 1;
    let mut r: usize = row + 1;
    while r < 5 && grid[r][col]
        invariant
            col < 5,
            row < r <= 5,
            line == grid_column(*grid, col as int),
            len == r - row,
            run_after(line, row as int) == (r - row - 1) + run_after(line, r - 1),
        decreases 5 - r,
    {
        len += 1;
        r += 1;
    }
    let ghost after = len;
    let mut r: usize = row;
    while r > 0 && grid[r - 1][col]
        invariant
            col < 5,
            r <= row < 5,
            line == grid_column(*grid, col as int),
            len == after + (row - r),
            1 <= after <= 5 - row,
            run_before(line, row as int) == (row - r) + run_before(line, r as int),
        decreases r,
    {
        len += 1;
        r -= 1;
    }
    len
}

/// Scores the tile at a cell against the grid as it stands.
pub fn score_tile(grid: &PlayGrid, row: usize, col: usize) -> (score: i32)
    requires
        row < 5,
        col < 5,
    ensures
        score == spec_score_tile(*grid, row as int, col as int),
        1 <= score <= 10,
{
    let horiz = horizontal_run(grid, row, col);
    let vert = vertical_run(grid, row, col);
    if horiz == 1 || vert == 1 {
        horiz + vert - 1
    } else {
        horiz + vert
    }
}

/// A run after a position ends at the end of the line at the latest.
pub proof fn lemma_run_after_bound(line: Seq<bool>, i: int)
    requires
        -1 <= i < line.len(),
    ensures
        0 <= run_after(line, i) <= line.len() - 1 - i,
    decreases line.len() - i,
{
    if i + 1 < line.len() && line[i + 1] {
        lemma_run_after_bound(line, i + 1);
    }
}

/// A run before a position starts at the start of the line at the earliest.
pub proof fn lemma_run_before_bound(line: Seq<bool>, i: int)
    requires
        0 <= i <= line.len(),
    ensures
        0 <= run_before(line, i) <= i,
    decreases i,
{
    if 0 <= i - 1 && line[i - 1] {
        lemma_run_before_bound(line, i - 1);
    }
}

/// A tile scores between 1 and 10.
pub proof fn lemma_score_tile_bounds(grid: PlayGrid, row: int, col: int)
    requires
        0 <= row < 5,
        0 <= col < 5,
    ensures
        1 <= spec_score_tile(grid, row, col) <= 10,
{
    lemma_run_after_bound(grid_row(grid, row), col);
    lemma_run_before_bound(grid_row(grid, row), col);
    lemma_run_after_bound(grid_column(grid, col), row);
    lemma_run_before_bound(grid_column(grid, col), row);
}

/// Occupying a cell changes that cell and no other.
pub proof fn lemma_with_cell(grid: PlayGrid, row: int, col: int, r: int, c: int)
    requires
        0 <= row < 5,
        0 <= col < 5,
        0 <= r < 5,
        0 <= c < 5,
    ensures
        occupied(with_cell(grid, row, col), r, c) == (occupied(grid, r, c) || (r == row && c
            == col)),
{
}

proof fn lemma_cells_before_with_cell(grid: PlayGrid, row: int, col: int, n: int)
    requires
        0 <= row < 5,
        0 <= col < 5,
        0 <= n <= 25,
        !occupied(grid, row, col),
    ensures
        cells_before(with_cell(grid, row, col), n) == cells_before(grid, n) + one_if(
            n > 5 * row + col,
        ),
    decreases n,
{
    if n > 0 {
        lemma_cells_before_with_cell(grid, row, col, n - 1);
        lemma_with_cell(grid, row, col, (n - 1) / 5, (n - 1) % 5);
    }
}

/// Occupying a free cell adds one to the number of occupied cells.
pub proof fn lemma_cell_count_with_cell(grid: PlayGrid, row: int, col: int)
    requires
        0 <= row < 5,
        0 <= col < 5,
        !occupied(grid, row, col),
    ensures
        cell_count(with_cell(grid, row, col)) == cell_count(grid) + 1,
{
    lemma_cells_before_with_cell(grid, row, col, 25);
}

proof fn lemma_cells_before_bound(grid: PlayGrid, n: int)
    requires
        0 <= n,
    ensures
        0 <= cells_before(grid, n) <= n,
    decreases n,
{
    if n > 0 {
        lemma_cells_before_bound(grid, n - 1);
    }
}

proof fn lemma_cells_before_empty(grid: PlayGrid, n: int)
    requires
        0 <= n <= 25,
        forall|r: int, c: int| 0 <= r < 5 && 0 <= c < 5 ==> !occupied(grid, r, c),
    ensures
        cells_before(grid, n) == 0,
    decreases n,
{
    if n > 0 {
        lemma_cells_before_empty(grid, n - 1);
    }
}

/// An empty grid holds no tile.
pub proof fn lemma_cell_count_empty(grid: PlayGrid)
    requires
        forall|r: int, c: int| 0 <= r < 5 && 0 <= c < 5 ==> !occupied(grid, r, c),
    ensures
        cell_count(grid) == 0,
{
    lemma_cells_before_empty(grid, 25);
}

/// A grid holds at most 25 tiles.
pub proof fn lemma_cell_count_bound(grid: PlayGrid)
    ensures
        0 <= cell_count(grid) <= 25,
{
    lemma_cells_before_bound(grid, 25);
}

/// In each row the five tile colors take the five columns, one each:
/// `played_color` undoes `played_column` and the other way round.
pub proof fn lemma_column_color_inverse(row: int, color: Color, column: int)
    requires
        0 <= row < 5,
    ensures
        color.spec_is_movable() ==> spec_played_color(row, spec_played_column(row, color))
            == color.spec_index(),
        0 <= column < 5 ==> (spec_played_column(row, color) == column && color.spec_is_movable()
            <==> Color::spec_from_index(spec_played_color(row, column)) == Some(color)),
{
}

} // verus!
