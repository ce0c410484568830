//! What holds of boards: tiles are neither made nor lost, the score never
//! drops below zero, and occupied cells stay occupied.

use crate::board::{
    all_movable, copies, ledger_sum, movable, movable_count, not_start, penalty_total, BoardView,
    COL_BONUS, KIND_BONUS, MAX_BONUS, MAX_ROUND_GAIN, ROW_BONUS,
};
use crate::colors::Color;
use crate::grid::{
    cell_count, lemma_cell_count_bound, lemma_cell_count_empty, lemma_cell_count_with_cell,
    lemma_score_tile_bounds, lemma_with_cell, occupied, spec_num_full_colors,
    spec_num_full_columns, spec_num_full_rows, spec_played_column, with_cell,
};
use vstd::prelude::*;

verus! {

/// The tiles of two piles put together are the tiles of the one and of
/// the other.
pub proof fn lemma_movable_count_add(a: Seq<Color>, b: Seq<Color>)
    ensures
        movable_count(a + b) == movable_count(a) + movable_count(b),
{
    Seq::filter_distributes_over_add(a, b, movable());
}

/// One more tile on a pile counts if it is a tile.
pub proof fn lemma_movable_count_push(a: Seq<Color>, c: Color)
    ensures
        movable_count(a.push(c)) == movable_count(a) + (if c.spec_is_movable() {
            1int
        } else {
            0int
        }),
{
    a.lemma_filter_push(c, movable());
}

/// A pile of copies of a tile color holds as many tiles as copies; one
/// of copies of a marker holds none.
pub proof fn lemma_movable_count_copies(color: Color, n: int)
    requires
        n >= 0,
    ensures
        movable_count(copies(color, n)) == (if color.spec_is_movable() {
            n
        } else {
            0
        }),
    decreases n,
{
    reveal(Seq::filter);
    if n > 0 {
        lemma_movable_count_copies(color, n - 1);
        assert(copies(color, n) =~= copies(color, n - 1).push(color));
        lemma_movable_count_push(copies(color, n - 1), color);
    }
}

/// Without the blank marker, what is left of a pile when the turn-order
/// token is taken out is its tiles.
pub proof fn lemma_not_start_movable(tiles: Seq<Color>)
    requires
        forall|i: int| 0 <= i < tiles.len() ==> #[trigger] tiles[i] != Color::Blank,
    ensures
        all_movable(tiles.filter(not_start())),
        tiles.filter(not_start()).len() == movable_count(tiles),
    decreases tiles.len(),
{
    reveal(Seq::filter);
    if tiles.len() > 0 {
        let rest = tiles.drop_last();
        lemma_not_start_movable(rest);
        rest.lemma_filter_push(tiles.last(), not_start());
        rest.lemma_filter_push(tiles.last(), movable());
    }
}

/// The penalties of a round add up to -14 over the first seven trashed tiles
/// and stay there.
pub proof fn lemma_penalty_total(n: int)
    ensures
        n >= 7 ==> penalty_total(n) == -14,
        -14 <= penalty_total(n) <= 0,
        n == 1 ==> penalty_total(n) == -1,
        n == 2 ==> penalty_total(n) == -2,
        n == 3 ==> penalty_total(n) == -4,
        n == 4 ==> penalty_total(n) == -6,
        n == 5 ==> penalty_total(n) == -8,
        n == 6 ==> penalty_total(n) == -11,
    decreases n,
{
    if n > 0 {
        lemma_penalty_total(n - 1);
    }
}

/// A sequence with one more value holds what it held, and that value.
pub proof fn lemma_contains_push<A>(s: Seq<A>, x: A, y: A)
    ensures
        s.push(x).contains(y) <==> (s.contains(y) || x == y),
{
    if s.contains(y) {
        let i = choose|i: int| 0 <= i < s.len() && s[i] == y;
        assert(s.push(x)[i] == y);
    }
    if x == y {
        assert(s.push(x)[s.len() as int] == y);
    }
    if s.push(x).contains(y) {
        let i = choose|i: int| 0 <= i < s.push(x).len() && s.push(x)[i] == y;
        if i < s.len() {
            assert(s[i] == y);
        }
    }
}

/// Two sequences put together hold what the one or the other holds.
pub proof fn lemma_contains_add<A>(a: Seq<A>, b: Seq<A>, y: A)
    ensures
        (a + b).contains(y) <==> (a.contains(y) || b.contains(y)),
{
    if a.contains(y) {
        let i = choose|i: int| 0 <= i < a.len() && a[i] == y;
        assert((a + b)[i] == y);
    }
    if b.contains(y) {
        let i = choose|i: int| 0 <= i < b.len() && b[i] == y;
        assert((a + b)[a.len() + i] == y);
    }
    if (a + b).contains(y) {
        let i = choose|i: int| 0 <= i < (a + b).len() && (a + b)[i] == y;
        if i < a.len() {
            assert(a[i] == y);
        } else {
            assert(b[i - a.len()] == y);
        }
    }
}

impl BoardView {
    /// A board holds some tiles or none.
    pub proof fn lemma_tile_count_bounds(self)
        ensures
            0 <= self.tile_count(),
            0 <= self.staged_total(),
            self.staged_total() <= self.tile_count(),
    {
        lemma_cell_count_bound(self.grid);
    }

    /// A board with nothing on it is in play, holds no tile and has no
    /// score.
    pub proof fn lemma_fresh(self, name: Seq<char>)
        requires
            self.is_fresh(name),
        ensures
            self.in_play(),
            self.tile_count() == 0,
            self.total() == 0,
    {
        lemma_cell_count_empty(self.grid);
        reveal(Seq::filter);
        assert forall|k: int| 0 <= k <= self.ledger.len() implies 0 <= #[trigger] ledger_sum(
            self.ledger.take(k),
        ) <= i32::MAX by {
            assert(self.ledger.take(k) =~= Seq::<i32>::empty());
        }
    }

    /// Accepted tiles of a tile color all end up on the board, which stays
    /// in play; the grid is untouched and a locked row keeps its color.
    pub proof fn lemma_with_tiles(self, row: int, color: Color, n: int)
        requires
            self.in_play(),
            self.staging_error(row, color) is None,
            0 <= row,
            color.spec_is_movable(),
            0 < n,
        ensures
            self.with_tiles(row, color, n).in_play(),
            self.with_tiles(row, color, n).tile_count() == self.tile_count() + n,
            self.with_tiles(row, color, n).grid == self.grid,
            self.with_tiles(row, color, n).ledger == self.ledger,
            forall|r: int|
                0 <= r < 5 && self.locked[r] != Color::Blank ==> self.with_tiles(
                    row,
                    color,
                    n,
                ).locked[r] == self.locked[r],
    {
        let trashed = if row == 5 {
            n
        } else {
            n - self.kept(row, n)
        };
        lemma_movable_count_add(self.trash, copies(color, trashed));
        lemma_movable_count_copies(color, trashed);
    }

    /// Trashing tiles or the turn-order token keeps a board in play and
    /// touches nothing but the trash.
    pub proof fn lemma_with_trash(self, color: Color, n: int)
        requires
            self.in_play(),
            color != Color::Blank,
        ensures
            self.with_trash(color, n).in_play(),
            forall|row: int, c: Color|
                self.with_trash(color, n).staging_error(row, c) == self.staging_error(row, c),
    {
    }

    /// The turn-order token in the trash is no tile: the board stays in play
    /// and holds as many tiles as before.
    pub proof fn lemma_with_token(self)
        requires
            self.in_play(),
        ensures
            self.with_trash(Color::Start, 1).in_play(),
            self.with_trash(Color::Start, 1).tile_count() == self.tile_count(),
    {
        lemma_movable_count_add(self.trash, copies(Color::Start, 1));
        lemma_movable_count_copies(Color::Start, 1);
    }

    /// Each flushed row scores between 1 and 10.
    pub proof fn lemma_flush_gain(self, rows: int)
        requires
            0 <= rows <= 5,
        ensures
            0 <= self.flush(rows).gain <= 10 * rows,
        decreases rows,
    {
        if rows > 0 {
            self.lemma_flush_gain(rows - 1);
            let row = rows - 1;
            let col = spec_played_column(row, self.locked[row]);
            lemma_score_tile_bounds(with_cell(self.flush(rows - 1).grid, row, col), row, col);
        }
    }

    /// The score floor: after a round the total is the old total plus the
    /// round's raw score, or zero if that would be negative.
    pub proof fn lemma_score_floor(self)
        requires
            self.wf(),
        ensures
            self.after_round().total() == (if self.total() + self.raw_delta() < 0 {
                0
            } else {
                self.total() + self.raw_delta()
            }),
            0 <= self.after_round().total() <= self.total() + MAX_ROUND_GAIN,
            0 <= self.total(),
            -14 <= self.raw_delta() <= MAX_ROUND_GAIN,
            self.total() + MAX_ROUND_GAIN <= i32::MAX ==> self.after_round().wf(),
    {
        self.lemma_flush_gain(5);
        lemma_penalty_total(self.trash.len() as int);
        assert(self.ledger.take(self.ledger.len() as int) =~= self.ledger);
        let after = self.after_round();
        assert(after.ledger.drop_last() =~= self.ledger);
        if self.total() + MAX_ROUND_GAIN <= i32::MAX {
            assert forall|k: int| 0 <= k <= after.ledger.len() implies 0 <= #[trigger] ledger_sum(
                after.ledger.take(k),
            ) <= i32::MAX by {
                if k <= self.ledger.len() {
                    assert(after.ledger.take(k) =~= self.ledger.take(k));
                } else {
                    assert(after.ledger.take(k) =~= after.ledger);
                }
            }
            assert forall|r: int| 0 <= r < 5 implies #[trigger] after.staged[r] <= r + 1 by {
                assert(self.staged[r] <= r + 1);
            }
        }
    }

    /// What flushing the first rows does to the grid, the score and the
    /// tiles given back.
    pub proof fn lemma_flush(self, rows: int)
        requires
            self.in_play(),
            0 <= rows <= 5,
        ensures
            0 <= self.ready_rows(rows) <= self.flush(rows).gain <= 10 * self.ready_rows(rows),
            self.ready_rows(rows) <= rows,
            cell_count(self.flush(rows).grid) == cell_count(self.grid) + self.ready_rows(rows),
            self.flush(rows).returned.len() == self.ready_tiles(rows) - self.ready_rows(rows),
            all_movable(self.flush(rows).returned),
            forall|r: int, c: int|
                0 <= r < 5 && 0 <= c < 5 ==> occupied(self.flush(rows).grid, r, c) == (occupied(
                    self.grid,
                    r,
                    c,
                ) || (r < rows && self.row_ready(r) && c == spec_played_column(r, self.locked[r]))),
        decreases rows,
    {
        if rows > 0 {
            self.lemma_flush(rows - 1);
            let row = rows - 1;
            if self.row_ready(row) {
                let before = self.flush(rows - 1);
                let col = spec_played_column(row, self.locked[row]);
                let grid = with_cell(before.grid, row, col);
                lemma_cell_count_with_cell(before.grid, row, col);
                lemma_score_tile_bounds(grid, row, col);
                assert forall|r: int, c: int| 0 <= r < 5 && 0 <= c < 5 implies occupied(
                    self.flush(rows).grid,
                    r,
                    c,
                ) == (occupied(self.grid, r, c) || (r < rows && self.row_ready(r) && c
                    == spec_played_column(r, self.locked[r]))) by {
                    lemma_with_cell(before.grid, row, col, r, c);
                }
            }
        }
    }

    /// A board in play can always be scored, stays in play, keeps every
    /// occupied cell, and gives back exactly the tiles that leave it: those
    /// on the board after the round and those given back are those that
    /// were on it.
    pub proof fn lemma_round(self)
        requires
            self.in_play(),
            self.total() + MAX_ROUND_GAIN <= i32::MAX,
        ensures
            self.round_error() is None,
            self.after_round().in_play(),
            all_movable(self.round_returns()),
            self.after_round().tile_count() + self.round_returns().len() == self.tile_count(),
            forall|r: int, c: int|
                0 <= r < 5 && 0 <= c < 5 && occupied(self.grid, r, c) ==> occupied(
                    self.after_round().grid,
                    r,
                    c,
                ),
    {
        self.lemma_flush(5);
        self.lemma_score_floor();
        lemma_not_start_movable(self.trash);
        let after = self.after_round();
        reveal_with_fuel(BoardView::ready_tiles, 6);
        reveal_with_fuel(BoardView::ready_rows, 6);
        reveal(Seq::filter);
        assert forall|k: int| 0 <= k <= after.ledger.len() implies 0 <= #[trigger] ledger_sum(
            after.ledger.take(k),
        ) <= i32::MAX by {
            if k <= self.ledger.len() {
                assert(after.ledger.take(k) =~= self.ledger.take(k));
            } else {
                assert(after.ledger.take(k) =~= after.ledger);
            }
        }
        assert forall|r: int| 0 <= r < 5 && #[trigger] after.staged[r] > 0 implies after.locked[r]
            .spec_is_movable() && !after.is_played(r, after.locked[r]) by {
            assert(self.staged[r] > 0);
        }
    }

    /// The final bonuses change nothing but the ledger, by 95 at most.
    pub proof fn lemma_bonuses(self)
        requires
            self.wf(),
            self.total() + MAX_BONUS <= i32::MAX,
        ensures
            self.after_bonuses().wf(),
            self.in_play() ==> self.after_bonuses().in_play(),
            self.after_bonuses().tile_count() == self.tile_count(),
            self.after_bonuses().total() == self.total() + ROW_BONUS * spec_num_full_rows(
                self.grid,
            ) + COL_BONUS * spec_num_full_columns(self.grid) + KIND_BONUS * spec_num_full_colors(
                self.grid,
            ),
            self.total() <= self.after_bonuses().total() <= self.total() + MAX_BONUS,
    {
        let rows = (ROW_BONUS * spec_num_full_rows(self.grid)) as i32;
        let columns = (COL_BONUS * spec_num_full_columns(self.grid)) as i32;
        let colors = (KIND_BONUS * spec_num_full_colors(self.grid)) as i32;
        let one = self.ledger.push(rows);
        let two = one.push(columns);
        let three = two.push(colors);
        assert(one.drop_last() =~= self.ledger);
        assert(two.drop_last() =~= one);
        assert(three.drop_last() =~= two);
        assert(self.ledger.take(self.ledger.len() as int) =~= self.ledger);
        assert(ledger_sum(two) == ledger_sum(one) + columns);
        assert forall|k: int| 0 <= k <= three.len() implies 0 <= #[trigger] ledger_sum(
            three.take(k),
        ) <= i32::MAX by {
            if k <= self.ledger.len() {
                assert(three.take(k) =~= self.ledger.take(k));
            } else if k == self.ledger.len() + 1 {
                assert(three.take(k) =~= one);
            } else if k == self.ledger.len() + 2 {
                assert(three.take(k) =~= two);
            } else {
                assert(three.take(k) =~= three);
            }
        }
    }

    /// The destinations listed for a color are the trash and the staging
    /// rows that can take the color.
    pub proof fn lemma_valid_rows(self, color: Color, rows: int, row: usize)
        requires
            0 <= rows <= 5,
        ensures
            self.valid_rows(color, rows).contains(row) <==> (row == 5 || (row < rows
                && self.can_stage(row as int, color))),
        decreases rows,
    {
        if rows <= 0 {
            assert(seq![5usize][0] == 5);
        } else {
            self.lemma_valid_rows(color, rows - 1, row);
            if self.can_stage(rows - 1, color) {
                lemma_contains_push(self.valid_rows(color, rows - 1), (rows - 1) as usize, row);
            }
        }
    }

    /// For a tile color, a destination is listed exactly when the board
    /// would accept tiles there.
    pub proof fn lemma_valid_rows_accepted(self, color: Color, row: usize)
        requires
            color.spec_is_movable(),
        ensures
            self.valid_rows(color, 5).contains(row) <==> (row <= 5 && self.staging_error(
                row as int,
                color,
            ) is None),
    {
        self.lemma_valid_rows(color, 5, row);
    }
}

} // verus!
