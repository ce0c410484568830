//! One player's board: staging, trashing and scoring.

use crate::board::{
    copies, ledger_sum, not_start, penalty_total, trash_penalty, BoardError, BoardView,
    COL_BONUS, KIND_BONUS, MAX_BONUS, MAX_ROUND_GAIN, ROW_BONUS,
};
use crate::board_laws::lemma_penalty_total;
use crate::colors::Color;
use crate::grid::{
    color_full, column_full, row_full, spec_num_full_colors, spec_num_full_columns,
    spec_num_full_rows,
};
pub use crate::grid::{played_color, played_column, score_tile, PlayGrid};
use crate::text::decimal;
use vstd::prelude::*;

verus! {

impl BoardError {
    /// The error in words, as callers see it.
    pub fn message(&self) -> (s: String)
        ensures
            s@ == self.text(),
    {
        match *self {
            BoardError::InvalidRow => String::from_str("invalid row"),
            BoardError::StartTile => String::from_str("the start tile can only be trashed"),
            BoardError::AlreadyPlayed { color, row_number } => {
                let mut s = String::from_str("color ");
                s.append(color.name());
                s.append(" has already been played in row ");
                s.append(decimal(row_number).as_str());
                s
            },
            BoardError::NoRoom { row_number } => {
                let mut s = String::from_str("no room left in row ");
                s.append(decimal(row_number).as_str());
                s
            },
            BoardError::Locked { row_number, color } => {
                let mut s = String::from_str("working row ");
                s.append(decimal(row_number).as_str());
                s.append(" is locked to color ");
                s.append(color.name());
                s
            },
        }
    }
}

/// One player's board: the scoring grid, the five staging rows, the trash of
/// the current round and the score ledger.
#[derive(Debug)]
pub struct PlayerState {
    pub display_name: String,
    played_tiles: PlayGrid,
    working_count: [usize; 5],
    working_color: [Color; 5],
    trashed_tiles: Vec<Color>,
    scores: Vec<i32>,
}

impl View for PlayerState {
    type V = BoardView;

    closed spec fn view(&self) -> BoardView {
        BoardView {
            name: self.display_name@,
            grid: self.played_tiles,
            staged: self.working_count@,
            locked: self.working_color@,
            trash: self.trashed_tiles@,
            ledger: self.scores@,
        }
    }
}

/// The penalty for the trashed tile at a position.
fn penalty(position: usize) -> (p: i32)
    ensures
        p == trash_penalty(position as int),
{
    if position < 2 {
        -1
    } else if position < 5 {
        -2
    } else if position < 7 {
        -3
    } else {
        0
    }
}

proof fn lemma_ledger_push(ledger: Seq<i32>, entry: i32)
    ensures
        ledger_sum(ledger.push(entry)) == ledger_sum(ledger) + entry,
{
    assert(ledger.push(entry).drop_last() =~= ledger);
}

proof fn lemma_ledger_take(ledger: Seq<i32>, k: int)
    requires
        0 <= k < ledger.len(),
    ensures
        ledger_sum(ledger.take(k + 1)) == ledger_sum(ledger.take(k)) + ledger[k],
{
    assert(ledger.take(k + 1).drop_last() =~= ledger.take(k));
}

/// Appending an entry keeps a ledger in range when the new total is.
proof fn lemma_ledger_extend(ledger: Seq<i32>, entry: i32)
    requires
        forall|k: int|
            0 <= k <= ledger.len() ==> 0 <= #[trigger] ledger_sum(ledger.take(k)) <= i32::MAX,
        0 <= ledger_sum(ledger) + entry <= i32::MAX,
    ensures
        forall|k: int|
            0 <= k <= ledger.len() + 1 ==> 0 <= #[trigger] ledger_sum(ledger.push(entry).take(k))
                <= i32::MAX,
{
    let longer = ledger.push(entry);
    assert forall|k: int| 0 <= k <= ledger.len() + 1 implies 0 <= #[trigger] ledger_sum(
        longer.take(k),
    ) <= i32::MAX by {
        if k <= ledger.len() {
            assert(longer.take(k) =~= ledger.take(k));
        } else {
            assert(longer.take(k) =~= longer);
            lemma_ledger_push(ledger, entry);
        }
    }
}

impl PlayerState {
    /// Whether the board is well formed, as it is between any two calls.
    pub open spec fn wf(&self) -> bool {
        self@.wf()
    }

    /// A board with nothing on it.
    pub fn new(name: &str) -> (p: PlayerState)
        ensures
            p.wf(),
            p@.is_fresh(name@),
    {
        let p = PlayerState {
            display_name: String::from_str(name),
            played_tiles: [[false; 5]; 5],
            working_count: [0; 5],
            working_color: [Color::Blank; 5],
            trashed_tiles: Vec::new(),
            scores: Vec::new(),
        };
        assert(p@.staged =~= seq![0usize, 0, 0, 0, 0]);
        assert(p@.locked =~= seq![
            Color::Blank,
            Color::Blank,
            Color::Blank,
            Color::Blank,
            Color::Blank,
        ]);
        p
    }

    /// The cumulative score.
    pub fn score(&self) -> (total: i32)
        requires
            self.wf(),
        ensures
            total == self@.total(),
            total >= 0,
    {
        let mut total: i32 = 0;
        let n = self.scores.len();
        for i in 0..n
            invariant
                n == self.scores.len(),
                self.wf(),
                total == ledger_sum(self.scores@.take(i as int)),
        {
            proof {
                lemma_ledger_take(self.scores@, i as int);
                assert(0 <= ledger_sum(self@.ledger.take(i + 1)) <= i32::MAX);
            }
            total += self.scores[i];
        }
        assert(self.scores@.take(n as int) =~= self.scores@);
        assert(0 <= ledger_sum(self@.ledger.take(n as int)));
        total
    }

    /// Whether a staging row is empty.
    pub fn is_new_working_row(&self, row: usize) -> (r: bool)
        ensures
            r == (row < 5 && self@.staged[row as int] == 0),
    {
        row < 5 && self.working_count[row] == 0
    }

    /// Puts `num_tiles` tiles of one color in the trash.
    pub fn send_to_trash(&mut self, c: Color, num_tiles: usize)
        ensures
            final(self)@ == old(self)@.with_trash(c, num_tiles as int),
            old(self).wf() ==> final(self).wf(),
    {
        for i in 0..num_tiles
            invariant
                self@ == old(self)@.with_trash(c, i as int),
        {
            self.trashed_tiles.push(c);
            assert(old(self)@.trash + copies(c, i + 1) =~= (old(self)@.trash + copies(
                c,
                i as int,
            )).push(c));
        }
    }

    /// Whether a color already has its cell in a grid row.
    pub fn is_played(&self, row: usize, c: Color) -> (r: bool)
        requires
            row < 5,
        ensures
            r == self@.is_played(row as int, c),
    {
        self.played_tiles[row][played_column(row, c)]
    }

    /// Stages tiles of one color in a row, or trashes them with row 5. What
    /// the row has no room for is trashed. A refused call changes nothing.
    pub fn add_tiles(&mut self, row: usize, color: Color, num_tiles: usize) -> (r: Result<
        (),
        String,
    >)
        ensures
            old(self).wf() ==> final(self).wf(),
            match r {
                Ok(()) => old(self)@.staging_error(row as int, color) is None && final(self)@
                    == old(self)@.with_tiles(row as int, color, num_tiles as int),
                Err(msg) => old(self)@.staging_error(row as int, color) matches Some(e) && msg@
                    == e.text() && final(self)@ == old(self)@,
            },
    {
        if row == 5 {
            self.send_to_trash(color, num_tiles);
            return Ok(());
        }
        if row > 5 {
            return Err(BoardError::InvalidRow.message());
        }
        if color == Color::Start {
            return Err(BoardError::StartTile.message());
        }
        let row_number = 1 + row;
        if self.is_played(row, color) {
            return Err(BoardError::AlreadyPlayed { color, row_number }.message());
        }
        let w_count = self.working_count[row];
        if w_count >= row_number {
            return Err(BoardError::NoRoom { row_number }.message());
        }
        let w_color = self.working_color[row];
        if w_color != color {
            if w_color != Color::Blank {
                return Err(BoardError::Locked { row_number, color: w_color }.message());
            }
        }
        self.working_color[row] = color;
        let room = row_number - w_count;
        if num_tiles > room {
            self.working_count[row] = row_number;
            self.send_to_trash(color, num_tiles - room);
        } else {
            self.working_count[row] = w_count + num_tiles;
        }
        assert(self@.staged =~= old(self)@.with_tiles(
            row as int,
            color,
            num_tiles as int,
        ).staged);
        assert(self@.locked =~= old(self)@.with_tiles(
            row as int,
            color,
            num_tiles as int,
        ).locked);
        Ok(())
    }

    /// Ends the round on this board. Each full staging row puts one tile on
    /// the grid, which is scored, and gives the others back; the trash is
    /// penalized by position and given back without the turn-order token; the
    /// round's score, floored so that the total stays at zero or above, goes
    /// to the ledger. Returns the tiles given back. A board with a full row
    /// whose cell is taken is refused and left as it was.
    pub fn score_round(&mut self) -> (r: Result<Vec<Color>, String>)
        requires
            old(self).wf(),
            old(self)@.total() + MAX_ROUND_GAIN <= i32::MAX,
        ensures
            final(self).wf(),
            match r {
                Ok(tiles) => old(self)@.round_error() is None && final(self)@
                    == old(self)@.after_round() && tiles@ == old(self)@.round_returns(),
                Err(msg) => old(self)@.round_error() matches Some(e) && msg@ == e.text()
                    && final(self)@ == old(self)@,
            },
    {
        let ghost before = self@;
        for row in 0..5
            invariant
                self@ == before,
                before.wf(),
                forall|r: int| 0 <= r < row ==> !before.row_blocked(r),
        {
            if self.working_count[row] > row {
                let color = self.working_color[row];
                if self.is_played(row, color) {
                    return Err(BoardError::AlreadyPlayed { color, row_number: row + 1 }.message());
                }
            }
        }
        let mut round_score: i32 = 0;
        let mut returned_tiles: Vec<Color> = Vec::new();
        for row in 0..5
            invariant
                before.wf(),
                self.played_tiles == before.flush(row as int).grid,
                round_score == before.flush(row as int).gain,
                0 <= round_score <= 10 * row,
                returned_tiles@ == before.flush(row as int).returned,
                forall|r: int|
                    0 <= r < 5 ==> #[trigger] self.working_count@[r] == (if r < row
                        && before.row_ready(r) {
                        0usize
                    } else {
                        before.staged[r]
                    }),
                forall|r: int|
                    0 <= r < 5 ==> #[trigger] self.working_color@[r] == (if r < row
                        && before.row_ready(r) {
                        Color::Blank
                    } else {
                        before.locked[r]
                    }),
                self.trashed_tiles@ == before.trash,
                self.scores@ == before.ledger,
                self.display_name@ == before.name,
        {
            let count = self.working_count[row];
            if count > row {
                let color = self.working_color[row];
                let ghost base = returned_tiles@;
                for i in 1..count
                    invariant
                        returned_tiles@ == base + copies(color, i - 1),
                {
                    returned_tiles.push(color);
                    assert(base + copies(color, i as int) =~= (base + copies(color, i - 1)).push(
                        color,
                    ));
                }
                let column = played_column(row, color);
                let mut line = self.played_tiles[row];
                line[column] = true;
                self.played_tiles[row] = line;
                round_score += score_tile(&self.played_tiles, row, column);
                self.working_color[row] = Color::Blank;
                self.working_count[row] = 0;
            }
        }
        let ghost flushed = before.flush(5);
        let n = self.trashed_tiles.len();
        proof {
            reveal(Seq::filter);
        }
        for idx in 0..n
            invariant
                n == self.trashed_tiles.len(),
                self.trashed_tiles@ == before.trash,
                round_score == flushed.gain + penalty_total(idx as int),
                0 <= flushed.gain <= 50,
                returned_tiles@ == flushed.returned + before.trash.take(idx as int).filter(
                    not_start(),
                ),
        {
            proof {
                lemma_penalty_total(idx as int);
                lemma_penalty_total(idx + 1);
            }
            if idx < 7 {
                round_score += penalty(idx);
            }
            let color = self.trashed_tiles[idx];
            if color != Color::Start {
                returned_tiles.push(color);
            }
            proof {
                let shorter = before.trash.take(idx as int);
                assert(before.trash.take(idx + 1) =~= shorter.push(color));
                shorter.lemma_filter_push(color, not_start());
                assert(flushed.returned + shorter.filter(not_start()).push(color) =~= (
                flushed.returned + shorter.filter(not_start())).push(color));
            }
        }
        proof {
            assert(before.trash.take(n as int) =~= before.trash);
            lemma_penalty_total(n as int);
        }
        self.trashed_tiles.clear();
        let prev_score = self.score();
        if prev_score + round_score < 0 {
            round_score = -prev_score;
        }
        self.scores.push(round_score);
        proof {
            lemma_ledger_extend(before.ledger, round_score);
            assert(self@.staged =~= before.after_round().staged);
            assert(self@.locked =~= before.after_round().locked);
        }
        Ok(returned_tiles)
    }

    /// Number of grid rows with all five cells occupied.
    pub fn num_full_rows(&self) -> (n: i32)
        ensures
            n == spec_num_full_rows(self@.grid),
            0 <= n <= 5,
    {
        let mut n: i32 = 0;
        if is_row_full(&self.played_tiles, 0) {
            n += 1;
        }
        if is_row_full(&self.played_tiles, 1) {
            n += 1;
        }
        if is_row_full(&self.played_tiles, 2) {
            n += 1;
        }
        if is_row_full(&self.played_tiles, 3) {
            n += 1;
        }
        if is_row_full(&self.played_tiles, 4) {
            n += 1;
        }
        n
    }

    /// Number of grid columns with all five cells occupied.
    pub fn num_full_columns(&self) -> (n: i32)
        ensures
            n == spec_num_full_columns(self@.grid),
            0 <= n <= 5,
    {
        let mut n: i32 = 0;
        if is_column_full(&self.played_tiles, 0) {
            n += 1;
        }
        if is_column_full(&self.played_tiles, 1) {
            n += 1;
        }
        if is_column_full(&self.played_tiles, 2) {
            n += 1;
        }
        if is_column_full(&self.played_tiles, 3) {
            n += 1;
        }
        if is_column_full(&self.played_tiles, 4) {
            n += 1;
        }
        n
    }

    /// Number of colors that have their cell in every grid row.
    pub fn num_full_colors(&self) -> (n: i32)
        ensures
            n == spec_num_full_colors(self@.grid),
            0 <= n <= 5,
    {
        let mut n: i32 = 0;
        if is_color_full(&self.played_tiles, 0) {
            n += 1;
        }
        if is_color_full(&self.played_tiles, 1) {
            n += 1;
        }
        if is_color_full(&self.played_tiles, 2) {
            n += 1;
        }
        if is_color_full(&self.played_tiles, 3) {
            n += 1;
        }
        if is_color_full(&self.played_tiles, 4) {
            n += 1;
        }
        n
    }

    /// Adds the three end-of-game entries to the ledger: for full rows, full
    /// columns and complete colors.
    pub fn score_bonuses(&mut self)
        requires
            old(self).wf(),
            old(self)@.total() + MAX_BONUS <= i32::MAX,
        ensures
            final(self).wf(),
            final(self)@ == old(self)@.after_bonuses(),
    {
        let rows = ROW_BONUS * self.num_full_rows();
        let columns = COL_BONUS * self.num_full_columns();
        let colors = KIND_BONUS * self.num_full_colors();
        proof {
            assert(self@.ledger.take(self.scores@.len() as int) =~= self.scores@);
            lemma_ledger_extend(self.scores@, rows);
            lemma_ledger_push(self.scores@, rows);
            lemma_ledger_extend(self.scores@.push(rows), columns);
            lemma_ledger_push(self.scores@.push(rows), columns);
            lemma_ledger_extend(self.scores@.push(rows).push(columns), colors);
        }
        self.scores.push(rows);
        self.scores.push(columns);
        self.scores.push(colors);
    }

    /// The destinations open to a color: the trash, then each staging row
    /// that is unlocked or locked to the color, not full, and whose grid
    /// cell for the color is free.
    pub fn valid_moves(&self, c: Color) -> (rows: Vec<usize>)
        ensures
            rows@ == self@.valid_rows(c, 5),
    {
        let mut result: Vec<usize> = Vec::new();
        result.push(5);
        for row in 0..5
            invariant
                result@ == self@.valid_rows(c, row as int),
        {
            let w_color = self.working_color[row];
            if (w_color == c || w_color == Color::Blank) && !self.is_played(row, c)
                && self.working_count[row] <= row {
                result.push(row);
            }
        }
        result
    }

    /// A board made of given parts, if they make a well-formed one: no
    /// staging row over its capacity, and a ledger whose running total is
    /// never negative nor out of range.
    pub fn from_parts(
        name: &str,
        grid: PlayGrid,
        counts: [usize; 5],
        colors: [Color; 5],
        trash: Vec<Color>,
        scores: Vec<i32>,
    ) -> (r: Option<PlayerState>)
        ensures
            r is Some <==> (BoardView {
                name: name@,
                grid,
                staged: counts@,
                locked: colors@,
                trash: trash@,
                ledger: scores@,
            }).wf(),
            r matches Some(p) ==> p@ == (BoardView {
                name: name@,
                grid,
                staged: counts@,
                locked: colors@,
                trash: trash@,
                ledger: scores@,
            }),
    {
        for row in 0..5
            invariant
                forall|r: int| 0 <= r < row ==> #[trigger] counts@[r] <= r + 1,
        {
            if counts[row] > row + 1 {
                return None;
            }
        }
        let mut total: i64 = 0;
        let n = scores.len();
        for i in 0..n
            invariant
                n == scores.len(),
                total == ledger_sum(scores@.take(i as int)),
                forall|k: int|
                    0 <= k <= i ==> 0 <= #[trigger] ledger_sum(scores@.take(k)) <= i32::MAX,
        {
            proof {
                lemma_ledger_take(scores@, i as int);
            }
            total = total + scores[i] as i64;
            if total < 0 || total > i32::MAX as i64 {
                proof {
                    let parts = BoardView {
                        name: name@,
                        grid,
                        staged: counts@,
                        locked: colors@,
                        trash: trash@,
                        ledger: scores@,
                    };
                    assert(!(0 <= ledger_sum(parts.ledger.take(i + 1)) <= i32::MAX));
                }
                return None;
            }
        }
        Some(
            PlayerState {
                display_name: String::from_str(name),
                played_tiles: grid,
                working_count: counts,
                working_color: colors,
                trashed_tiles: trash,
                scores,
            },
        )
    }

    pub fn played_tiles(&self) -> (grid: PlayGrid)
        ensures
            grid == self@.grid,
    {
        self.played_tiles
    }

    pub fn working_count(&self) -> (counts: [usize; 5])
        ensures
            counts@ == self@.staged,
    {
        self.working_count
    }

    pub fn working_color(&self) -> (colors: [Color; 5])
        ensures
            colors@ == self@.locked,
    {
        self.working_color
    }

    pub fn trashed_tiles(&self) -> (tiles: &Vec<Color>)
        ensures
            tiles@ == self@.trash,
    {
        &self.trashed_tiles
    }

    /// The ledger: one entry per scored round, three per final scoring.
    pub fn scores(&self) -> (ledger: &Vec<i32>)
        ensures
            ledger@ == self@.ledger,
    {
        &self.scores
    }

    pub fn name(&self) -> (name: &String)
        ensures
            name@ == self@.name,
    {
        &self.display_name
    }
}

impl Clone for PlayerState {
    fn clone(&self) -> (copy: PlayerState)
        ensures
            copy@ == self@,
    {
        let copy = PlayerState {
            display_name: self.display_name.clone(),
            played_tiles: self.played_tiles,
            working_count: self.working_count,
            working_color: self.working_color,
            trashed_tiles: self.trashed_tiles.clone(),
            scores: self.scores.clone(),
        };
        copy
    }
}

fn is_row_full(grid: &PlayGrid, row: usize) -> (r: bool)
    requires
        row < 5,
    ensures
        r == row_full(*grid, row as int),
{
    grid[row][0] && grid[row][1] && grid[row][2] && grid[row][3] && grid[row][4]
}

fn is_column_full(grid: &PlayGrid, col: usize) -> (r: bool)
    requires
        col < 5,
    ensures
        r == column_full(*grid, col as int),
{
    grid[0][col] && grid[1][col] && grid[2][col] && grid[3][col] && grid[4][col]
}

fn is_color_full(grid: &PlayGrid, color: usize) -> (r: bool)
    requires
        color < 5,
    ensures
        r == color_full(*grid, color as int),
{
    grid[0][color % 5] && grid[1][(color + 1) % 5] && grid[2][(color + 2) % 5] && grid[3][(color
        + 3) % 5] && grid[4][(color + 4) % 5]
}

} // verus!
