//! A player's board as plain values, and what the rules make of it.

use crate::colors::Color;
use crate::grid::{
    cell_count, occupied, spec_num_full_colors, spec_num_full_columns, spec_num_full_rows,
    spec_played_column, spec_score_tile, with_cell, PlayGrid,
};
use crate::text::decimal_text;
use vstd::prelude::*;

verus! {

/// Points for each completed grid row, column and color at the end of the game.
pub const ROW_BONUS: i32 = 2;

/// Points for each full grid column at the end of the game.
pub const COL_BONUS: i32 = 7;

/// Points for each complete color at the end of the game.
pub const KIND_BONUS: i32 = 10;

/// No round places more than five tiles, and no tile scores more than ten.
pub const MAX_ROUND_GAIN: i32 = 50;

/// Five rows, five columns and five colors at most.
pub const MAX_BONUS: i32 = 95;

/// Why a board refuses tiles, or cannot be scored.
#[derive(Debug, Clone, Copy, PartialEq, Eq, Structural)]
pub enum BoardError {
    /// The destination is neither a staging row nor the trash.
    InvalidRow,
    /// The turn-order token cannot be staged.
    StartTile,
    /// The color already has its cell in that grid row.
    AlreadyPlayed { color: Color, row_number: usize },
    /// The staging row is at capacity.
    NoRoom { row_number: usize },
    /// The staging row holds another color.
    Locked { row_number: usize, color: Color },
}

/// Penalty for the tile at a position of the trash; none from the eighth on.
pub open spec fn trash_penalty(position: int) -> int {
    if position < 0 {
        0
    } else if position < 2 {
        -1
    } else if position < 5 {
        -2
    } else if position < 7 {
        -3
    } else {
        0
    }
}

/// Penalty for a trash of `n` tiles.
pub open spec fn penalty_total(n: int) -> int
    decreases n,
{
    if n <= 0 {
        0
    } else {
        penalty_total(n - 1) + trash_penalty(n - 1)
    }
}

/// The sum of the entries of a ledger.
pub open spec fn ledger_sum(ledger: Seq<i32>) -> int
    decreases ledger.len(),
{
    if ledger.len() == 0 {
        0
    } else {
        ledger_sum(ledger.drop_last()) + ledger.last()
    }
}

/// Everything but the turn-order token.
pub open spec fn not_start() -> spec_fn(Color) -> bool {
    |c: Color| c != Color::Start
}

/// The tiles: everything but the two markers.
pub open spec fn movable() -> spec_fn(Color) -> bool {
    |c: Color| c.spec_is_movable()
}

/// A pile of `n` copies of a color.
pub open spec fn copies(color: Color, n: int) -> Seq<Color> {
    Seq::new(n as nat, |i: int| color)
}

/// What flushing the first rows of a board has done so far.
pub struct Flush {
    pub grid: PlayGrid,
    pub gain: int,
    pub returned: Seq<Color>,
}

/// A player's board as plain values.
pub struct BoardView {
    pub name: Seq<char>,
    pub grid: PlayGrid,
    /// Tiles in each staging row.
    pub staged: Seq<usize>,
    /// Color of each staging row, `Blank` while it has none.
    pub locked: Seq<Color>,
    pub trash: Seq<Color>,
    /// Score changes, one per round and three for the final bonuses.
    pub ledger: Seq<i32>,
}

/// Number of tiles in a pile, the turn-order token and the blank marker not
/// counted.
pub open spec fn movable_count(tiles: Seq<Color>) -> int {
    tiles.filter(movable()).len() as int
}

/// Whether a pile holds tiles only.
pub open spec fn all_movable(tiles: Seq<Color>) -> bool {
    forall|i: int| 0 <= i < tiles.len() ==> (#[trigger] tiles[i]).spec_is_movable()
}

impl BoardError {
    /// The error in words. Rows are numbered from 1.
    pub open spec fn text(self) -> Seq<char> {
        match self {
            BoardError::InvalidRow => "invalid row"@,
            BoardError::StartTile => "the start tile can only be trashed"@,
            BoardError::AlreadyPlayed { color, row_number } => "color "@ + color.spec_name()
                + " has already been played in row "@ + decimal_text(row_number as nat),
            BoardError::NoRoom { row_number } => "no room left in row "@ + decimal_text(
                row_number as nat,
            ),
            BoardError::Locked { row_number, color } => "working row "@ + decimal_text(
                row_number as nat,
            ) + " is locked to color "@ + color.spec_name(),
        }
    }
}

impl BoardView {
    /// Row `r` holds at most `r + 1` tiles, and the running total has never
    /// been negative nor beyond what the score type holds.
    pub open spec fn wf(self) -> bool {
        &&& self.staged.len() == 5
        &&& self.locked.len() == 5
        &&& forall|r: int| 0 <= r < 5 ==> #[trigger] self.staged[r] <= r + 1
        &&& forall|k: int|
            0 <= k <= self.ledger.len() ==> 0 <= #[trigger] ledger_sum(self.ledger.take(k))
                <= i32::MAX
    }

    /// The cumulative score.
    pub open spec fn total(self) -> int {
        ledger_sum(self.ledger)
    }

    /// Whether a color already has its cell in a grid row.
    pub open spec fn is_played(self, row: int, color: Color) -> bool {
        occupied(self.grid, row, spec_played_column(row, color))
    }

    /// The board with `n` more copies of a color in the trash.
    pub open spec fn with_trash(self, color: Color, n: int) -> BoardView {
        BoardView { trash: self.trash + copies(color, n), ..self }
    }

    /// Why tiles of a color cannot go to a destination; `None` if they can.
    pub open spec fn staging_error(self, row: int, color: Color) -> Option<BoardError> {
        if row == 5 {
            None
        } else if row > 5 {
            Some(BoardError::InvalidRow)
        } else if color == Color::Start {
            Some(BoardError::StartTile)
        } else if self.is_played(row, color) {
            Some(BoardError::AlreadyPlayed { color, row_number: (row + 1) as usize })
        } else if self.staged[row] >= row + 1 {
            Some(BoardError::NoRoom { row_number: (row + 1) as usize })
        } else if self.locked[row] != color && self.locked[row] != Color::Blank {
            Some(BoardError::Locked { row_number: (row + 1) as usize, color: self.locked[row] })
        } else {
            None
        }
    }

    /// How many of `n` tiles find room in a staging row.
    pub open spec fn kept(self, row: int, n: int) -> int {
        let room = row + 1 - self.staged[row];
        if n > room {
            room
        } else {
            n
        }
    }

    /// The board after it has accepted `n` tiles: the row takes what it has
    /// room for and the rest goes to the trash; row 5 is the trash itself.
    pub open spec fn with_tiles(self, row: int, color: Color, n: int) -> BoardView {
        if row == 5 {
            self.with_trash(color, n)
        } else {
            let kept = self.kept(row, n);
            BoardView {
                staged: self.staged.update(row, (self.staged[row] + kept) as usize),
                locked: self.locked.update(row, color),
                trash: self.trash + copies(color, n - kept),
                ..self
            }
        }
    }

    /// Whether a staging row can take tiles of a color.
    pub open spec fn can_stage(self, row: int, color: Color) -> bool {
        &&& self.locked[row] == color || self.locked[row] == Color::Blank
        &&& !self.is_played(row, color)
        &&& self.staged[row] <= row
    }

    /// The destinations open to a color among the first staging rows, in
    /// ascending order after the trash, which is always open.
    pub open spec fn valid_rows(self, color: Color, rows: int) -> Seq<usize>
        decreases rows,
    {
        if rows <= 0 {
            seq![5usize]
        } else if self.can_stage(rows - 1, color) {
            self.valid_rows(color, rows - 1).push((rows - 1) as usize)
        } else {
            self.valid_rows(color, rows - 1)
        }
    }

    /// A staging row is flushed at the end of the round when it is full.
    pub open spec fn row_ready(self, row: int) -> bool {
        self.staged[row] > row
    }

    /// A full staging row whose grid cell is already taken.
    pub open spec fn row_blocked(self, row: int) -> bool {
        self.row_ready(row) && self.is_played(row, self.locked[row])
    }

    /// Why the round cannot be scored: the first blocked row, if any.
    pub open spec fn round_error(self) -> Option<BoardError> {
        if self.row_blocked(0) {
            Some(BoardError::AlreadyPlayed { color: self.locked[0], row_number: 1 })
        } else if self.row_blocked(1) {
            Some(BoardError::AlreadyPlayed { color: self.locked[1], row_number: 2 })
        } else if self.row_blocked(2) {
            Some(BoardError::AlreadyPlayed { color: self.locked[2], row_number: 3 })
        } else if self.row_blocked(3) {
            Some(BoardError::AlreadyPlayed { color: self.locked[3], row_number: 4 })
        } else if self.row_blocked(4) {
            Some(BoardError::AlreadyPlayed { color: self.locked[4], row_number: 5 })
        } else {
            None
        }
    }

    /// Flushes the full rows among the first `rows`, top down: one tile goes
    /// to the grid and is scored against the grid as it then stands, the
    /// others are returned.
    pub open spec fn flush(self, rows: int) -> Flush
        decreases rows,
    {
        if rows <= 0 {
            Flush { grid: self.grid, gain: 0, returned: Seq::empty() }
        } else {
            let before = self.flush(rows - 1);
            let row = rows - 1;
            if self.row_ready(row) {
                let col = spec_played_column(row, self.locked[row]);
                let grid = with_cell(before.grid, row, col);
                Flush {
                    grid,
                    gain: before.gain + spec_score_tile(grid, row, col),
                    returned: before.returned + copies(self.locked[row], self.staged[row] - 1),
                }
            } else {
                before
            }
        }
    }

    /// The round's score before the floor is applied.
    pub open spec fn raw_delta(self) -> int {
        self.flush(5).gain + penalty_total(self.trash.len() as int)
    }

    /// The round's entry in the ledger: the total never goes below zero.
    pub open spec fn round_delta(self) -> int {
        if self.total() + self.raw_delta() < 0 {
            -self.total()
        } else {
            self.raw_delta()
        }
    }

    /// The tiles that leave the board at the end of the round: the rest of
    /// each flushed row, then the trash without the turn-order token.
    pub open spec fn round_returns(self) -> Seq<Color> {
        self.flush(5).returned + self.trash.filter(not_start())
    }

    /// The board after the round has been scored: the full rows are
    /// flushed and free again, the trash is empty, and the ledger has the
    /// round's entry.
    pub open spec fn after_round(self) -> BoardView {
        BoardView {
            name: self.name,
            grid: self.flush(5).grid,
            staged: Seq::new(
                5,
                |r: int|
                    if self.row_ready(r) {
                        0usize
                    } else {
                        self.staged[r]
                    },
            ),
            locked: Seq::new(
                5,
                |r: int|
                    if self.row_ready(r) {
                        Color::Blank
                    } else {
                        self.locked[r]
                    },
            ),
            trash: Seq::empty(),
            ledger: self.ledger.push(self.round_delta() as i32),
        }
    }

    /// The board after the three final bonuses have gone to the ledger.
    pub open spec fn after_bonuses(self) -> BoardView {
        BoardView {
            ledger: self.ledger.push((ROW_BONUS * spec_num_full_rows(self.grid)) as i32).push(
                (COL_BONUS * spec_num_full_columns(self.grid)) as i32,
            ).push((KIND_BONUS * spec_num_full_colors(self.grid)) as i32),
            ..self
        }
    }

    /// Tiles in the staging rows.
    pub open spec fn staged_total(self) -> int {
        self.staged[0] + self.staged[1] + self.staged[2] + self.staged[3] + self.staged[4]
    }

    /// Tiles on the board: staged, placed and trashed. The turn-order token is
    /// no tile.
    pub open spec fn tile_count(self) -> int {
        self.staged_total() + cell_count(self.grid) + movable_count(self.trash)
    }

    /// What holds of a board that only ever received drafted tiles and the
    /// turn-order token: no blank marker lies in the trash, and a staging
    /// row with tiles is locked to a tile color whose grid cell is free.
    pub open spec fn in_play(self) -> bool {
        &&& self.wf()
        &&& forall|i: int| 0 <= i < self.trash.len() ==> #[trigger] self.trash[i] != Color::Blank
        &&& forall|r: int|
            0 <= r < 5 && #[trigger] self.staged[r] > 0 ==> self.locked[r].spec_is_movable()
                && !self.is_played(r, self.locked[r])
    }

    /// Tiles in the full rows among the first `rows`.
    pub open spec fn ready_tiles(self, rows: int) -> int
        decreases rows,
    {
        if rows <= 0 {
            0
        } else if self.row_ready(rows - 1) {
            self.ready_tiles(rows - 1) + self.staged[rows - 1]
        } else {
            self.ready_tiles(rows - 1)
        }
    }

    /// Number of full rows among the first `rows`.
    pub open spec fn ready_rows(self, rows: int) -> int
        decreases rows,
    {
        if rows <= 0 {
            0
        } else if self.row_ready(rows - 1) {
            self.ready_rows(rows - 1) + 1
        } else {
            self.ready_rows(rows - 1)
        }
    }

    /// A board with nothing on it.
    pub open spec fn is_fresh(self, name: Seq<char>) -> bool {
        &&& self.name == name
        &&& forall|r: int, c: int| 0 <= r < 5 && 0 <= c < 5 ==> !occupied(self.grid, r, c)
        &&& self.staged == seq![0usize, 0, 0, 0, 0]
        &&& self.locked == seq![
            Color::Blank,
            Color::Blank,
            Color::Blank,
            Color::Blank,
            Color::Blank,
        ]
        &&& self.trash == Seq::<Color>::empty()
        &&& self.ledger == Seq::<i32>::empty()
    }
}

} // verus!
