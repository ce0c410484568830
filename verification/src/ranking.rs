//! How the agents rank moves: by the score that a move leads to if the
//! game ended with the round, and by a bias that breaks ties.

use crate::board::BoardView;
use crate::game::GameView;
use crate::grid::spec_played_column;
use crate::player_move::Move;
use vstd::prelude::*;

verus! {

/// Largest weight, either way, that the greedy ranking works with.
pub const MAX_WEIGHT: i32 = 1_000_000;

/// The weights of the greedy ranking as plain numbers.
pub struct Weights {
    /// For taking the turn-order token, apart from its penalty.
    pub first_player: int,
    /// For staging into an empty row.
    pub new_row: int,
    /// For each row above the first, when staging into an empty row.
    pub new_row_factor: int,
    /// For drafting from the center.
    pub center: int,
    /// For each tile drafted.
    pub num_tiles: int,
    /// For each column left of the middle of the grid.
    pub middle: int,
}

/// A move's rank: the score that it leads to, then its bias.
pub type Key = (int, int);

/// Ranks compare by the score first and by the bias second.
pub open spec fn key_le(a: Key, b: Key) -> bool {
    a.0 < b.0 || (a.0 == b.0 && a.1 <= b.1)
}

/// The position of the highest rank among the first `n`; of equal ranks
/// the last one wins.
pub open spec fn last_max(keys: Seq<Key>, n: int) -> int
    decreases n,
{
    if n <= 1 {
        0
    } else {
        let before = last_max(keys, n - 1);
        if key_le(keys[before], keys[n - 1]) {
            n - 1
        } else {
            before
        }
    }
}

/// The score that a board would have if the game ended with this round.
pub open spec fn closing_score(board: BoardView) -> int {
    board.after_round().after_bonuses().total()
}

/// The current player's board as the greedy ranking sees it after a
/// move: the drafted tiles are on it, and one more tile is in the trash
/// where the move also takes the turn-order token.
pub open spec fn simulated_board(g: GameView, m: Move) -> BoardView {
    let board = g.players[g.current as int];
    let marked = if g.claims_token(m) {
        board.with_trash(m.color, 1)
    } else {
        board
    };
    marked.with_tiles(m.working_row as int, m.color, g.tiles_at(m).unwrap())
}

impl Weights {
    /// No weight is beyond `MAX_WEIGHT` either way.
    pub open spec fn wf(self) -> bool {
        &&& -MAX_WEIGHT <= self.first_player <= MAX_WEIGHT
        &&& -MAX_WEIGHT <= self.new_row <= MAX_WEIGHT
        &&& -MAX_WEIGHT <= self.new_row_factor <= MAX_WEIGHT
        &&& -MAX_WEIGHT <= self.center <= MAX_WEIGHT
        &&& -MAX_WEIGHT <= self.num_tiles <= MAX_WEIGHT
        &&& -MAX_WEIGHT <= self.middle <= MAX_WEIGHT
    }

    /// What breaks ties between moves that lead to the same score.
    pub open spec fn bias(self, g: GameView, m: Move) -> int {
        let board = g.players[g.current as int];
        (if m.factory_idx == 0 {
            self.center + (if g.token_available() {
                self.first_player
            } else {
                0
            })
        } else {
            0
        }) + (if m.working_row < 5 && board.staged[m.working_row as int] == 0 {
            self.new_row + m.working_row * self.new_row_factor
        } else {
            0
        }) + self.num_tiles * g.tiles_at(m).unwrap() + self.middle * (2 - spec_played_column(
            m.working_row as int,
            m.color,
        ))
    }

    /// The rank of a move in a game.
    pub open spec fn key(self, g: GameView, m: Move) -> Key {
        (closing_score(simulated_board(g, m)), self.bias(g, m))
    }

    /// The ranks of the current player's moves, in the order of the moves.
    pub open spec fn keys(self, g: GameView) -> Seq<Key> {
        Seq::new(g.all_moves().len(), |i: int| self.key(g, g.all_moves()[i]))
    }

    /// The greedy choice: the move of the highest rank, the last of them
    /// where several have it.
    pub open spec fn greedy_move(self, g: GameView) -> Move {
        g.all_moves()[last_max(self.keys(g), g.all_moves().len() as int)]
    }
}

/// The position of the highest rank is a position, nothing ranks above
/// it, and everything after it ranks below it.
pub proof fn lemma_last_max(keys: Seq<Key>, n: int)
    requires
        1 <= n <= keys.len(),
    ensures
        0 <= last_max(keys, n) < n,
        forall|j: int| 0 <= j < n ==> key_le(#[trigger] keys[j], keys[last_max(keys, n)]),
        forall|j: int|
            last_max(keys, n) < j < n ==> !key_le(keys[last_max(keys, n)], #[trigger] keys[j]),
    decreases n,
{
    if n > 1 {
        lemma_last_max(keys, n - 1);
    }
}

/// Whether the move at position `i` ranks above the one at position `j`:
/// by its rank, and among equal ranks the later move.
pub open spec fn outranks(keys: Seq<Key>, i: int, j: int) -> bool {
    !key_le(keys[i], keys[j]) || (keys[i] == keys[j] && i > j)
}

/// How many of the first `n` moves rank above the move at position `i`.
pub open spec fn rank(keys: Seq<Key>, i: int, n: int) -> int
    decreases n,
{
    if n <= 0 {
        0
    } else {
        rank(keys, i, n - 1) + (if outranks(keys, n - 1, i) {
            1int
        } else {
            0int
        })
    }
}

/// A move that nothing among the first `n` ranks above has rank zero.
proof fn lemma_rank_zero(keys: Seq<Key>, i: int, n: int)
    requires
        0 <= n <= keys.len(),
        forall|j: int| 0 <= j < n ==> !outranks(keys, j, i),
    ensures
        rank(keys, i, n) == 0,
    decreases n,
{
    if n > 0 {
        lemma_rank_zero(keys, i, n - 1);
    }
}

/// The greedy choice is the move that no other move ranks above.
pub proof fn lemma_greedy_rank(keys: Seq<Key>)
    requires
        keys.len() > 0,
    ensures
        rank(keys, last_max(keys, keys.len() as int), keys.len() as int) == 0,
{
    let n = keys.len() as int;
    lemma_last_max(keys, n);
    lemma_rank_zero(keys, last_max(keys, n), n);
}

} // verus!
