//! A game as plain values, and what the rules make of it.

use crate::board::{all_movable, BoardError, BoardView, MAX_BONUS, MAX_ROUND_GAIN};
use crate::colors::Color;
use crate::grid::spec_num_full_rows;
use crate::player_move::Move;
use crate::text::decimal_text;
use vstd::prelude::*;

verus! {

/// Tiles of each color in the game.
pub const TILES_PER_COLOR: usize = 20;

/// Tiles in the game: five colors, twenty of each.
pub const TILE_COUNT: usize = 100;

/// Tiles that a factory is dealt at the start of a round.
pub const FACTORY_SIZE: usize = 4;

/// Why a turn or the end of a round is refused.
#[derive(Debug, Clone, Copy, PartialEq, Eq, Structural)]
pub enum GameError {
    /// The move names the turn-order token or the blank marker.
    NotMovable { color: Color },
    /// The move names a destination beyond the trash.
    NoSuchRow { row: usize },
    /// The center holds no tile of the color.
    NotInCenter { color: Color },
    /// The move names a factory that the game does not have.
    NoSuchFactory { factory_idx: usize },
    /// The factory holds no tile of the color.
    NotInFactory { color: Color, factory_idx: usize },
    /// The player's board refuses the tiles.
    Board(BoardError),
    /// Tiles are still on offer.
    RoundNotOver,
}

/// Number of tiles of a color in a pile.
pub open spec fn count_of(tiles: Seq<Color>, color: Color) -> int
    decreases tiles.len(),
{
    if tiles.len() == 0 {
        0
    } else {
        count_of(tiles.drop_last(), color) + (if tiles.last() == color {
            1int
        } else {
            0int
        })
    }
}

/// Number of tiles in the first `n` piles.
pub open spec fn piles_total(piles: Seq<Seq<Color>>, n: int) -> int
    decreases n,
{
    if n <= 0 {
        0
    } else {
        piles_total(piles, n - 1) + piles[n - 1].len()
    }
}

/// Number of tiles on the first `n` boards.
pub open spec fn boards_total(boards: Seq<BoardView>, n: int) -> int
    decreases n,
{
    if n <= 0 {
        0
    } else {
        boards_total(boards, n - 1) + boards[n - 1].tile_count()
    }
}

/// The tiles that the first `n` boards give back at the end of a round, in
/// the order of the boards.
pub open spec fn boards_returns(boards: Seq<BoardView>, n: int) -> Seq<Color>
    decreases n,
{
    if n <= 0 {
        Seq::empty()
    } else {
        boards_returns(boards, n - 1) + boards[n - 1].round_returns()
    }
}

/// Whether one of the boards has a full grid row.
pub open spec fn any_full_row(boards: Seq<BoardView>) -> bool {
    exists|p: int| 0 <= p < boards.len() && spec_num_full_rows((#[trigger] boards[p]).grid) > 0
}

/// The draw pile in its order at the start of a game, before it is shuffled.
pub open spec fn full_bag() -> Seq<Color> {
    Seq::new(TILE_COUNT as nat, |i: int| Color::spec_from_index(i % 5).unwrap())
}

/// The tiles that factory `f` is dealt from a draw pile: they come off the
/// end of the pile, four to a factory, as long as there are any.
pub open spec fn dealt(bag: Seq<Color>, f: int) -> Seq<Color> {
    let left = bag.len() - FACTORY_SIZE * f;
    let n = if left <= 0 {
        0
    } else if left >= FACTORY_SIZE {
        FACTORY_SIZE as int
    } else {
        left
    };
    Seq::new(n as nat, |i: int| bag[bag.len() - 1 - FACTORY_SIZE * f - i])
}

/// A game as plain values.
pub struct GameView {
    /// The draw pile; tiles are drawn from its end.
    pub bag: Seq<Color>,
    /// The discard pile.
    pub lid: Seq<Color>,
    pub factories: Seq<Seq<Color>>,
    /// Tiles of each tile color in the center, by the color's position.
    pub center: Seq<usize>,
    /// Whether the turn-order token lies in the center.
    pub token: bool,
    pub players: Seq<BoardView>,
    /// The player who starts the next round, or the number of players while
    /// nobody has claimed the turn-order token in this round.
    pub first: usize,
    /// The player whose turn it is.
    pub current: usize,
    pub round: usize,
}

/// The names as plain text.
pub open spec fn names_of(player_names: &[&str]) -> Seq<Seq<char>> {
    Seq::new(player_names@.len(), |i: int| player_names@[i]@)
}

/// The boards after the round has been scored on each.
pub open spec fn scored(boards: Seq<BoardView>) -> Seq<BoardView> {
    Seq::new(boards.len(), |p: int| boards[p].after_round())
}

/// The boards after the final bonuses have been added on each.
pub open spec fn with_bonuses(boards: Seq<BoardView>) -> Seq<BoardView> {
    Seq::new(boards.len(), |p: int| boards[p].after_bonuses())
}

/// Number of tiles that the first `n` factories are dealt from a draw pile.
pub open spec fn dealt_total(bag: Seq<Color>, n: int) -> int
    decreases n,
{
    if n <= 0 {
        0
    } else {
        dealt_total(bag, n - 1) + dealt(bag, n - 1).len()
    }
}

/// The moves that take a color from a source to each of some rows.
pub open spec fn moves_to(source: usize, color: Color, rows: Seq<usize>) -> Seq<Move> {
    Seq::new(rows.len(), |i: int| Move { factory_idx: source, color, working_row: rows[i] })
}

impl GameError {
    /// The error in words.
    pub open spec fn text(self) -> Seq<char> {
        match self {
            GameError::NotMovable { color } => color.spec_name() + " tiles are not movable."@,
            GameError::NoSuchRow { row } => "Cannot move to row "@ + decimal_text(row as nat)
                + "."@,
            GameError::NotInCenter { color } => "Color "@ + color.spec_name()
                + " is not in the center."@,
            GameError::NoSuchFactory { factory_idx } => "There is no factory #"@ + decimal_text(
                factory_idx as nat,
            ) + "."@,
            GameError::NotInFactory { color, factory_idx } => "Color "@ + color.spec_name()
                + " is not in factory #"@ + decimal_text(factory_idx as nat) + "."@,
            GameError::Board(e) => e.text(),
            GameError::RoundNotOver => "round isn't over"@,
        }
    }
}

impl GameView {
    /// Tiles in the center.
    pub open spec fn center_total(self) -> int {
        self.center[0] + self.center[1] + self.center[2] + self.center[3] + self.center[4]
    }

    /// All the tiles of the game, wherever they lie.
    pub open spec fn tile_total(self) -> int {
        self.bag.len() + self.lid.len() + piles_total(self.factories, self.factories.len() as int)
            + self.center_total() + boards_total(self.players, self.players.len() as int)
    }

    /// What holds of every game between two calls: there is a factory more
    /// than twice the players, and that many can be counted; it is a
    /// player's turn, an unclaimed
    /// turn-order token lies in the center, the piles hold tiles only, every
    /// board is in play, and no tile has appeared or gone.
    pub open spec fn wf(self) -> bool {
        &&& self.players.len() >= 1
        &&& self.factories.len() == 2 * self.players.len() + 1
        &&& self.factories.len() <= usize::MAX
        &&& self.center.len() == 5
        &&& self.current < self.players.len()
        &&& self.first <= self.players.len()
        &&& self.first == self.players.len() ==> self.token
        &&& all_movable(self.bag)
        &&& all_movable(self.lid)
        &&& forall|f: int|
            0 <= f < self.factories.len() ==> all_movable(#[trigger] self.factories[f])
        &&& forall|p: int| 0 <= p < self.players.len() ==> (#[trigger] self.players[p]).in_play()
        &&& self.tile_total() == TILE_COUNT
    }

    /// Tiles on offer: in the factories and in the center.
    pub open spec fn on_offer(self) -> int {
        piles_total(self.factories, self.factories.len() as int) + self.center_total()
    }

    /// Whether nobody has claimed the turn-order token in this round.
    pub open spec fn token_available(self) -> bool {
        self.first == self.players.len()
    }

    /// Whether no factory holds a tile.
    pub open spec fn factories_empty(self) -> bool {
        forall|f: int| 0 <= f < self.factories.len() ==> (#[trigger] self.factories[f]).len() == 0
    }

    /// A round is over when nothing at all is left on offer: every factory
    /// is empty and the center holds neither a tile nor the turn-order
    /// token.
    pub open spec fn round_over(self) -> bool {
        &&& self.factories_empty()
        &&& self.center_total() == 0
        &&& !self.token
    }

    /// The game is over once a player has a full grid row.
    pub open spec fn finished(self) -> bool {
        any_full_row(self.players)
    }

    /// What the center holds of a color; the turn-order token counts as
    /// one of its own color.
    pub open spec fn center_count(self, color: Color) -> int {
        if color.spec_is_movable() {
            self.center[color.spec_index()] as int
        } else if color == Color::Start && self.token {
            1
        } else {
            0
        }
    }

    /// The number of tiles that a move takes from its source.
    pub open spec fn tiles_at(self, m: Move) -> Result<int, GameError> {
        if m.factory_idx == 0 {
            if self.center_count(m.color) > 0 {
                Ok(self.center_count(m.color))
            } else {
                Err(GameError::NotInCenter { color: m.color })
            }
        } else if m.factory_idx - 1 < self.factories.len() {
            Ok(count_of(self.factories[m.factory_idx - 1], m.color))
        } else {
            Err(GameError::NoSuchFactory { factory_idx: m.factory_idx })
        }
    }

    /// Why the current player cannot make a move; `None` if they can.
    pub open spec fn turn_error(self, m: Move) -> Option<GameError> {
        if !m.color.spec_is_movable() {
            Some(GameError::NotMovable { color: m.color })
        } else if m.working_row > 5 {
            Some(GameError::NoSuchRow { row: m.working_row })
        } else {
            match self.tiles_at(m) {
                Err(e) => Some(e),
                Ok(n) => if n == 0 {
                    Some(GameError::NotInFactory { color: m.color, factory_idx: m.factory_idx })
                } else {
                    match self.players[self.current as int].staging_error(
                        m.working_row as int,
                        m.color,
                    ) {
                        Some(e) => Some(GameError::Board(e)),
                        None => None,
                    }
                },
            }
        }
    }

    /// Whether a move also claims the turn-order token: the first draft
    /// from the center in a round does.
    pub open spec fn claims_token(self, m: Move) -> bool {
        m.factory_idx == 0 && self.token_available()
    }

    /// The current player's board after a move.
    pub open spec fn board_after(self, m: Move) -> BoardView {
        let staged = self.players[self.current as int].with_tiles(
            m.working_row as int,
            m.color,
            self.tiles_at(m).unwrap(),
        );
        if self.claims_token(m) {
            staged.with_trash(Color::Start, 1)
        } else {
            staged
        }
    }

    /// The center after a move: a draft from the center takes the color
    /// away, a draft from a factory spills the factory's other tiles into
    /// the center.
    pub open spec fn center_after(self, m: Move) -> Seq<usize> {
        if m.factory_idx == 0 {
            self.center.update(m.color.spec_index(), 0usize)
        } else {
            Seq::new(
                5,
                |c: int|
                    if c == m.color.spec_index() {
                        self.center[c]
                    } else {
                        (self.center[c] + count_of(
                            self.factories[m.factory_idx - 1],
                            Color::spec_from_index(c).unwrap(),
                        )) as usize
                    },
            )
        }
    }

    /// The game after a move, before the turn passes on.
    pub open spec fn drafted(self, m: Move) -> GameView {
        GameView {
            factories: if m.factory_idx == 0 {
                self.factories
            } else {
                self.factories.update(m.factory_idx - 1, Seq::empty())
            },
            center: self.center_after(m),
            token: self.token && !self.claims_token(m),
            players: self.players.update(self.current as int, self.board_after(m)),
            first: if self.claims_token(m) {
                self.current
            } else {
                self.first
            },
            ..self
        }
    }

    /// The game after an accepted move: the turn passes to the next player
    /// unless the move has ended the round.
    pub open spec fn after_turn(self, m: Move) -> GameView {
        let drafted = self.drafted(m);
        if drafted.round_over() {
            drafted
        } else {
            GameView {
                current: ((self.current + 1) % (self.players.len() as int)) as usize,
                ..drafted
            }
        }
    }

    /// The game at the start of a round: the player with the turn-order
    /// token begins, the token goes back to the center, and every factory
    /// is dealt from the draw pile.
    pub open spec fn round_started(self) -> GameView {
        let taken = FACTORY_SIZE * self.factories.len();
        GameView {
            bag: if taken >= self.bag.len() {
                Seq::empty()
            } else {
                self.bag.take(self.bag.len() - taken)
            },
            factories: Seq::new(
                self.factories.len(),
                |f: int| self.factories[f] + dealt(self.bag, f),
            ),
            token: true,
            first: self.players.len() as usize,
            current: self.first,
            round: (self.round + 1) as usize,
            ..self
        }
    }

    /// The boards after the round has been scored on each.
    pub open spec fn scored_players(self) -> Seq<BoardView> {
        scored(self.players)
    }

    /// The discard pile after every board has given its tiles back.
    pub open spec fn lid_after_round(self) -> Seq<Color> {
        self.lid + boards_returns(self.players, self.players.len() as int)
    }

    /// Whether the draw pile cannot fill the factories of the next round.
    pub open spec fn bag_runs_short(self) -> bool {
        self.bag.len() < FACTORY_SIZE * self.factories.len()
    }

    /// Whether scoring the round ends the game.
    pub open spec fn ends_game(self) -> bool {
        any_full_row(self.scored_players())
    }

    /// A game before its first round: shuffled draw pile, empty factories,
    /// the turn-order token in the center, fresh boards, and a first player.
    pub open spec fn is_setup(self, names: Seq<Seq<char>>, bag: Seq<Color>, first: usize) -> bool {
        &&& self.bag == bag
        &&& self.lid == Seq::<Color>::empty()
        &&& self.factories.len() == 2 * names.len() + 1
        &&& self.factories_empty()
        &&& self.center == seq![0usize, 0, 0, 0, 0]
        &&& self.token
        &&& self.players.len() == names.len()
        &&& forall|p: int| 0 <= p < names.len() ==> (#[trigger] self.players[p]).is_fresh(names[p])
        &&& self.first == first
        &&& self.current == 0
        &&& self.round == 0
    }

    /// Every player's score leaves room for one more round and the final
    /// bonuses.
    pub open spec fn scores_have_room(self) -> bool {
        forall|p: int|
            0 <= p < self.players.len() ==> (#[trigger] self.players[p]).total() + MAX_ROUND_GAIN
                + MAX_BONUS <= i32::MAX
    }

    /// Whether the end of the round refills the draw pile: the game goes
    /// on and the pile cannot fill the factories.
    pub open spec fn reshuffles(self) -> bool {
        !self.ends_game() && self.bag_runs_short()
    }

    /// The tiles of the draw pile after the end of the round, in the order
    /// that they have when the pile is not refilled.
    pub open spec fn bag_after_round(self) -> Seq<Color> {
        if self.reshuffles() {
            self.bag + self.lid_after_round()
        } else {
            self.bag
        }
    }

    /// The game after the end of a round, with the draw pile in a given
    /// order: every board is scored and gives its tiles back to the
    /// discard pile; if that ends the game the final bonuses are added;
    /// if not and the draw pile runs short, the discard pile goes into it.
    pub open spec fn round_finished(self, bag: Seq<Color>) -> GameView {
        GameView {
            bag,
            lid: if self.reshuffles() {
                Seq::empty()
            } else {
                self.lid_after_round()
            },
            players: if self.ends_game() {
                with_bonuses(self.scored_players())
            } else {
                self.scored_players()
            },
            ..self
        }
    }

    /// Whether a source holds a tile of a tile color. Source 0 is the
    /// center, source `k > 0` is factory `k - 1`.
    pub open spec fn offers(self, source: int, color: Color) -> bool {
        if source == 0 {
            self.center[color.spec_index()] > 0
        } else {
            count_of(self.factories[source - 1], color) > 0
        }
    }

    /// The current player's moves from one source, for the first colors:
    /// color by color, and for each color the trash first and then the
    /// open staging rows from the top.
    pub open spec fn source_moves(self, source: int, colors: int) -> Seq<Move>
        decreases colors,
    {
        if colors <= 0 {
            Seq::empty()
        } else {
            let color = Color::spec_from_index(colors - 1).unwrap();
            let before = self.source_moves(source, colors - 1);
            if self.offers(source, color) {
                before + moves_to(
                    source as usize,
                    color,
                    self.players[self.current as int].valid_rows(color, 5),
                )
            } else {
                before
            }
        }
    }

    /// The current player's moves from the first factories, factory by
    /// factory.
    pub open spec fn factory_moves(self, factories: int) -> Seq<Move>
        decreases factories,
    {
        if factories <= 0 {
            Seq::empty()
        } else {
            self.factory_moves(factories - 1) + self.source_moves(factories, 5)
        }
    }

    /// All the current player's moves: from the factories, then from the
    /// center.
    pub open spec fn all_moves(self) -> Seq<Move> {
        self.factory_moves(self.factories.len() as int) + self.source_moves(0, 5)
    }
}

} // verus!
