//! The game itself: setting up, dealing, drafting, and ending a round.

use crate::board::{all_movable, BoardView, MAX_BONUS, MAX_ROUND_GAIN};
use crate::colors::Color;
use crate::game::{
    boards_returns, count_of, dealt, full_bag, moves_to, names_of, with_bonuses, GameError,
    GameView, FACTORY_SIZE, TILES_PER_COLOR, TILE_COUNT,
};
use crate::game_laws::{lemma_count_of_bounds, lemma_count_of_push};
use crate::grid::spec_num_full_rows;
use crate::player_move::Move;
use crate::player_state::PlayerState;
use crate::random::{random_index, shuffle_tiles};
use crate::text::decimal;
use rand::rngs::StdRng;
use vstd::prelude::*;

verus! {

impl GameError {
    /// The error in words, as callers see it.
    pub fn message(&self) -> (s: String)
        ensures
            s@ == self.text(),
    {
        match *self {
            GameError::NotMovable { color } => {
                let mut s = String::from_str(color.name());
                s.append(" tiles are not movable.");
                s
            },
            GameError::NoSuchRow { row } => {
                let mut s = String::from_str("Cannot move to row ");
                s.append(decimal(row).as_str());
                s.append(".");
                s
            },
            GameError::NotInCenter { color } => {
                let mut s = String::from_str("Color ");
                s.append(color.name());
                s.append(" is not in the center.");
                s
            },
            GameError::NoSuchFactory { factory_idx } => {
                let mut s = String::from_str("There is no factory #");
                s.append(decimal(factory_idx).as_str());
                s.append(".");
                s
            },
            GameError::NotInFactory { color, factory_idx } => {
                let mut s = String::from_str("Color ");
                s.append(color.name());
                s.append(" is not in factory #");
                s.append(decimal(factory_idx).as_str());
                s.append(".");
                s
            },
            GameError::Board(e) => e.message(),
            GameError::RoundNotOver => String::from_str("round isn't over"),
        }
    }
}

/// The drafting game: the draw and discard piles, the factories and the
/// center that tiles are drafted from, the players' boards, and whose turn
/// it is.
#[derive(Debug)]
pub struct GameState {
    tile_bag: Vec<Color>,
    box_lid: Vec<Color>,
    factories: Vec<Vec<Color>>,
    center: [usize; 5],
    center_start: bool,
    players: Vec<PlayerState>,
    start_player_idx: usize,
    curr_player_idx: usize,
    round_number: usize,
}

/// The piles as plain values.
pub open spec fn piles_view(piles: Seq<Vec<Color>>) -> Seq<Seq<Color>> {
    Seq::new(piles.len(), |f: int| piles[f]@)
}

/// The boards as plain values.
pub open spec fn boards_view(boards: Seq<PlayerState>) -> Seq<BoardView> {
    Seq::new(boards.len(), |p: int| boards[p]@)
}

impl View for GameState {
    type V = GameView;

    closed spec fn view(&self) -> GameView {
        GameView {
            bag: self.tile_bag@,
            lid: self.box_lid@,
            factories: piles_view(self.factories@),
            center: self.center@,
            token: self.center_start,
            players: boards_view(self.players@),
            first: self.start_player_idx,
            current: self.curr_player_idx,
            round: self.round_number,
        }
    }
}

/// Counts the tiles of a color in a pile.
fn count_in(pile: &Vec<Color>, color: Color) -> (n: usize)
    ensures
        n == count_of(pile@, color),
{
    let len = pile.len();
    let mut n: usize = 0;
    for i in 0..len
        invariant
            len == pile@.len(),
            n <= i,
            n == count_of(pile@.take(i as int), color),
    {
        proof {
            assert(pile@.take(i + 1) =~= pile@.take(i as int).push(pile@[i as int]));
            lemma_count_of_push(pile@.take(i as int), pile@[i as int], color);
        }
        if pile[i] == color {
            n += 1;
        }
    }
    assert(pile@.take(len as int) =~= pile@);
    n
}

fn tiles_all_movable(tiles: &Vec<Color>) -> (r: bool)
    ensures
        r == all_movable(tiles@),
{
    let n = tiles.len();
    for i in 0..n
        invariant
            n == tiles.len(),
            forall|j: int| 0 <= j < i ==> (#[trigger] tiles@[j]).spec_is_movable(),
    {
        if !tiles[i].is_movable() {
            return false;
        }
    }
    true
}

impl GameState {
    /// Whether the game is well formed, as it is between any two calls.
    pub open spec fn wf(&self) -> bool {
        self@.wf()
    }

    /// Sets a game up from a draw pile that is already in its random order
    /// and a first player that is already picked. There must be a player,
    /// the first player must be one of them, and the pile must hold the
    /// hundred tiles of the game.
    pub fn from_setup(player_names: &[&str], tile_bag: Vec<Color>, start_player_idx: usize) -> (r:
        Option<GameState>)
        ensures
            r is Some <==> (1 <= player_names@.len() && 2 * player_names@.len() + 1 <= usize::MAX
                && start_player_idx < player_names@.len() && tile_bag@.len() == TILE_COUNT
                && all_movable(tile_bag@)),
            r matches Some(g) ==> g.wf() && g@.is_setup(
                names_of(player_names),
                tile_bag@,
                start_player_idx,
            ),
    {
        let n = player_names.len();
        if n < 1 || n > (usize::MAX - 1) / 2 || start_player_idx >= n || tile_bag.len()
            != TILE_COUNT || !tiles_all_movable(&tile_bag) {
            return None;
        }
        let mut players: Vec<PlayerState> = Vec::new();
        for i in 0..n
            invariant
                n == player_names@.len(),
                players@.len() == i,
                forall|p: int|
                    0 <= p < i ==> (#[trigger] players@[p])@.is_fresh(player_names@[p]@),
        {
            players.push(PlayerState::new(player_names[i]));
        }
        let num_factories = n * 2 + 1;
        let mut factories: Vec<Vec<Color>> = Vec::new();
        for f in 0..num_factories
            invariant
                factories@.len() == f,
                forall|j: int| 0 <= j < f ==> (#[trigger] factories@[j])@.len() == 0,
        {
            factories.push(Vec::new());
        }
        let g = GameState {
            tile_bag,
            box_lid: Vec::new(),
            factories,
            center: [0; 5],
            center_start: true,
            players,
            start_player_idx,
            curr_player_idx: 0,
            round_number: 0,
        };
        proof {
            assert(g@.center =~= seq![0usize, 0, 0, 0, 0]);
            g@.lemma_setup(names_of(player_names), g@.bag, start_player_idx);
        }
        Some(g)
    }

    /// Sets a game up for the named players: shuffles the hundred tiles
    /// into the draw pile and picks the first player, both with the given
    /// generator.
    pub fn new(player_names: &[&str], rng: &mut StdRng) -> (g: GameState)
        requires
            1 <= player_names@.len(),
            2 * player_names@.len() + 1 <= usize::MAX,
        ensures
            g.wf(),
            g@.is_setup(names_of(player_names), g@.bag, g@.first),
            g@.bag.to_multiset() == full_bag().to_multiset(),
            g@.first < player_names@.len(),
    {
        let mut tile_bag: Vec<Color> = Vec::new();
        for i in 0..TILES_PER_COLOR
            invariant
                tile_bag@ == full_bag().take(5 * i),
        {
            tile_bag.push(Color::Blue);
            tile_bag.push(Color::Orange);
            tile_bag.push(Color::Green);
            tile_bag.push(Color::Red);
            tile_bag.push(Color::Purple);
        }
        assert(tile_bag@ =~= full_bag());
        shuffle_tiles(&mut tile_bag, rng);
        let start_player_idx = random_index(rng, player_names.len());
        proof {
            full_bag().to_multiset_ensures();
            tile_bag@.to_multiset_ensures();
            assert forall|i: int| 0 <= i < tile_bag@.len() implies (
            #[trigger] tile_bag@[i]).spec_is_movable() by {
                assert(tile_bag@.to_multiset().count(tile_bag@[i]) > 0);
            }
        }
        let setup = GameState::from_setup(player_names, tile_bag, start_player_idx);
        setup.unwrap()
    }

    pub fn players(&self) -> (players: &Vec<PlayerState>)
        ensures
            boards_view(players@) == self@.players,
    {
        &self.players
    }

    pub fn factories(&self) -> (factories: &Vec<Vec<Color>>)
        ensures
            piles_view(factories@) == self@.factories,
    {
        &self.factories
    }

    /// Tiles of each tile color in the center, by the color's position.
    pub fn center(&self) -> (center: [usize; 5])
        ensures
            center@ == self@.center,
    {
        self.center
    }

    /// Whether the turn-order token lies in the center.
    pub fn has_start_token(&self) -> (r: bool)
        ensures
            r == self@.token,
    {
        self.center_start
    }

    pub fn curr_player_idx(&self) -> (idx: usize)
        ensures
            idx == self@.current,
    {
        self.curr_player_idx
    }

    pub fn start_player_idx(&self) -> (idx: usize)
        ensures
            idx == self@.first,
    {
        self.start_player_idx
    }

    pub fn round_number(&self) -> (round: usize)
        ensures
            round == self@.round,
    {
        self.round_number
    }

    /// Number of tiles in the draw pile.
    pub fn tile_bag_len(&self) -> (n: usize)
        ensures
            n == self@.bag.len(),
    {
        self.tile_bag.len()
    }

    /// Number of tiles in the discard pile.
    pub fn box_lid_len(&self) -> (n: usize)
        ensures
            n == self@.lid.len(),
    {
        self.box_lid.len()
    }

    /// The board of the player whose turn it is.
    pub fn current_player(&self) -> (player: &PlayerState)
        requires
            self@.current < self@.players.len(),
        ensures
            player@ == self@.players[self@.current as int],
    {
        &self.players[self.curr_player_idx]
    }

    /// Whether nobody has claimed the turn-order token in this round.
    pub fn is_start_token_available(&self) -> (r: bool)
        ensures
            r == self@.token_available(),
    {
        self.start_player_idx == self.players.len()
    }

    /// Whether nothing at all is left on offer.
    pub fn is_round_over(&self) -> (r: bool)
        ensures
            r == self@.round_over(),
    {
        if self.center_start || self.center[0] != 0 || self.center[1] != 0 || self.center[2] != 0
            || self.center[3] != 0 || self.center[4] != 0 {
            return false;
        }
        let n = self.factories.len();
        for f in 0..n
            invariant
                n == self.factories@.len(),
                forall|j: int| 0 <= j < f ==> (#[trigger] self@.factories[j]).len() == 0,
        {
            if self.factories[f].len() != 0 {
                assert(self@.factories[f as int].len() != 0);
                return false;
            }
        }
        true
    }

    /// Whether a player has a full grid row, which ends the game.
    pub fn is_finished(&self) -> (r: bool)
        ensures
            r == self@.finished(),
    {
        let n = self.players.len();
        for p in 0..n
            invariant
                n == self.players@.len(),
                forall|j: int|
                    0 <= j < p ==> spec_num_full_rows((#[trigger] self@.players[j]).grid) == 0,
        {
            if self.players[p].num_full_rows() > 0 {
                assert(spec_num_full_rows(self@.players[p as int].grid) > 0);
                return true;
            }
        }
        false
    }

    /// The number of tiles that a move would take from its source.
    pub fn num_tiles_taken(&self, m: &Move) -> (r: Result<usize, String>)
        ensures
            match r {
                Ok(n) => self@.tiles_at(*m) == Ok::<int, GameError>(n as int),
                Err(msg) => self@.tiles_at(*m) matches Err(e) && msg@ == e.text(),
            },
    {
        match self.count_at_source(m) {
            Ok(n) => Ok(n),
            Err(e) => Err(e.message()),
        }
    }

    fn count_at_source(&self, m: &Move) -> (r: Result<usize, GameError>)
        ensures
            match r {
                Ok(n) => self@.tiles_at(*m) == Ok::<int, GameError>(n as int),
                Err(e) => self@.tiles_at(*m) == Err::<int, GameError>(e),
            },
    {
        if m.is_from_center() {
            let n: usize = if m.color.is_movable() {
                self.center[m.color.index()]
            } else if m.color == Color::Start && self.center_start {
                1
            } else {
                0
            };
            if n > 0 {
                Ok(n)
            } else {
                Err(GameError::NotInCenter { color: m.color })
            }
        } else if m.factory_idx - 1 < self.factories.len() {
            let n = count_in(&self.factories[m.factory_idx - 1], m.color);
            Ok(n)
        } else {
            Err(GameError::NoSuchFactory { factory_idx: m.factory_idx })
        }
    }

    /// Starts a round: the player who holds the turn-order token begins,
    /// the token goes back to the center, and each factory in turn is
    /// dealt four tiles off the end of the draw pile, or what is left of
    /// it. The pile is not refilled here.
    pub fn start_round(&mut self)
        requires
            old(self).wf(),
            !old(self)@.token_available(),
            old(self)@.round < usize::MAX,
        ensures
            final(self).wf(),
            final(self)@ == old(self)@.round_started(),
    {
        let ghost before = self@;
        self.curr_player_idx = self.start_player_idx;
        self.start_player_idx = self.players.len();
        self.center_start = true;
        let num_factories = self.factories.len();
        for f in 0..num_factories
            invariant
                before == old(self)@,
                before.wf(),
                num_factories == before.factories.len(),
                self.factories@.len() == num_factories,
                self.tile_bag@ == before.bag.take(
                    if FACTORY_SIZE * f >= before.bag.len() {
                        0
                    } else {
                        before.bag.len() - FACTORY_SIZE * f
                    },
                ),
                forall|j: int|
                    0 <= j < f ==> (#[trigger] self.factories@[j])@ == before.factories[j] + dealt(
                        before.bag,
                        j,
                    ),
                forall|j: int|
                    f <= j < num_factories ==> (#[trigger] self.factories@[j])@
                        == before.factories[j],
                self.box_lid@ == before.lid,
                self.center@ == before.center,
                boards_view(self.players@) == before.players,
                self.center_start,
                self.start_player_idx == before.players.len(),
                self.curr_player_idx == before.first,
                self.round_number == before.round,
        {
            let ghost pile = self.tile_bag@;
            let ghost start = self.factories@[f as int]@;
            let available = self.tile_bag.len();
            let take: usize = if available < FACTORY_SIZE {
                available
            } else {
                FACTORY_SIZE
            };
            for i in 0..take
                invariant
                    f < num_factories,
                    self.factories@.len() == num_factories,
                    take <= pile.len(),
                    self.tile_bag@ == pile.take(pile.len() - i),
                    self.factories@[f as int]@ == start + Seq::new(
                        i as nat,
                        |k: int| pile[pile.len() - 1 - k],
                    ),
                    forall|j: int|
                        0 <= j < f ==> (#[trigger] self.factories@[j])@ == before.factories[j]
                            + dealt(before.bag, j),
                    forall|j: int|
                        f < j < num_factories ==> (#[trigger] self.factories@[j])@
                            == before.factories[j],
                    self.box_lid@ == before.lid,
                    self.center@ == before.center,
                    boards_view(self.players@) == before.players,
                    self.center_start,
                    self.start_player_idx == before.players.len(),
                    self.curr_player_idx == before.first,
                    self.round_number == before.round,
            {
                let drawn = self.tile_bag.pop();
                let tile = drawn.unwrap();
                self.factories[f].push(tile);
                proof {
                    assert(self.factories@[f as int]@ =~= start + Seq::new(
                        (i + 1) as nat,
                        |k: int| pile[pile.len() - 1 - k],
                    ));
                }
            }
            proof {
                assert(Seq::new(take as nat, |k: int| pile[pile.len() - 1 - k]) =~= dealt(
                    before.bag,
                    f as int,
                ));
                assert(self.tile_bag@ =~= before.bag.take(
                    if FACTORY_SIZE * (f + 1) >= before.bag.len() {
                        0
                    } else {
                        before.bag.len() - FACTORY_SIZE * (f + 1)
                    },
                ));
            }
        }
        self.round_number += 1;
        proof {
            let goal = before.round_started();
            assert(self@.factories =~= goal.factories);
            assert(self@.bag =~= goal.bag);
            before.lemma_round_started();
        }
    }

    /// The current player makes a move. A malformed move, a color that
    /// the source does not hold, and tiles that the board refuses are
    /// errors that change nothing. Otherwise the tiles go to the board; a
    /// factory spills its other tiles into the center; the first draft
    /// from the center in a round also takes the turn-order token, which
    /// goes to the player's trash. Returns whether the round is over; if
    /// it is not, the turn passes to the next player.
    pub fn take_turn(&mut self, m: &Move) -> (r: Result<bool, String>)
        requires
            old(self).wf(),
        ensures
            final(self).wf(),
            match r {
                Ok(over) => old(self)@.turn_error(*m) is None && final(self)@
                    == old(self)@.after_turn(*m) && over == final(self)@.round_over(),
                Err(msg) => old(self)@.turn_error(*m) matches Some(e) && msg@ == e.text()
                    && final(self)@ == old(self)@,
            },
    {
        let ghost before = self@;
        if let Some(err_msg) = m.check_validity() {
            return Err(err_msg);
        }
        let taking_start_token = m.is_from_center() && self.is_start_token_available();
        let num_tiles = match self.count_at_source(m) {
            Ok(n) => n,
            Err(e) => {
                return Err(e.message());
            },
        };
        if num_tiles == 0 {
            return Err(
                GameError::NotInFactory { color: m.color, factory_idx: m.factory_idx }.message(),
            );
        }
        let idx = self.curr_player_idx;
        match self.players[idx].add_tiles(m.working_row, m.color, num_tiles) {
            Ok(()) => {},
            Err(msg) => {
                assert(boards_view(self.players@) =~= before.players);
                return Err(msg);
            },
        }
        proof {
            before.lemma_parts_bounded();
            before.lemma_turn(*m);
        }
        if m.is_from_center() {
            self.center[m.color.index()] = 0;
        } else {
            let source = m.factory_idx - 1;
            let ghost pile = self.factories@[source as int]@;
            let ghost piles = self.factories@;
            let ghost drafted_boards = self.players@;
            proof {
                lemma_count_of_bounds(pile, Color::Blue);
                lemma_count_of_bounds(pile, Color::Orange);
                lemma_count_of_bounds(pile, Color::Green);
                lemma_count_of_bounds(pile, Color::Red);
                lemma_count_of_bounds(pile, Color::Purple);
            }
            for c in 0..5
                invariant
                    before.center.len() == 5,
                    source < self.factories@.len(),
                    self.factories@ == piles,
                    piles[source as int]@ == pile,
                    pile.len() + before.center_total() <= TILE_COUNT,
                    m.color.spec_is_movable(),
                    forall|j: int|
                        0 <= j < 5 ==> #[trigger] self.center@[j] == (if j < c && j
                            != m.color.spec_index() {
                            before.center[j] + count_of(pile, Color::spec_from_index(j).unwrap())
                        } else {
                            before.center[j] as int
                        }),
                    self.tile_bag@ == before.bag,
                    self.box_lid@ == before.lid,
                    self.players@ == drafted_boards,
                    self.center_start == before.token,
                    self.start_player_idx == before.first,
                    self.curr_player_idx == before.current,
                    self.round_number == before.round,
            {
                let color = Color::from_index(c).unwrap();
                if color != m.color {
                    let spilled = count_in(&self.factories[source], color);
                    proof {
                        lemma_count_of_bounds(pile, color);
                    }
                    self.center[c] = self.center[c] + spilled;
                }
            }
            self.factories[source].clear();
            assert(piles_view(self.factories@) =~= before.factories.update(
                source as int,
                Seq::<Color>::empty(),
            ));
            assert(self.center@ =~= before.center_after(*m));
        }
        if taking_start_token {
            self.start_player_idx = self.curr_player_idx;
            self.players[idx].send_to_trash(Color::Start, 1);
            self.center_start = false;
        }
        assert(boards_view(self.players@) =~= before.players.update(
            idx as int,
            before.board_after(*m),
        ));
        if self.is_round_over() {
            return Ok(true);
        }
        let num_players = self.players.len();
        self.curr_player_idx = (self.curr_player_idx + 1) % num_players;
        Ok(false)
    }

    /// Ends the round. While anything is left on offer the call is refused
    /// and changes nothing. Otherwise every board is scored and its
    /// returned tiles go to the discard pile. If a player then has a full grid row the game is over: the
    /// final bonuses are added on every board and `true` is returned.
    /// Otherwise, if the draw pile cannot fill the factories, the discard
    /// pile goes into it and it is shuffled with the given generator.
    pub fn finish_round(&mut self, rng: &mut StdRng) -> (r: Result<bool, String>)
        requires
            old(self).wf(),
            old(self)@.scores_have_room(),
        ensures
            final(self).wf(),
            match r {
                Ok(game_over) => old(self)@.round_over() && game_over == old(self)@.ends_game()
                    && final(self)@ == old(self)@.round_finished(final(self)@.bag)
                    && final(self)@.bag.to_multiset() == old(self)@.bag_after_round().to_multiset()
                    && (!old(self)@.reshuffles() ==> final(self)@.bag == old(self)@.bag),
                Err(msg) => !old(self)@.round_over() && msg@ == GameError::RoundNotOver.text()
                    && final(self)@ == old(self)@,
            },
    {
        let ghost before = self@;
        if !self.is_round_over() {
            return Err(GameError::RoundNotOver.message());
        }
        let num_players = self.players.len();
        let ghost boards = self.players@;
        for p in 0..num_players
            invariant
                before.wf(),
                before.scores_have_room(),
                boards_view(boards) == before.players,
                num_players == boards.len(),
                self.players@.len() == num_players,
                forall|j: int|
                    0 <= j < p ==> (#[trigger] self.players@[j])@
                        == before.players[j].after_round(),
                forall|j: int| p <= j < num_players ==> #[trigger] self.players@[j] == boards[j],
                self.box_lid@ == before.lid + boards_returns(before.players, p as int),
                self.tile_bag@ == before.bag,
                piles_view(self.factories@) == before.factories,
                self.center@ == before.center,
                self.center_start == before.token,
                self.start_player_idx == before.first,
                self.curr_player_idx == before.current,
                self.round_number == before.round,
        {
            proof {
                before.players[p as int].lemma_round();
            }
            match self.players[p].score_round() {
                Ok(returned) => {
                    let mut returned = returned;
                    self.box_lid.append(&mut returned);
                },
                Err(msg) => {
                    return Err(msg);
                },
            }
        }
        assert(boards_view(self.players@) =~= before.scored_players());
        proof {
            before.lemma_round_finished(before.bag_after_round());
        }
        if self.is_finished() {
            for p in 0..num_players
                invariant
                    before.wf(),
                    before.scores_have_room(),
                    self.players@.len() == num_players,
                    num_players == before.players.len(),
                    forall|j: int|
                        0 <= j < p ==> (#[trigger] self.players@[j])@
                            == before.scored_players()[j].after_bonuses(),
                    forall|j: int|
                        p <= j < num_players ==> (#[trigger] self.players@[j])@
                            == before.scored_players()[j],
                    self.box_lid@ == before.lid_after_round(),
                    self.tile_bag@ == before.bag,
                    piles_view(self.factories@) == before.factories,
                    self.center@ == before.center,
                    self.center_start == before.token,
                    self.start_player_idx == before.first,
                    self.curr_player_idx == before.current,
                    self.round_number == before.round,
            {
                proof {
                    before.players[p as int].lemma_round();
                    before.players[p as int].lemma_score_floor();
                }
                self.players[p].score_bonuses();
            }
            assert(boards_view(self.players@) =~= with_bonuses(before.scored_players()));
            return Ok(true);
        }
        if self.tile_bag.len() / FACTORY_SIZE < self.factories.len() {
            self.tile_bag.append(&mut self.box_lid);
            shuffle_tiles(&mut self.tile_bag, rng);
            proof {
                before.lemma_round_finished(self.tile_bag@);
            }
        }
        Ok(false)
    }

    /// Every player's cumulative score, in the order of the players.
    pub fn player_scores(&self) -> (scores: Vec<i32>)
        requires
            self.wf(),
        ensures
            scores@.len() == self@.players.len(),
            forall|p: int|
                0 <= p < scores@.len() ==> #[trigger] scores@[p] == self@.players[p].total(),
    {
        let mut scores: Vec<i32> = Vec::new();
        let n = self.players.len();
        for p in 0..n
            invariant
                self.wf(),
                n == self.players@.len(),
                scores@.len() == p,
                forall|j: int| 0 <= j < p ==> #[trigger] scores@[j] == self@.players[j].total(),
        {
            assert(self@.players[p as int].in_play());
            scores.push(self.players[p].score());
        }
        scores
    }

    /// Whether every player's score leaves room for one more round and
    /// the final bonuses, as the end of a round needs it.
    pub fn has_score_room(&self) -> (r: bool)
        requires
            self.wf(),
        ensures
            r == self@.scores_have_room(),
    {
        let n = self.players.len();
        for p in 0..n
            invariant
                self.wf(),
                n == self.players@.len(),
                forall|j: int|
                    0 <= j < p ==> (#[trigger] self@.players[j]).total() + MAX_ROUND_GAIN
                        + MAX_BONUS <= i32::MAX,
        {
            assert(self@.players[p as int].in_play());
            if self.players[p].score() > i32::MAX - MAX_ROUND_GAIN - MAX_BONUS {
                return false;
            }
        }
        true
    }

    /// Adds the current player's moves from one source to a list.
    fn push_source_moves(&self, result: &mut Vec<Move>, source: usize)
        requires
            self@.current < self@.players.len(),
            source <= self@.factories.len(),
        ensures
            final(result)@ == old(result)@ + self@.source_moves(source as int, 5),
    {
        let ghost start = result@;
        for cidx in 0..5
            invariant
                self@.current < self@.players.len(),
                source <= self@.factories.len(),
                result@ == start + self@.source_moves(source as int, cidx as int),
        {
            let color = Color::from_index(cidx).unwrap();
            let on_offer = if source == 0 {
                self.center[cidx] > 0
            } else {
                count_in(&self.factories[source - 1], color) > 0
            };
            if on_offer {
                let rows = self.players[self.curr_player_idx].valid_moves(color);
                let ghost base = result@;
                let n = rows.len();
                for i in 0..n
                    invariant
                        n == rows@.len(),
                        result@ == base + moves_to(source, color, rows@.take(i as int)),
                {
                    result.push(Move { factory_idx: source, color, working_row: rows[i] });
                    assert(base + moves_to(source, color, rows@.take(i + 1)) =~= (base + moves_to(
                        source,
                        color,
                        rows@.take(i as int),
                    )).push(Move { factory_idx: source, color, working_row: rows@[i as int] }));
                }
                assert(start + (self@.source_moves(source as int, cidx as int) + moves_to(
                    source,
                    color,
                    rows@,
                )) =~= base + moves_to(source, color, rows@));
            }
        }
    }

    /// The moves open to the current player: for each factory in turn and
    /// then for the center, for each color that the source holds, the
    /// destinations that the player's board has open for the color.
    pub fn valid_moves(&self) -> (moves: Vec<Move>)
        requires
            self@.current < self@.players.len(),
        ensures
            moves@ == self@.all_moves(),
    {
        let mut result: Vec<Move> = Vec::new();
        let num_factories = self.factories.len();
        for fidx in 0..num_factories
            invariant
                self@.current < self@.players.len(),
                num_factories == self@.factories.len(),
                result@ == self@.factory_moves(fidx as int),
        {
            self.push_source_moves(&mut result, fidx + 1);
        }
        self.push_source_moves(&mut result, 0);
        result
    }
}

fn clone_tiles(tiles: &Vec<Color>) -> (copy: Vec<Color>)
    ensures
        copy@ == tiles@,
{
    let mut copy: Vec<Color> = Vec::new();
    let n = tiles.len();
    for i in 0..n
        invariant
            n == tiles@.len(),
            copy@ == tiles@.take(i as int),
    {
        copy.push(tiles[i]);
    }
    copy
}

impl Clone for GameState {
    fn clone(&self) -> (copy: GameState)
        ensures
            copy@ == self@,
    {
        let mut factories: Vec<Vec<Color>> = Vec::new();
        let num_factories = self.factories.len();
        for f in 0..num_factories
            invariant
                num_factories == self.factories@.len(),
                factories@.len() == f,
                forall|j: int| 0 <= j < f ==> (#[trigger] factories@[j])@ == self.factories@[j]@,
        {
            factories.push(clone_tiles(&self.factories[f]));
        }
        let mut players: Vec<PlayerState> = Vec::new();
        let num_players = self.players.len();
        for p in 0..num_players
            invariant
                num_players == self.players@.len(),
                players@.len() == p,
                forall|j: int| 0 <= j < p ==> (#[trigger] players@[j])@ == self.players@[j]@,
        {
            players.push(self.players[p].clone());
        }
        let copy = GameState {
            tile_bag: clone_tiles(&self.tile_bag),
            box_lid: clone_tiles(&self.box_lid),
            factories,
            center: self.center,
            center_start: self.center_start,
            players,
            start_player_idx: self.start_player_idx,
            curr_player_idx: self.curr_player_idx,
            round_number: self.round_number,
        };
        assert(piles_view(copy.factories@) =~= piles_view(self.factories@));
        assert(boards_view(copy.players@) =~= boards_view(self.players@));
        copy
    }
}

} // verus!
