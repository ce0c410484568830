//! What holds of games: every step keeps the hundred tiles, and the listed
//! moves are the moves that a turn accepts.

use crate::board::{all_movable, BoardView, MAX_ROUND_GAIN};
use crate::board_laws::lemma_contains_add;
use crate::colors::Color;
use crate::game::{
    boards_returns, boards_total, count_of, dealt, dealt_total, moves_to, piles_total, scored,
    GameView, FACTORY_SIZE, TILE_COUNT,
};
use crate::grid::occupied;
use crate::player_move::Move;
use vstd::prelude::*;

verus! {

/// Empty piles hold no tiles.
pub proof fn lemma_piles_total_empty(piles: Seq<Seq<Color>>, n: int)
    requires
        0 <= n <= piles.len(),
        forall|f: int| 0 <= f < piles.len() ==> (#[trigger] piles[f]).len() == 0,
    ensures
        piles_total(piles, n) == 0,
    decreases n,
{
    if n > 0 {
        lemma_piles_total_empty(piles, n - 1);
    }
}

/// Replacing one pile changes the number of tiles by the difference of
/// the two piles.
pub proof fn lemma_piles_total_update(piles: Seq<Seq<Color>>, n: int, f: int, pile: Seq<Color>)
    requires
        0 <= f < piles.len(),
        0 <= n <= piles.len(),
    ensures
        piles_total(piles.update(f, pile), n) == piles_total(piles, n) + (if f < n {
            pile.len() - piles[f].len()
        } else {
            0
        }),
    decreases n,
{
    if n > 0 {
        lemma_piles_total_update(piles, n - 1, f, pile);
    }
}

/// Replacing one board changes the number of tiles by the difference of
/// the two boards.
pub proof fn lemma_boards_total_update(boards: Seq<BoardView>, n: int, p: int, board: BoardView)
    requires
        0 <= p < boards.len(),
        0 <= n <= boards.len(),
    ensures
        boards_total(boards.update(p, board), n) == boards_total(boards, n) + (if p < n {
            board.tile_count() - boards[p].tile_count()
        } else {
            0
        }),
    decreases n,
{
    if n > 0 {
        lemma_boards_total_update(boards, n - 1, p, board);
    }
}

/// One more tile on a pile counts for its own color.
pub proof fn lemma_count_of_push(tiles: Seq<Color>, tile: Color, color: Color)
    ensures
        count_of(tiles.push(tile), color) == count_of(tiles, color) + (if tile == color {
            1int
        } else {
            0int
        }),
{
    assert(tiles.push(tile).drop_last() =~= tiles);
}

/// Boards without tiles hold no tiles together.
pub proof fn lemma_boards_total_empty(boards: Seq<BoardView>, n: int)
    requires
        0 <= n <= boards.len(),
        forall|p: int| 0 <= p < boards.len() ==> (#[trigger] boards[p]).tile_count() == 0,
    ensures
        boards_total(boards, n) == 0,
    decreases n,
{
    if n > 0 {
        lemma_boards_total_empty(boards, n - 1);
    }
}

/// A pile holds no more tiles of a color than it holds tiles.
pub proof fn lemma_count_of_bounds(tiles: Seq<Color>, color: Color)
    ensures
        0 <= count_of(tiles, color) <= tiles.len(),
    decreases tiles.len(),
{
    if tiles.len() > 0 {
        lemma_count_of_bounds(tiles.drop_last(), color);
    }
}

/// A pile of tiles is made up of its tiles of each of the five colors.
pub proof fn lemma_count_of_colors(tiles: Seq<Color>)
    requires
        all_movable(tiles),
    ensures
        count_of(tiles, Color::Blue) + count_of(tiles, Color::Orange) + count_of(
            tiles,
            Color::Green,
        ) + count_of(tiles, Color::Red) + count_of(tiles, Color::Purple) == tiles.len(),
    decreases tiles.len(),
{
    if tiles.len() > 0 {
        lemma_count_of_colors(tiles.drop_last());
    }
}

/// No pile holds more tiles than all the piles together.
pub proof fn lemma_piles_total_bounds(piles: Seq<Seq<Color>>, n: int, f: int)
    requires
        0 <= n <= piles.len(),
    ensures
        0 <= piles_total(piles, n),
        0 <= f < n ==> piles[f].len() <= piles_total(piles, n),
    decreases n,
{
    if n > 0 {
        lemma_piles_total_bounds(piles, n - 1, f);
    }
}

/// No board holds more tiles than all the boards together.
pub proof fn lemma_boards_total_bounds(boards: Seq<BoardView>, n: int, p: int)
    requires
        0 <= n <= boards.len(),
    ensures
        0 <= boards_total(boards, n),
        0 <= p < n ==> boards[p].tile_count() <= boards_total(boards, n),
    decreases n,
{
    if n > 0 {
        lemma_boards_total_bounds(boards, n - 1, p);
        boards[n - 1].lemma_tile_count_bounds();
    }
}

/// Boards that hold as many tiles one by one hold as many together.
pub proof fn lemma_boards_total_same(a: Seq<BoardView>, b: Seq<BoardView>, n: int)
    requires
        0 <= n <= a.len(),
        a.len() == b.len(),
        forall|p: int| 0 <= p < a.len() ==> (#[trigger] a[p]).tile_count() == b[p].tile_count(),
    ensures
        boards_total(a, n) == boards_total(b, n),
    decreases n,
{
    if n > 0 {
        lemma_boards_total_same(a, b, n - 1);
    }
}

/// Scoring a round on boards in play moves tiles from the boards to what
/// they give back, and nowhere else.
pub proof fn lemma_boards_scored(boards: Seq<BoardView>, n: int)
    requires
        0 <= n <= boards.len(),
        forall|p: int|
            0 <= p < boards.len() ==> (#[trigger] boards[p]).in_play() && boards[p].total()
                + MAX_ROUND_GAIN <= i32::MAX,
    ensures
        boards_total(scored(boards), n) + boards_returns(boards, n).len() == boards_total(
            boards,
            n,
        ),
        all_movable(boards_returns(boards, n)),
    decreases n,
{
    if n > 0 {
        lemma_boards_scored(boards, n - 1);
        boards[n - 1].lemma_round();
    }
}

/// The factories are dealt the whole draw pile, or four tiles each.
pub proof fn lemma_dealt_total(bag: Seq<Color>, n: int)
    requires
        0 <= n,
    ensures
        dealt_total(bag, n) == (if FACTORY_SIZE * n >= bag.len() {
            bag.len() as int
        } else {
            FACTORY_SIZE * n
        }),
    decreases n,
{
    if n > 0 {
        lemma_dealt_total(bag, n - 1);
    }
}

proof fn lemma_piles_total_dealt(piles: Seq<Seq<Color>>, bag: Seq<Color>, n: int)
    requires
        0 <= n <= piles.len(),
    ensures
        piles_total(Seq::new(piles.len(), |f: int| piles[f] + dealt(bag, f)), n) == piles_total(
            piles,
            n,
        ) + dealt_total(bag, n),
    decreases n,
{
    if n > 0 {
        lemma_piles_total_dealt(piles, bag, n - 1);
    }
}

proof fn lemma_moves_to(source: usize, color: Color, rows: Seq<usize>, m: Move)
    ensures
        moves_to(source, color, rows).contains(m) <==> (m.factory_idx == source && m.color == color
            && rows.contains(m.working_row)),
{
    let moves = moves_to(source, color, rows);
    if moves.contains(m) {
        let i = choose|i: int| 0 <= i < moves.len() && moves[i] == m;
    }
    if m.factory_idx == source && m.color == color && rows.contains(m.working_row) {
        let i = choose|i: int| 0 <= i < rows.len() && rows[i] == m.working_row;
        assert(moves[i] == m);
    }
}

impl GameView {
    /// No part of a game holds more than all the tiles of the game.
    pub proof fn lemma_parts_bounded(self)
        requires
            self.wf(),
        ensures
            self.bag.len() <= TILE_COUNT,
            self.lid.len() <= TILE_COUNT,
            self.bag.len() + self.lid.len() <= TILE_COUNT,
            0 <= self.center_total() <= TILE_COUNT,
            forall|c: int| 0 <= c < 5 ==> #[trigger] self.center[c] <= TILE_COUNT,
            forall|f: int|
                0 <= f < self.factories.len() ==> (#[trigger] self.factories[f]).len()
                    + self.center_total() <= TILE_COUNT,
            forall|p: int|
                0 <= p < self.players.len() ==> 0 <= (#[trigger] self.players[p]).tile_count()
                    <= TILE_COUNT,
    {
        lemma_piles_total_bounds(self.factories, self.factories.len() as int, 0);
        lemma_boards_total_bounds(self.players, self.players.len() as int, 0);
        assert forall|f: int| 0 <= f < self.factories.len() implies (
        #[trigger] self.factories[f]).len() + self.center_total() <= TILE_COUNT by {
            lemma_piles_total_bounds(self.factories, self.factories.len() as int, f);
        }
        assert forall|p: int| 0 <= p < self.players.len() implies 0 <= (
        #[trigger] self.players[p]).tile_count() <= TILE_COUNT by {
            lemma_boards_total_bounds(self.players, self.players.len() as int, p);
            self.players[p].lemma_tile_count_bounds();
        }
    }

    /// A game that is set up with the hundred tiles in its draw pile and
    /// a first player among its players is well formed.
    pub proof fn lemma_setup(self, names: Seq<Seq<char>>, bag: Seq<Color>, first: usize)
        requires
            self.is_setup(names, bag, first),
            1 <= names.len(),
            2 * names.len() + 1 <= usize::MAX,
            first < names.len(),
            bag.len() == TILE_COUNT,
            all_movable(bag),
        ensures
            self.wf(),
            self.tile_total() == TILE_COUNT,
            self.scores_have_room(),
    {
        assert forall|p: int| 0 <= p < self.players.len() implies (
        #[trigger] self.players[p]).in_play() && self.players[p].tile_count() == 0
            && self.players[p].total() == 0 by {
            self.players[p].lemma_fresh(names[p]);
        }
        lemma_boards_total_empty(self.players, self.players.len() as int);
        lemma_piles_total_empty(self.factories, self.factories.len() as int);
    }

    /// While the turn-order token lies in the center, the round is not
    /// over, whatever else is on offer.
    pub proof fn lemma_token_keeps_round_open(self)
        requires
            self.token,
        ensures
            !self.round_over(),
    {
    }

    /// The start of a round keeps the game well formed: the tiles that
    /// leave the draw pile are those that the factories are dealt.
    pub proof fn lemma_round_started(self)
        requires
            self.wf(),
            !self.token_available(),
            self.round < usize::MAX,
        ensures
            self.round_started().wf(),
            self.round_started().tile_total() == self.tile_total(),
            self.round_started().token_available(),
            self.scores_have_room() ==> self.round_started().scores_have_room(),
    {
        let after = self.round_started();
        let n = self.factories.len() as int;
        lemma_piles_total_dealt(self.factories, self.bag, n);
        lemma_dealt_total(self.bag, n);
        assert forall|f: int| 0 <= f < n implies all_movable(#[trigger] after.factories[f]) by {
            assert(all_movable(self.factories[f]));
        }
    }

    /// A draft from a factory spills into the center what it does not take.
    proof fn lemma_spill(self, m: Move)
        requires
            self.wf(),
            m.color.spec_is_movable(),
            1 <= m.factory_idx <= self.factories.len(),
        ensures
            self.drafted(m).center_total() == self.center_total() + self.factories[m.factory_idx
                - 1].len() - count_of(self.factories[m.factory_idx - 1], m.color),
            self.drafted(m).center.len() == 5,
    {
        self.lemma_parts_bounded();
        let pile = self.factories[m.factory_idx - 1];
        let after = self.center_after(m);
        lemma_count_of_colors(pile);
        lemma_count_of_bounds(pile, Color::Blue);
        lemma_count_of_bounds(pile, Color::Orange);
        lemma_count_of_bounds(pile, Color::Green);
        lemma_count_of_bounds(pile, Color::Red);
        lemma_count_of_bounds(pile, Color::Purple);
        let ci = m.color.spec_index();
        assert(after[0] == self.center[0] + (if ci == 0 {
            0
        } else {
            count_of(pile, Color::Blue)
        }));
        assert(after[1] == self.center[1] + (if ci == 1 {
            0
        } else {
            count_of(pile, Color::Orange)
        }));
        assert(after[2] == self.center[2] + (if ci == 2 {
            0
        } else {
            count_of(pile, Color::Green)
        }));
        assert(after[3] == self.center[3] + (if ci == 3 {
            0
        } else {
            count_of(pile, Color::Red)
        }));
        assert(after[4] == self.center[4] + (if ci == 4 {
            0
        } else {
            count_of(pile, Color::Purple)
        }));
    }

    /// The tiles that a draft takes from its source are those that it
    /// takes out of the factories and the center.
    proof fn lemma_source(self, m: Move)
        requires
            self.wf(),
            self.turn_error(m) is None,
        ensures
            self.tiles_at(m) is Ok,
            self.tiles_at(m).unwrap() > 0,
            self.drafted(m).center.len() == 5,
            self.drafted(m).factories.len() == self.factories.len(),
            forall|j: int|
                0 <= j < self.factories.len() ==> all_movable(
                    #[trigger] self.drafted(m).factories[j],
                ),
            piles_total(self.drafted(m).factories, self.factories.len() as int) + self.drafted(
                m,
            ).center_total() + self.tiles_at(m).unwrap() == piles_total(
                self.factories,
                self.factories.len() as int,
            ) + self.center_total(),
    {
        let after = self.drafted(m);
        if m.factory_idx == 0 {
            assert(after.factories == self.factories);
        } else {
            let f = m.factory_idx - 1;
            lemma_count_of_bounds(self.factories[f], m.color);
            self.lemma_spill(m);
            lemma_piles_total_update(
                self.factories,
                self.factories.len() as int,
                f,
                Seq::<Color>::empty(),
            );
            assert forall|j: int| 0 <= j < self.factories.len() implies all_movable(
                #[trigger] after.factories[j],
            ) by {
                if j != f {
                    assert(all_movable(self.factories[j]));
                }
            }
        }
    }

    /// The board of the player who drafts takes the tiles that the draft
    /// takes from its source, and stays in play.
    proof fn lemma_drafting_board(self, m: Move)
        requires
            self.wf(),
            self.turn_error(m) is None,
            self.tiles_at(m) is Ok,
            self.tiles_at(m).unwrap() > 0,
        ensures
            self.board_after(m).in_play(),
            self.board_after(m).tile_count() == self.players[self.current as int].tile_count()
                + self.tiles_at(m).unwrap(),
            self.board_after(m).ledger == self.players[self.current as int].ledger,
            self.board_after(m).grid == self.players[self.current as int].grid,
    {
        let n = self.tiles_at(m).unwrap();
        let board = self.players[self.current as int];
        board.lemma_with_tiles(m.working_row as int, m.color, n);
        if self.claims_token(m) {
            board.with_tiles(m.working_row as int, m.color, n).lemma_with_token();
        }
    }

    /// An accepted move keeps the game well formed: the tiles that leave
    /// the source are those that reach the board and the center, so that
    /// the game holds the tiles that it held. No score and no grid changes.
    pub proof fn lemma_turn(self, m: Move)
        requires
            self.wf(),
            self.turn_error(m) is None,
        ensures
            self.drafted(m).wf(),
            self.after_turn(m).wf(),
            self.after_turn(m).tile_total() == self.tile_total(),
            self.after_turn(m).players.len() == self.players.len(),
            forall|p: int|
                0 <= p < self.players.len() ==> (#[trigger] self.after_turn(m).players[p]).ledger
                    == self.players[p].ledger && self.after_turn(m).players[p].grid
                    == self.players[p].grid,
            0 <= self.after_turn(m).on_offer() < self.on_offer(),
            self.scores_have_room() ==> self.after_turn(m).scores_have_room(),
    {
        self.lemma_source(m);
        lemma_piles_total_bounds(self.drafted(m).factories, self.factories.len() as int, 0);
        self.lemma_drafting_board(m);
        let after = self.drafted(m);
        lemma_boards_total_update(
            self.players,
            self.players.len() as int,
            self.current as int,
            self.board_after(m),
        );
        assert forall|p: int| 0 <= p < after.players.len() implies (
        #[trigger] after.players[p]).in_play() by {
            if p != self.current {
                assert(self.players[p].in_play());
            }
        }
    }

    /// The end of a round keeps the game well formed, whatever order the
    /// draw pile gets: the tiles that leave the boards are those that the
    /// discard pile or the draw pile receives.
    pub proof fn lemma_round_finished(self, bag: Seq<Color>)
        requires
            self.wf(),
            self.scores_have_room(),
            bag.to_multiset() == self.bag_after_round().to_multiset(),
        ensures
            self.round_finished(bag).wf(),
            self.round_finished(bag).tile_total() == self.tile_total(),
            all_movable(self.lid_after_round()),
    {
        let n = self.players.len() as int;
        let after = self.round_finished(bag);
        lemma_boards_scored(self.players, n);
        assert forall|p: int| 0 <= p < n implies (#[trigger] after.players[p]).in_play()
            && after.players[p].tile_count() == self.scored_players()[p].tile_count() by {
            self.players[p].lemma_round();
            self.players[p].lemma_score_floor();
            self.players[p].after_round().lemma_bonuses();
        }
        lemma_boards_total_same(after.players, self.scored_players(), n);
        bag.to_multiset_ensures();
        self.bag_after_round().to_multiset_ensures();
        assert forall|i: int| 0 <= i < bag.len() implies (#[trigger] bag[i]).spec_is_movable() by {
            assert(bag.to_multiset().count(bag[i]) > 0);
        }
    }

    /// No step of a game clears a cell of a grid: what is occupied stays
    /// occupied through a turn, the end of a round and the start of one.
    pub proof fn lemma_cells_stay(self, m: Move, bag: Seq<Color>, p: int, row: int, col: int)
        requires
            self.wf(),
            self.scores_have_room(),
            0 <= p < self.players.len(),
            0 <= row < 5,
            0 <= col < 5,
            occupied(self.players[p].grid, row, col),
        ensures
            self.turn_error(m) is None ==> occupied(self.after_turn(m).players[p].grid, row, col),
            occupied(self.round_finished(bag).players[p].grid, row, col),
            occupied(self.round_started().players[p].grid, row, col),
    {
        if self.turn_error(m) is None {
            self.lemma_turn(m);
        }
        self.players[p].lemma_round();
    }

    proof fn lemma_source_moves(self, source: int, colors: int, m: Move)
        requires
            0 <= colors <= 5,
            0 <= source <= usize::MAX,
        ensures
            self.source_moves(source, colors).contains(m) <==> (m.factory_idx == source
                && m.color.spec_is_movable() && m.color.spec_index() < colors && self.offers(
                source,
                m.color,
            ) && self.players[self.current as int].valid_rows(m.color, 5).contains(m.working_row)),
        decreases colors,
    {
        if colors > 0 {
            self.lemma_source_moves(source, colors - 1, m);
            let color = Color::spec_from_index(colors - 1).unwrap();
            if self.offers(source, color) {
                let rows = self.players[self.current as int].valid_rows(color, 5);
                lemma_contains_add(
                    self.source_moves(source, colors - 1),
                    moves_to(source as usize, color, rows),
                    m,
                );
                lemma_moves_to(source as usize, color, rows, m);
            }
        }
    }

    proof fn lemma_factory_moves(self, factories: int, m: Move)
        requires
            0 <= factories <= usize::MAX,
        ensures
            self.factory_moves(factories).contains(m) <==> (1 <= m.factory_idx <= factories
                && self.source_moves(m.factory_idx as int, 5).contains(m)),
        decreases factories,
    {
        if factories > 0 {
            self.lemma_factory_moves(factories - 1, m);
            lemma_contains_add(
                self.factory_moves(factories - 1),
                self.source_moves(factories, 5),
                m,
            );
            self.lemma_source_moves(factories, 5, m);
        }
        if 1 <= m.factory_idx {
            self.lemma_source_moves(m.factory_idx as int, 5, m);
        }
    }

    /// The listed moves are exactly the moves that the current player can
    /// make: a move is in the list if and only if a turn with it is
    /// accepted.
    pub proof fn lemma_all_moves(self, m: Move)
        requires
            self.wf(),
        ensures
            self.all_moves().contains(m) <==> self.turn_error(m) is None,
    {
        let n = self.factories.len() as int;
        let board = self.players[self.current as int];
        lemma_contains_add(self.factory_moves(n), self.source_moves(0, 5), m);
        self.lemma_factory_moves(n, m);
        self.lemma_source_moves(0, 5, m);
        if m.factory_idx >= 1 {
            self.lemma_source_moves(m.factory_idx as int, 5, m);
        }
        let on_offer = m.factory_idx <= n && self.offers(m.factory_idx as int, m.color);
        assert(self.all_moves().contains(m) <==> (m.color.spec_is_movable() && on_offer
            && board.valid_rows(m.color, 5).contains(m.working_row)));
        if m.color.spec_is_movable() {
            board.lemma_valid_rows_accepted(m.color, m.working_row);
            if m.factory_idx >= 1 && m.factory_idx - 1 < n {
                lemma_count_of_bounds(self.factories[m.factory_idx - 1], m.color);
            }
        }
    }
}

} // verus!
