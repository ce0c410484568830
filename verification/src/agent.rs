//! The agents: one that picks at random, one that ranks the moves, and one
//! that plays the round out for the best-ranked moves.

use crate::board::{MAX_BONUS, MAX_ROUND_GAIN};
use crate::game::GameView;
use crate::game_laws::lemma_count_of_bounds;
use crate::game_state::GameState;
use crate::grid::played_column;
use crate::planning::{lemma_scan_stuck, Pick, Plan};
use crate::player_move::Move;
use crate::player_state::PlayerState;
use crate::random::choose_move;
use crate::ranking::{
    closing_score, key_le, last_max, lemma_last_max, outranks, rank, Key, Weights, MAX_WEIGHT,
};
use vstd::prelude::*;

verus! {


/// Ends the game on a board, which must be one that can be scored:
/// scores the round, adds the final bonuses, and returns the total.
pub fn player_score(p: &mut PlayerState) -> (score: i32)
    requires
        old(p).wf(),
        old(p)@.round_error() is None,
        old(p)@.total() + MAX_ROUND_GAIN + MAX_BONUS <= i32::MAX,
    ensures
        final(p).wf(),
        final(p)@ == old(p)@.after_round().after_bonuses(),
        score == closing_score(old(p)@),
        0 <= score <= old(p)@.total() + MAX_ROUND_GAIN + MAX_BONUS,
{
    proof {
        p@.lemma_score_floor();
        p@.after_round().lemma_bonuses();
    }
    let _returned = p.score_round();
    p.score_bonuses();
    p.score()
}

/// Picks any of the current player's moves, each as likely as the others.
#[derive(Debug)]
pub struct RandomAgent {}

/// Picks the move that would leave the current player with the highest
/// score if the game ended with this round; a bias breaks ties.
#[derive(Debug)]
pub struct GreedyAgent {
    first_player_bias: i32,
    new_row_bias: i32,
    new_row_bias_factor: i32,
    center_bias: i32,
    num_tiles_bias: i32,
    middle_bias: i32,
}

impl View for GreedyAgent {
    type V = Weights;

    closed spec fn view(&self) -> Weights {
        Weights {
            first_player: self.first_player_bias as int,
            new_row: self.new_row_bias as int,
            new_row_factor: self.new_row_bias_factor as int,
            center: self.center_bias as int,
            num_tiles: self.num_tiles_bias as int,
            middle: self.middle_bias as int,
        }
    }
}

proof fn lemma_weighted(weight: int, n: int, limit: int)
    requires
        -1_000_000 <= weight <= 1_000_000,
        -limit <= n <= limit,
    ensures
        -1_000_000 * limit <= weight * n <= 1_000_000 * limit,
        n * weight == weight * n,
{
    assert(-1_000_000 * limit <= weight * n <= 1_000_000 * limit && n * weight == weight * n)
        by (nonlinear_arith)
        requires
            -1_000_000 <= weight <= 1_000_000,
            -limit <= n <= limit,
    ;
}

/// Whether the first rank is below or equal to the second.
fn rank_le(a: (i32, i32), b: (i32, i32)) -> (r: bool)
    ensures
        r == key_le((a.0 as int, a.1 as int), (b.0 as int, b.1 as int)),
{
    a.0 < b.0 || (a.0 == b.0 && a.1 <= b.1)
}

impl GreedyAgent {
    /// The agent with its usual weights: it likes the center and many
    /// tiles, and dislikes opening a row, the more the longer the row.
    pub fn new() -> (agent: GreedyAgent)
        ensures
            agent@.wf(),
            agent@ == (Weights {
                first_player: 0,
                new_row: -50,
                new_row_factor: -1,
                center: 10,
                num_tiles: 10,
                middle: 0,
            }),
    {
        GreedyAgent {
            first_player_bias: 0,
            new_row_bias: -50,
            new_row_bias_factor: -1,
            center_bias: 10,
            num_tiles_bias: 10,
            middle_bias: 0,
        }
    }

    /// An agent with weights of the caller's choice, if none is beyond
    /// `MAX_WEIGHT` either way. The order is: turn-order token, empty row,
    /// per row, center, per tile, per column.
    pub fn with_weights(weights: [i32; 6]) -> (r: Option<GreedyAgent>)
        ensures
            r is Some <==> (Weights {
                first_player: weights[0] as int,
                new_row: weights[1] as int,
                new_row_factor: weights[2] as int,
                center: weights[3] as int,
                num_tiles: weights[4] as int,
                middle: weights[5] as int,
            }).wf(),
            r matches Some(agent) ==> agent@ == (Weights {
                first_player: weights[0] as int,
                new_row: weights[1] as int,
                new_row_factor: weights[2] as int,
                center: weights[3] as int,
                num_tiles: weights[4] as int,
                middle: weights[5] as int,
            }),
    {
        for i in 0..6
            invariant
                forall|j: int| 0 <= j < i ==> -MAX_WEIGHT <= #[trigger] weights[j] <= MAX_WEIGHT,
        {
            if weights[i] < -MAX_WEIGHT || weights[i] > MAX_WEIGHT {
                return None;
            }
        }
        Some(
            GreedyAgent {
                first_player_bias: weights[0],
                new_row_bias: weights[1],
                new_row_bias_factor: weights[2],
                center_bias: weights[3],
                num_tiles_bias: weights[4],
                middle_bias: weights[5],
            },
        )
    }

    /// Ranks a move that the current player can make.
    pub fn score_move(&self, game: &GameState, m: &Move) -> (key: (i32, i32))
        requires
            self@.wf(),
            game.wf(),
            game@.scores_have_room(),
            game@.turn_error(*m) is None,
        ensures
            (key.0 as int, key.1 as int) == self@.key(game@, *m),
            0 <= key.0,
    {
        let mut bias: i32 = 0;
        let mut player = game.current_player().clone();
        let ghost board = game@.players[game@.current as int];
        proof {
            game@.lemma_parts_bounded();
            board.lemma_with_trash(m.color, 1);
        }
        if m.is_from_center() {
            bias += self.center_bias;
            if game.is_start_token_available() {
                bias += self.first_player_bias;
                player.send_to_trash(m.color, 1);
            }
        }
        if player.is_new_working_row(m.working_row) {
            proof {
                lemma_weighted(self@.new_row_factor, m.working_row as int, 5);
            }
            let per_row = m.working_row as i32 * self.new_row_bias_factor;
            bias += self.new_row_bias + per_row;
        }
        let num_tiles = match game.num_tiles_taken(m) {
            Ok(n) => n,
            Err(_) => {
                assert(false);
                0
            },
        };
        proof {
            if m.factory_idx != 0 {
                lemma_count_of_bounds(game@.factories[m.factory_idx - 1], m.color);
            }
            lemma_weighted(self@.num_tiles, num_tiles as int, 100);
        }
        let per_tile = self.num_tiles_bias * num_tiles as i32;
        bias += per_tile;
        let column = played_column(m.working_row, m.color);
        proof {
            lemma_weighted(self@.middle, 2 - column, 2);
        }
        let per_column = self.middle_bias * (2 - column as i32);
        bias += per_column;
        let ghost marked = player@;
        proof {
            marked.lemma_with_tiles(m.working_row as int, m.color, num_tiles as int);
            marked.with_tiles(m.working_row as int, m.color, num_tiles as int).lemma_round();
        }
        match player.add_tiles(m.working_row, m.color, num_tiles) {
            Ok(()) => {},
            Err(_) => {
                assert(false);
            },
        }
        let score = player_score(&mut player);
        (score, bias)
    }

    /// The greedy choice among the current player's moves.
    pub fn best_move(&self, game: &GameState) -> (m: Move)
        requires
            self@.wf(),
            game.wf(),
            game@.scores_have_room(),
            game@.all_moves().len() > 0,
        ensures
            m == self@.greedy_move(game@),
            game@.all_moves().contains(m),
            game@.turn_error(m) is None,
    {
        let moves = game.valid_moves();
        let n = moves.len();
        proof {
            assert forall|i: int| 0 <= i < n implies game@.turn_error(#[trigger] moves@[i])
                is None by {
                game@.lemma_all_moves(moves@[i]);
            }
        }
        let ghost keys = self@.keys(game@);
        let mut best: usize = 0;
        let mut best_key = self.score_move(game, &moves[0]);
        for i in 1..n
            invariant
                n == moves@.len(),
                n > 0,
                moves@ == game@.all_moves(),
                keys == self@.keys(game@),
                self@.wf(),
                game.wf(),
                game@.scores_have_room(),
                forall|j: int| 0 <= j < n ==> game@.turn_error(#[trigger] moves@[j]) is None,
                best == last_max(keys, i as int),
                best < i,
                (best_key.0 as int, best_key.1 as int) == keys[best as int],
        {
            let key = self.score_move(game, &moves[i]);
            if rank_le(best_key, key) {
                best = i;
                best_key = key;
            }
        }
        proof {
            lemma_last_max(keys, n as int);
        }
        moves[best]
    }
}

/// Looks ahead to the end of the round: it simulates each of the
/// highest-ranked moves, plays the round out with greedy choices, and
/// picks the move that leaves the current player with the highest score.
#[derive(Debug)]
pub struct RoundPlanningAgent {
    num_branches: usize,
    recurse: bool,
    greedy: GreedyAgent,
}

impl View for RoundPlanningAgent {
    type V = Plan;

    closed spec fn view(&self) -> Plan {
        Plan { weights: self.greedy@, recurse: self.recurse, branches: self.num_branches as nat }
    }
}

/// The ranks as plain numbers.
pub open spec fn keys_view(keys: Seq<(i32, i32)>) -> Seq<Key> {
    Seq::new(keys.len(), |i: int| (keys[i].0 as int, keys[i].1 as int))
}

fn ranks_above(keys: &Vec<(i32, i32)>, i: usize, j: usize) -> (r: bool)
    requires
        i < keys@.len(),
        j < keys@.len(),
    ensures
        r == outranks(keys_view(keys@), i as int, j as int),
{
    let a = keys[i];
    let b = keys[j];
    !rank_le(a, b) || (a.0 == b.0 && a.1 == b.1 && i > j)
}

/// Counts the moves that rank above the one at position `i`.
fn rank_of(keys: &Vec<(i32, i32)>, i: usize) -> (r: usize)
    requires
        i < keys@.len(),
    ensures
        r == rank(keys_view(keys@), i as int, keys@.len() as int),
{
    let n = keys.len();
    let mut above: usize = 0;
    for j in 0..n
        invariant
            n == keys@.len(),
            i < n,
            above <= j,
            above == rank(keys_view(keys@), i as int, j as int),
    {
        if ranks_above(keys, j, i) {
            above += 1;
        }
    }
    above
}

impl RoundPlanningAgent {
    /// A planner that simulates the five highest-ranked moves. With
    /// `recurse` it plans its own later turns of the round in the same
    /// way; without, it leaves them to the greedy choice.
    pub fn new(recurse: bool) -> (agent: RoundPlanningAgent)
        ensures
            agent@.weights.wf(),
            agent@ == (Plan {
                weights: Weights {
                    first_player: 0,
                    new_row: -50,
                    new_row_factor: -1,
                    center: 10,
                    num_tiles: 10,
                    middle: 0,
                },
                recurse,
                branches: 5,
            }),
    {
        RoundPlanningAgent { num_branches: 5, recurse, greedy: GreedyAgent::new() }
    }

    /// The score that a move leads to for the player who makes it, when
    /// the round is played out after it.
    fn value_of(&self, game: &GameState, m: &Move) -> (r: Option<i32>)
        requires
            self@.weights.wf(),
            game.wf(),
            game@.scores_have_room(),
            game@.turn_error(*m) is None,
        ensures
            match r {
                Some(v) => self@.value(game@, *m) == Some(v as int),
                None => self@.value(game@, *m) is None,
            },
        decreases game@.on_offer(), 0int, 0int,
    {
        let mut simulation = game.clone();
        let my_idx = game.curr_player_idx();
        proof {
            self@.lemma_value(game@, *m);
            game@.lemma_turn(*m);
        }
        match simulation.take_turn(m) {
            Ok(over) => {
                if over {
                    let mut board = simulation.players()[my_idx].clone();
                    proof {
                        board@.lemma_round();
                    }
                    Some(player_score(&mut board))
                } else {
                    self.rollout(my_idx, &mut simulation)
                }
            },
            Err(_) => None,
        }
    }

    /// The planner's choice in a game, if there is a move and no
    /// simulation runs into a player without one.
    pub fn plan(&self, game: &GameState) -> (r: Option<Move>)
        requires
            self@.weights.wf(),
            game.wf(),
            game@.scores_have_room(),
        ensures
            r == self@.plan_move(game@),
            r matches Some(m) ==> game@.all_moves().contains(m) && game@.turn_error(m) is None,
        decreases game@.on_offer(), 2int, 0int,
    {
        let moves = game.valid_moves();
        let n = moves.len();
        proof {
            assert forall|i: int| 0 <= i < n implies game@.turn_error(#[trigger] moves@[i])
                is None by {
                game@.lemma_all_moves(moves@[i]);
            }
        }
        let mut keys: Vec<(i32, i32)> = Vec::new();
        for i in 0..n
            invariant
                n == moves@.len(),
                moves@ == game@.all_moves(),
                self@.weights.wf(),
                self@.weights == self.greedy@,
                game.wf(),
                game@.scores_have_room(),
                forall|j: int| 0 <= j < n ==> game@.turn_error(#[trigger] moves@[j]) is None,
                keys@.len() == i,
                forall|j: int|
                    0 <= j < i ==> (#[trigger] keys_view(keys@)[j]) == self@.weights.key(
                        game@,
                        moves@[j],
                    ),
        {
            let key = self.greedy.score_move(game, &moves[i]);
            let ghost before = keys@;
            keys.push(key);
            assert forall|j: int| 0 <= j <= i implies (#[trigger] keys_view(keys@)[j])
                == self@.weights.key(game@, moves@[j]) by {
                if j < i {
                    assert(keys_view(keys@)[j] == keys_view(before)[j]);
                }
            }
        }
        proof {
            self@.lemma_scan(game@, 0);
            assert forall|k: int| 0 <= k < n implies #[trigger] self@.scan(game@, k + 1)
                == self@.scan_step(game@, k) by {
                self@.lemma_scan(game@, k + 1);
            }
        }
        let mut best: usize = 0;
        let mut best_value: i32 = 0;
        let mut found = false;
        for i in 0..n
            invariant
                n == moves@.len(),
                n == keys@.len(),
                moves@ == game@.all_moves(),
                keys_view(keys@) == self@.weights.keys(game@),
                self@.weights.wf(),
                game.wf(),
                game@.scores_have_room(),
                forall|j: int| 0 <= j < n ==> game@.turn_error(#[trigger] moves@[j]) is None,
                self@.branches == self.num_branches,
                found ==> best < i,
                forall|k: int|
                    0 <= k < n ==> #[trigger] self@.scan(game@, k + 1) == self@.scan_step(
                        game@,
                        k,
                    ),
                self@.scan(game@, 0) == Pick::Nothing,
                self@.scan(game@, i as int) == (if found {
                    Pick::At(best as int, best_value as int)
                } else {
                    Pick::Nothing
                }),
        {
            if rank_of(&keys, i) < self.num_branches {
                match self.value_of(game, &moves[i]) {
                    None => {
                        proof {
                            lemma_scan_stuck(self@, game@, i + 1, n as int);
                            self@.lemma_scan(game@, n as int);
                        }
                        return None;
                    },
                    Some(value) => {
                        if !found || value > best_value || (value == best_value && ranks_above(
                            &keys,
                            i,
                            best,
                        )) {
                            best = i;
                            best_value = value;
                            found = true;
                        }
                    },
                }
            }
        }
        if found {
            Some(moves[best])
        } else {
            None
        }
    }

    /// Plays a simulated round out and returns the score that player
    /// `idx` would have at its end; `None` if a player is left without a
    /// move before the round is over.
    fn rollout(&self, idx: usize, game: &mut GameState) -> (r: Option<i32>)
        requires
            self@.weights.wf(),
            old(game).wf(),
            old(game)@.scores_have_room(),
            idx < old(game)@.players.len(),
        ensures
            final(game).wf(),
            match r {
                Some(v) => self@.rollout(old(game)@, idx as int) == Some(v as int),
                None => self@.rollout(old(game)@, idx as int) is None,
            },
        decreases old(game)@.on_offer(), 4int, 0int,
    {
        let ghost now = game@;
        proof {
            self@.lemma_rollout(now, idx as int);
        }
        let has_moves = game.valid_moves().len() > 0;
        if !has_moves {
            return None;
        }
        let m = if self.recurse && game.curr_player_idx() == idx {
            match self.plan(game) {
                Some(m) => m,
                None => {
                    return None;
                },
            }
        } else {
            self.greedy.best_move(game)
        };
        proof {
            now.lemma_turn(m);
        }
        match game.take_turn(&m) {
            Ok(over) => {
                if over {
                    let mut board = game.players()[idx].clone();
                    proof {
                        board@.lemma_round();
                    }
                    Some(player_score(&mut board))
                } else {
                    self.rollout(idx, game)
                }
            },
            Err(_) => None,
        }
    }
}

/// Something that picks the current player's move in a game.
pub trait Agent {
    /// Whether the agent can be asked for a move in a game.
    spec fn can_choose(&self, g: GameView) -> bool;

    /// Whether a move is one that the agent may answer with.
    spec fn may_choose(&self, g: GameView, m: Move) -> bool;

    /// Picks a move for the current player, who must have one.
    fn choose_action(&self, game: &GameState) -> (m: Move)
        requires
            game.wf(),
            game@.all_moves().len() > 0,
            self.can_choose(game@),
        ensures
            self.may_choose(game@, m),
            game@.all_moves().contains(m),
            game@.turn_error(m) is None,
    ;
}

impl Agent for RandomAgent {
    open spec fn can_choose(&self, g: GameView) -> bool {
        true
    }

    /// Any of the moves may come.
    open spec fn may_choose(&self, g: GameView, m: Move) -> bool {
        g.all_moves().contains(m)
    }

    fn choose_action(&self, game: &GameState) -> (m: Move) {
        let moves = game.valid_moves();
        let picked = choose_move(&moves);
        let m = picked.unwrap();
        proof {
            game@.lemma_all_moves(m);
        }
        m
    }
}

impl Agent for GreedyAgent {
    open spec fn can_choose(&self, g: GameView) -> bool {
        self@.wf() && g.scores_have_room()
    }

    open spec fn may_choose(&self, g: GameView, m: Move) -> bool {
        m == self@.greedy_move(g)
    }

    fn choose_action(&self, game: &GameState) -> (m: Move) {
        self.best_move(game)
    }
}

impl Agent for RoundPlanningAgent {
    /// The planner needs every simulation to reach the end of the round.
    open spec fn can_choose(&self, g: GameView) -> bool {
        self@.weights.wf() && g.scores_have_room() && self@.plan_move(g) is Some
    }

    open spec fn may_choose(&self, g: GameView, m: Move) -> bool {
        self@.plan_move(g) == Some(m)
    }

    fn choose_action(&self, game: &GameState) -> (m: Move) {
        let planned = self.plan(game);
        planned.unwrap()
    }
}

} // verus!
