//! What a session around the game needs from the rules: moves as
//! messages, a turn with all that follows it, the winner, and who acts
//! next.

use crate::colors::Color;
use crate::game::GameView;
use crate::game_state::GameState;
use crate::player_move::Move;
use rand::rngs::StdRng;
use vstd::prelude::*;

verus! {

/// A move as it travels between the game and its players: the color by
/// its position, the source, and the destination row.
#[derive(Debug, Clone, Copy, PartialEq, Eq, Structural)]
pub struct MoveMessage {
    pub color: usize,
    pub factory: usize,
    pub working: usize,
}

impl MoveMessage {
    /// The move that a message stands for, if its color is a tile color.
    pub open spec fn spec_to_move(self) -> Option<Move> {
        match Color::spec_from_index(self.color as int) {
            Some(color) => Some(
                Move { factory_idx: self.factory, color, working_row: self.working },
            ),
            None => None,
        }
    }

    /// The message that stands for a move.
    pub open spec fn spec_from_move(mv: Move) -> MoveMessage {
        MoveMessage {
            color: mv.color.spec_index() as usize,
            factory: mv.factory_idx,
            working: mv.working_row,
        }
    }

    /// Reads the message as a move. A color position that is no tile
    /// color is refused.
    pub fn to_move(&self) -> (r: Result<Move, String>)
        ensures
            match r {
                Ok(mv) => self.spec_to_move() == Some(mv),
                Err(msg) => self.spec_to_move() is None && msg@ == "Invalid color"@,
            },
    {
        match Color::from_index(self.color) {
            Some(color) => Ok(Move { factory_idx: self.factory, color, working_row: self.working }),
            None => Err(String::from_str("Invalid color")),
        }
    }

    /// Writes a move as a message.
    pub fn from_move(mv: &Move) -> (msg: MoveMessage)
        ensures
            msg == MoveMessage::spec_from_move(*mv),
    {
        MoveMessage { color: mv.color.index(), factory: mv.factory_idx, working: mv.working_row }
    }

    /// A move of a tile color comes back from its message as it went in,
    /// and a message that is a move comes back from that move.
    pub proof fn lemma_round_trip(mv: Move, msg: MoveMessage)
        ensures
            mv.color.spec_is_movable() ==> MoveMessage::spec_from_move(mv).spec_to_move() == Some(
                mv,
            ),
            msg.spec_to_move() matches Some(m) ==> MoveMessage::spec_from_move(m) == msg,
    {
    }
}

/// The position of the highest of the first `n` scores; of equal scores
/// the last one.
pub open spec fn top_score(scores: Seq<i32>, n: int) -> int
    decreases n,
{
    if n <= 1 {
        0
    } else {
        let before = top_score(scores, n - 1);
        if scores[before] <= scores[n - 1] {
            n - 1
        } else {
            before
        }
    }
}

/// The winner among the scores: the player with the highest score, the
/// last of them where several have it; nobody where there is no player.
pub fn winner_of(scores: &Vec<i32>) -> (winner: Option<usize>)
    ensures
        scores@.len() == 0 ==> winner is None,
        scores@.len() > 0 ==> winner == Some(top_score(scores@, scores@.len() as int) as usize),
        winner matches Some(w) ==> w < scores@.len() && forall|p: int|
            0 <= p < scores@.len() ==> #[trigger] scores@[p] <= scores@[w as int],
{
    let n = scores.len();
    if n == 0 {
        return None;
    }
    let mut best: usize = 0;
    for p in 1..n
        invariant
            n == scores@.len(),
            n > 0,
            best < n,
            best < p,
            best == top_score(scores@, p as int),
            forall|j: int| 0 <= j < p ==> #[trigger] scores@[j] <= scores@[best as int],
    {
        if scores[best] <= scores[p] {
            best = p;
        }
    }
    Some(best)
}

/// What a move has led to.
#[derive(Debug, Clone, Copy, PartialEq, Eq, Structural)]
pub struct TurnReport {
    /// The player who made the move.
    pub player_idx: usize,
    pub round_over: bool,
    pub game_over: bool,
    /// The winner of a game that is over.
    pub winner: Option<usize>,
}

/// Whether a player has the highest score, and is the last of those who
/// have it.
pub open spec fn is_winner(g: GameView, w: int) -> bool {
    &&& 0 <= w < g.players.len()
    &&& forall|p: int|
        0 <= p < g.players.len() ==> (#[trigger] g.players[p]).total() <= g.players[w].total()
    &&& forall|p: int|
        w < p < g.players.len() ==> (#[trigger] g.players[p]).total() < g.players[w].total()
}

/// Whether a game is what a move and all that follows it make of another
/// game, with the draw pile in the order `bag` after the end of the round:
/// the turn itself; at the end of a round the scoring; and then either
/// the end of the game or the start of the next round.
pub open spec fn follows(before: GameView, m: Move, bag: Seq<Color>, after: GameView) -> bool {
    let turned = before.after_turn(m);
    if !turned.round_over() {
        after == turned
    } else {
        &&& bag.to_multiset() == turned.bag_after_round().to_multiset()
        &&& !turned.reshuffles() ==> bag == turned.bag
        &&& after == (if turned.ends_game() {
            turned.round_finished(bag)
        } else {
            turned.round_finished(bag).round_started()
        })
    }
}

/// What follows a move is settled by the game, the move, and the order
/// that the shuffle gives the draw pile: two games that follow the same
/// game by the same move with the same order are the same game.
pub proof fn lemma_follows_is_settled(
    before: GameView,
    m: Move,
    bag: Seq<Color>,
    one: GameView,
    other: GameView,
)
    requires
        follows(before, m, bag, one),
        follows(before, m, bag, other),
    ensures
        one == other,
{
}

/// Plays a move for the current player and does what follows from it: at
/// the end of a round the round is scored, and then the game is over and
/// has a winner, or the next round starts. A refused move changes
/// nothing.
pub fn apply_action(state: &mut GameState, action: &MoveMessage, rng: &mut StdRng) -> (r: Result<
    TurnReport,
    String,
>)
    requires
        old(state).wf(),
        old(state)@.scores_have_room(),
        old(state)@.round < usize::MAX,
    ensures
        final(state).wf(),
        match r {
            Err(msg) => final(state)@ == old(state)@ && (match action.spec_to_move() {
                None => msg@ == "Invalid color"@,
                Some(m) => old(state)@.turn_error(m) matches Some(e) && msg@ == e.text(),
            }),
            Ok(report) => {
                &&& action.spec_to_move() matches Some(m)
                &&& old(state)@.turn_error(m) is None
                &&& report.player_idx == old(state)@.current
                &&& report.round_over == old(state)@.after_turn(m).round_over()
                &&& report.game_over == (report.round_over && old(state)@.after_turn(
                    m,
                ).ends_game())
                &&& exists|bag: Seq<Color>| #[trigger]
                    follows(old(state)@, m, bag, final(state)@)
                &&& match report.winner {
                    Some(w) => report.game_over && is_winner(final(state)@, w as int),
                    None => !report.game_over,
                }
            },
        },
{
    let ghost before = state@;
    let player_idx = state.curr_player_idx();
    let mv = match action.to_move() {
        Ok(mv) => mv,
        Err(msg) => {
            return Err(msg);
        },
    };
    proof {
        if before.turn_error(mv) is None {
            before.lemma_turn(mv);
        }
    }
    let round_over = match state.take_turn(&mv) {
        Ok(over) => over,
        Err(msg) => {
            return Err(msg);
        },
    };
    let mut game_over = false;
    let mut winner: Option<usize> = None;
    if round_over {
        game_over = match state.finish_round(rng) {
            Ok(over) => over,
            Err(msg) => {
                return Err(msg);
            },
        };
        let ghost bag = state@.bag;
        if game_over {
            let scores = state.player_scores();
            winner = winner_of(&scores);
            proof {
                lemma_top_score(scores@, scores@.len() as int);
                assert(follows(before, mv, bag, state@));
                let w = winner.unwrap() as int;
                assert(is_winner(state@, w)) by {
                    assert forall|p: int| 0 <= p < state@.players.len() implies (
                    #[trigger] state@.players[p]).total() <= state@.players[w].total() by {
                        assert(scores@[p] <= scores@[w]);
                    }
                    assert forall|p: int| w < p < state@.players.len() implies (
                    #[trigger] state@.players[p]).total() < state@.players[w].total() by {
                        assert(scores@[p] < scores@[w]);
                    }
                }
            }
        } else {
            state.start_round();
            proof {
                assert(follows(before, mv, bag, state@));
            }
        }
    } else {
        proof {
            assert(follows(before, mv, Seq::<Color>::empty(), state@));
        }
    }
    Ok(TurnReport { player_idx, round_over, game_over, winner })
}

/// The position of the highest score is a position, no score is above
/// it, and every later score is below it.
pub proof fn lemma_top_score(scores: Seq<i32>, n: int)
    requires
        1 <= n <= scores.len(),
    ensures
        0 <= top_score(scores, n) < n,
        forall|j: int| 0 <= j < n ==> #[trigger] scores[j] <= scores[top_score(scores, n)],
        forall|j: int| top_score(scores, n) < j < n ==> #[trigger] scores[j] < scores[top_score(
            scores,
            n,
        )],
    decreases n,
{
    if n > 1 {
        lemma_top_score(scores, n - 1);
    }
}

/// Who acts next in a game that some players leave to an agent.
#[derive(Debug, Clone, Copy, PartialEq, Eq, Structural)]
pub enum NextStep {
    /// The game is over: nobody acts.
    Stop,
    /// The agent of the player at this position moves.
    AgentMoves(usize),
    /// The player moves themselves, after a hint from the tutor's agent
    /// at this position.
    TutorHints(usize),
    /// The player moves themselves.
    PlayerMoves,
}

/// Decides who acts next: the current player's agent if they have one;
/// otherwise the player, with a hint if there is a tutor.
pub fn next_step(
    game_over: bool,
    has_agent: &Vec<bool>,
    current: usize,
    tutor_idx: Option<usize>,
) -> (step: NextStep)
    requires
        current < has_agent@.len(),
    ensures
        step == (if game_over {
            NextStep::Stop
        } else if has_agent@[current as int] {
            NextStep::AgentMoves(current)
        } else {
            match tutor_idx {
                Some(t) => NextStep::TutorHints(t),
                None => NextStep::PlayerMoves,
            }
        }),
{
    if game_over {
        NextStep::Stop
    } else if has_agent[current] {
        NextStep::AgentMoves(current)
    } else {
        match tutor_idx {
            Some(t) => NextStep::TutorHints(t),
            None => NextStep::PlayerMoves,
        }
    }
}

/// The positions of the players who move themselves, in ascending order.
pub fn human_player_idxs(has_agent: &Vec<bool>) -> (humans: Vec<usize>)
    ensures
        forall|i: int| 0 <= i < humans@.len() ==> (#[trigger] humans@[i]) < has_agent@.len()
            && !has_agent@[humans@[i] as int],
        forall|i: int, j: int| 0 <= i < j < humans@.len() ==> humans@[i] < humans@[j],
        forall|p: int|
            0 <= p < has_agent@.len() && !has_agent@[p] ==> humans@.contains(p as usize),
{
    let mut humans: Vec<usize> = Vec::new();
    let n = has_agent.len();
    for p in 0..n
        invariant
            n == has_agent@.len(),
            forall|i: int| 0 <= i < humans@.len() ==> (#[trigger] humans@[i]) < p
                && !has_agent@[humans@[i] as int],
            forall|i: int, j: int| 0 <= i < j < humans@.len() ==> humans@[i] < humans@[j],
            forall|q: int| 0 <= q < p && !has_agent@[q] ==> humans@.contains(q as usize),
    {
        if !has_agent[p] {
            let ghost before = humans@;
            humans.push(p);
            assert forall|q: int| 0 <= q < p + 1 && !has_agent@[q] implies humans@.contains(
                q as usize,
            ) by {
                if q < p {
                    let i = choose|i: int| 0 <= i < before.len() && before[i] == q as usize;
                    assert(humans@[i] == q as usize);
                } else {
                    assert(humans@[before.len() as int] == q as usize);
                }
            }
        }
    }
    humans
}

} // verus!
