//! What the planning agent computes: the best of the highest-ranked moves
//! when the round is played out after each of them.

use crate::game::GameView;
use crate::player_move::Move;
use crate::ranking::{closing_score, outranks, rank, Weights};
use vstd::prelude::*;

verus! {

/// What the planning agent has found among the first moves.
pub enum Pick {
    /// A simulation ran into a player without a move.
    Stuck,
    /// No move was looked at.
    Nothing,
    /// The best move so far, by its position, and the score that it leads to.
    At(int, int),
}

/// The planning agent as plain values.
pub struct Plan {
    pub weights: Weights,
    /// Whether the planner plans its own later turns too, or leaves them
    /// to the greedy choice.
    pub recurse: bool,
    /// How many of the highest-ranked moves are simulated.
    pub branches: nat,
}

impl Plan {
    /// Whether a move is among those that are simulated.
    pub open spec fn is_candidate(self, g: GameView, i: int) -> bool {
        rank(self.weights.keys(g), i, g.all_moves().len() as int) < self.branches
    }

    /// Whether the move at `i`, which leads to `value`, replaces the best
    /// move so far: it does with a higher score, and with the same score
    /// where it ranks above it.
    pub open spec fn beats(self, g: GameView, i: int, value: int, best: Pick) -> bool {
        match best {
            Pick::At(p, v) => value > v || (value == v && outranks(self.weights.keys(g), i, p)),
            _ => true,
        }
    }

    /// The current player's score at the end of the round if they make a
    /// move and the round is then played out; `None` if the simulation
    /// runs into a player without a move. The move must be one that the
    /// game accepts; such a move takes tiles off the offer, which is why
    /// the simulation ends.
    #[verifier::opaque]
    pub open spec fn value(self, g: GameView, m: Move) -> Option<int>
        decreases g.on_offer(), 0int, 0int,
    {
        let after = g.after_turn(m);
        if g.wf() && g.turn_error(m) is None && 0 <= after.on_offer() < g.on_offer() {
            if after.round_over() {
                Some(closing_score(after.players[g.current as int]))
            } else {
                self.rollout(after, g.current as int)
            }
        } else {
            None
        }
    }

    /// The best simulated move among the first `n`.
    #[verifier::opaque]
    pub open spec fn scan(self, g: GameView, n: int) -> Pick
        decreases g.on_offer(), 1int, n,
    {
        if n <= 0 {
            Pick::Nothing
        } else {
            let before = self.scan(g, n - 1);
            if before is Stuck || !self.is_candidate(g, n - 1) {
                before
            } else {
                match self.value(g, g.all_moves()[n - 1]) {
                    None => Pick::Stuck,
                    Some(v) => if self.beats(g, n - 1, v, before) {
                        Pick::At(n - 1, v)
                    } else {
                        before
                    },
                }
            }
        }
    }

    /// What looking at the move at position `i` makes of what was found
    /// before it.
    pub open spec fn scan_step(self, g: GameView, i: int) -> Pick {
        let before = self.scan(g, i);
        if before is Stuck || !self.is_candidate(g, i) {
            before
        } else {
            match self.value(g, g.all_moves()[i]) {
                None => Pick::Stuck,
                Some(v) => if self.beats(g, i, v, before) {
                    Pick::At(i, v)
                } else {
                    before
                },
            }
        }
    }

    /// The planner's choice: among the highest-ranked moves, the one that
    /// leads to the highest score at the end of the round. `None` if there
    /// is no move or a simulation runs into a player without one.
    #[verifier::opaque]
    pub open spec fn plan_move(self, g: GameView) -> Option<Move>
        decreases g.on_offer(), 2int, 0int,
    {
        match self.scan(g, g.all_moves().len() as int) {
            Pick::At(p, _) => Some(g.all_moves()[p]),
            _ => None,
        }
    }

    /// The move that a simulation makes for the current player: the
    /// planner's own choice on the planner's turns if it recurses, the
    /// greedy choice otherwise.
    #[verifier::opaque]
    pub open spec fn simulated_move(self, g: GameView, idx: int) -> Option<Move>
        decreases g.on_offer(), 3int, 0int,
    {
        if g.all_moves().len() == 0 {
            None
        } else if self.recurse && g.current == idx {
            self.plan_move(g)
        } else {
            Some(self.weights.greedy_move(g))
        }
    }

    /// The score of player `idx` at the end of the round when the round
    /// is played out from a game; `None` if a player is left without a
    /// move. Every move of the simulation is one that the game accepts,
    /// and takes tiles off the offer.
    #[verifier::opaque]
    pub open spec fn rollout(self, g: GameView, idx: int) -> Option<int>
        decreases g.on_offer(), 4int, 0int,
    {
        match self.simulated_move(g, idx) {
            None => None,
            Some(m) => {
                let after = g.after_turn(m);
                if g.wf() && g.turn_error(m) is None && 0 <= after.on_offer() < g.on_offer() {
                    if after.round_over() {
                        Some(closing_score(after.players[idx]))
                    } else {
                        self.rollout(after, idx)
                    }
                } else {
                    None
                }
            },
        }
    }
}

impl Plan {
    /// What a rollout is in terms of its first move.
    pub proof fn lemma_rollout(self, g: GameView, idx: int)
        ensures
            self.rollout(g, idx) == (match self.simulated_move(g, idx) {
                None => None,
                Some(m) => {
                    let after = g.after_turn(m);
                    if g.wf() && g.turn_error(m) is None && 0 <= after.on_offer() < g.on_offer() {
                        if after.round_over() {
                            Some(closing_score(after.players[idx]))
                        } else {
                            self.rollout(after, idx)
                        }
                    } else {
                        None
                    }
                },
            }),
            self.simulated_move(g, idx) == (if g.all_moves().len() == 0 {
                None
            } else if self.recurse && g.current == idx {
                self.plan_move(g)
            } else {
                Some(self.weights.greedy_move(g))
            }),
    {
        reveal(Plan::value);
        reveal(Plan::scan);
        reveal(Plan::plan_move);
        reveal(Plan::simulated_move);
        reveal(Plan::rollout);
    }

    /// What a move is worth in terms of the rollout after it.
    pub proof fn lemma_value(self, g: GameView, m: Move)
        ensures
            self.value(g, m) == ({
                let after = g.after_turn(m);
                if g.wf() && g.turn_error(m) is None && 0 <= after.on_offer() < g.on_offer() {
                    if after.round_over() {
                        Some(closing_score(after.players[g.current as int]))
                    } else {
                        self.rollout(after, g.current as int)
                    }
                } else {
                    None
                }
            }),
    {
        reveal(Plan::value);
        reveal(Plan::scan);
        reveal(Plan::plan_move);
        reveal(Plan::simulated_move);
        reveal(Plan::rollout);
    }

    /// What the planner finds, move by move.
    pub proof fn lemma_scan(self, g: GameView, n: int)
        ensures
            n <= 0 ==> self.scan(g, n) == Pick::Nothing,
            n > 0 ==> self.scan(g, n) == self.scan_step(g, n - 1),
            self.plan_move(g) == (match self.scan(g, g.all_moves().len() as int) {
                Pick::At(p, _) => Some(g.all_moves()[p]),
                _ => None,
            }),
    {
        reveal(Plan::value);
        reveal(Plan::scan);
        reveal(Plan::plan_move);
        reveal(Plan::simulated_move);
        reveal(Plan::rollout);
    }
}

impl Plan {
    /// Whether the move at position `p`, which leads to `v`, is the best
    /// of the simulated moves among the first `n`: every other one leads
    /// to a lower score, or to the same score and ranks below it.
    pub open spec fn is_best(self, g: GameView, n: int, p: int, v: int) -> bool {
        &&& 0 <= p < n
        &&& self.is_candidate(g, p)
        &&& self.value(g, g.all_moves()[p]) == Some(v)
        &&& forall|j: int|
            0 <= j < n && j != p && #[trigger] self.is_candidate(g, j) ==> (match self.value(
                g,
                g.all_moves()[j],
            ) {
                Some(w) => w < v || (w == v && outranks(self.weights.keys(g), p, j)),
                None => false,
            })
    }

    /// What the planner finds is the best of the simulated moves; it
    /// finds nothing where no move is simulated, and gets stuck where a
    /// simulated move does.
    pub proof fn lemma_scan_finds_best(self, g: GameView, n: int)
        requires
            0 <= n,
        ensures
            match self.scan(g, n) {
                Pick::At(p, v) => self.is_best(g, n, p, v),
                Pick::Nothing => forall|j: int| 0 <= j < n ==> !#[trigger] self.is_candidate(g, j),
                Pick::Stuck => exists|j: int|
                    0 <= j < n && #[trigger] self.is_candidate(g, j) && self.value(
                        g,
                        g.all_moves()[j],
                    ) is None,
            },
        decreases n,
    {
        self.lemma_scan(g, n);
        if n > 0 {
            self.lemma_scan_finds_best(g, n - 1);
            let i = n - 1;
            let before = self.scan(g, i);
            match before {
                Pick::Stuck => {},
                Pick::Nothing => {
                    if self.is_candidate(g, i) && self.value(g, g.all_moves()[i]) is None {
                        assert(self.is_candidate(g, i));
                    }
                },
                Pick::At(p, v) => {
                    if self.is_candidate(g, i) {
                        match self.value(g, g.all_moves()[i]) {
                            None => {
                                assert(self.is_candidate(g, i));
                            },
                            Some(w) => {
                                if self.beats(g, i, w, before) {
                                    assert(self.is_best(g, n, i, w));
                                } else {
                                    assert(self.is_best(g, n, p, v));
                                }
                            },
                        }
                    } else {
                        assert(self.is_best(g, n, p, v));
                    }
                },
            }
        }
    }

    /// The planner's choice is one of the simulated moves, and none of
    /// the others does better: each leads to a lower score, or to the
    /// same score and ranks below the choice.
    pub proof fn lemma_plan_move(self, g: GameView)
        ensures
            self.plan_move(g) matches Some(m) ==> exists|p: int, v: int| #[trigger]
                self.is_best(g, g.all_moves().len() as int, p, v) && m == g.all_moves()[p],
    {
        self.lemma_scan(g, g.all_moves().len() as int);
        self.lemma_scan_finds_best(g, g.all_moves().len() as int);
        match self.scan(g, g.all_moves().len() as int) {
            Pick::At(p, v) => {
                assert(self.is_best(g, g.all_moves().len() as int, p, v));
            },
            _ => {},
        }
    }
}

/// Once a simulation has run into a player without a move, looking at
/// more moves does not help.
pub proof fn lemma_scan_stuck(plan: Plan, g: GameView, n: int, m: int)
    requires
        0 <= n <= m,
        plan.scan(g, n) is Stuck,
    ensures
        plan.scan(g, m) is Stuck,
    decreases m,
{
    plan.lemma_scan(g, m);
    if n < m {
        lemma_scan_stuck(plan, g, n, m - 1);
    }
}

} // verus!
