//! The search engine: an exhaustive adversarial search over boards. Given
//! the player being optimized for (the maximizer) and the player to move, it
//! examines every continuation of a playing board and returns the best move
//! together with its score; on a finished board it returns the board's leaf
//! value instead.

use vstd::prelude::*;

use crate::board::Board;
use crate::board::Player;
use crate::board::Status;
use crate::board::board_full;
use crate::board::spec_opposite;
use crate::board::spec_status;

verus! {

broadcast use crate::board::lemma_view_len;

/// What a search returns: the leaf value of a finished board, or the chosen
/// cell of a playing board together with its score.
#[derive(Clone, Copy, PartialEq, Eq, Structural, Debug)]
pub enum Minimaxxing {
    Result(i8),
    Position(usize, i8),
}

/// How many of the cells below index `n` are empty.
pub open spec fn empties_below(s: Seq<Option<Player>>, n: int) -> nat
    decreases n,
{
    if n <= 0 {
        0
    } else {
        empties_below(s, n - 1) + (if s[n - 1] is None {
            1nat
        } else {
            0nat
        })
    }
}

/// The leaf value of a won board from the maximizer's point of view.
pub open spec fn spec_winner_pts(maximizer: Player, winner: Player) -> i8 {
    if winner == maximizer {
        1i8
    } else {
        -1i8
    }
}

/// The score a child result is compared under: a leaf value is doubled, so
/// an immediate outcome outranks any same-signed deeper continuation, while
/// a deeper score is clamped into the range -1..=1.
pub open spec fn comparison_score(m: Minimaxxing) -> i8 {
    match m {
        Minimaxxing::Result(v) => (2 * v) as i8,
        Minimaxxing::Position(_, v) => if v > 1 {
            1i8
        } else if v < -1 {
            -1i8
        } else {
            v
        },
    }
}

/// Whether a candidate score displaces the incumbent: strictly greater when
/// maximizing, strictly smaller when minimizing, so on ties the move with
/// the smaller index is kept.
pub open spec fn prefers(maximizing: bool, candidate: i8, incumbent: i8) -> bool {
    if maximizing {
        candidate > incumbent
    } else {
        candidate < incumbent
    }
}

/// Two boards with equal cells below `n` have the same number of empties
/// there.
proof fn lemma_empties_agree(s1: Seq<Option<Player>>, s2: Seq<Option<Player>>, n: int)
    requires
        forall|j: int| 0 <= j < n ==> s1[j] == s2[j],
    ensures
        empties_below(s1, n) == empties_below(s2, n),
    decreases n,
{
    if n > 0 {
        lemma_empties_agree(s1, s2, n - 1);
    }
}

/// Marking an empty cell reduces the number of empties by one.
pub proof fn lemma_update_empties(s: Seq<Option<Player>>, pos: int, p: Player, n: int)
    requires
        s.len() == 9,
        0 <= pos < n <= 9,
        s[pos] is None,
    ensures
        empties_below(s.update(pos, Some(p)), n) == empties_below(s, n) - 1,
    decreases n,
{
    let t = s.update(pos, Some(p));
    if pos == n - 1 {
        lemma_empties_agree(t, s, n - 1);
    } else {
        lemma_update_empties(s, pos, p, n - 1);
    }
}

/// The best move among the cells below index `n`: each empty cell is scored
/// by searching the board it leads to, and the scores are compared under
/// `prefers`, so the lowest-indexed best-scoring cell is kept.
pub open spec fn best_upto(
    s: Seq<Option<Player>>,
    maximizer: Player,
    turn: Player,
    n: int,
) -> Option<(usize, i8)>
    decreases empties_below(s, 9), n,
    when s.len() == 9 && n <= 9
{
    if n <= 0 {
        None
    } else {
        let rest = best_upto(s, maximizer, turn, n - 1);
        if s[n - 1] is None {
            proof {
                lemma_update_empties(s, n - 1, turn, 9);
            }
            let sc = comparison_score(
                spec_minimax(s.update(n - 1, Some(turn)), maximizer, spec_opposite(turn)),
            );
            match rest {
                None => Some(((n - 1) as usize, sc)),
                Some((_, incumbent)) => if prefers(turn == maximizer, sc, incumbent) {
                    Some(((n - 1) as usize, sc))
                } else {
                    rest
                },
            }
        } else {
            rest
        }
    }
}

/// The value of a board for `maximizer` with `turn` to move, both players
/// playing optimally: the leaf value of a finished board, or the best move
/// over all empty cells of a playing board together with its score.
pub open spec fn spec_minimax(s: Seq<Option<Player>>, maximizer: Player, turn: Player) -> Minimaxxing
    decreases empties_below(s, 9), 10int,
{
    match spec_status(s) {
        Status::Winner(w) => Minimaxxing::Result(spec_winner_pts(maximizer, w)),
        Status::Draw => Minimaxxing::Result(0i8),
        Status::Playing => match best_upto(s, maximizer, turn, 9) {
            Some((pos, sc)) => Minimaxxing::Position(pos, sc),
            None => Minimaxxing::Result(0i8),
        },
    }
}

/// Shape of `best_upto`: it returns nothing exactly when no cell below `n`
/// is empty, and otherwise names an empty cell below `n` with a comparison
/// score in -2..=2.
pub proof fn lemma_best_upto_shape(s: Seq<Option<Player>>, maximizer: Player, turn: Player, n: int)
    requires
        s.len() == 9,
        0 <= n <= 9,
    ensures
        match best_upto(s, maximizer, turn, n) {
            None => forall|j: int| 0 <= j < n ==> s[j] is Some,
            Some((pos, sc)) => pos < n && s[pos as int] is None && -2 <= sc <= 2,
        },
    decreases empties_below(s, 9), n,
{
    if n > 0 {
        lemma_best_upto_shape(s, maximizer, turn, n - 1);
        if s[n - 1] is None {
            lemma_update_empties(s, n - 1, turn, 9);
            lemma_minimax_shape(s.update(n - 1, Some(turn)), maximizer, spec_opposite(turn));
        }
    }
}

/// Shape of the search: on a playing board it names an empty cell and a
/// score in -2..=2; on a finished board it returns a leaf value in -1..=1.
pub proof fn lemma_minimax_shape(s: Seq<Option<Player>>, maximizer: Player, turn: Player)
    requires
        s.len() == 9,
    ensures
        match spec_minimax(s, maximizer, turn) {
            Minimaxxing::Result(v) => spec_status(s) !is Playing && -1 <= v <= 1,
            Minimaxxing::Position(pos, sc) => spec_status(s) is Playing && pos < 9 && s[pos as int]
                is None && -2 <= sc <= 2,
        },
    decreases empties_below(s, 9), 10int,
{
    if spec_status(s) is Playing {
        lemma_best_upto_shape(s, maximizer, turn, 9);
        if best_upto(s, maximizer, turn, 9) is None {
            assert(board_full(s));
        }
    }
}

impl Board {
    /// The leaf value of a won board from the maximizer's point of view.
    fn evaluate_winner_pts(maximizer: &Player, winner: &Player) -> (r: i8)
        ensures
            r == spec_winner_pts(*maximizer, *winner),
    {
        if maximizer == winner {
            1
        } else {
            -1
        }
    }

    /// The best available move for `turn` on a playing board, judged for
    /// `maximizer`, with its score; or the leaf value of a finished board.
    /// The result is a function of the board and the two players alone, so
    /// repeating a search repeats its answer.
    pub fn minimax(&self, maximizer: &Player, turn: &Player) -> (res: Minimaxxing)
        ensures
            res == spec_minimax(self@, *maximizer, *turn),
            res matches Minimaxxing::Position(pos, _) ==> pos < 9 && self@[pos as int] is None,
            res is Position <==> spec_status(self@) is Playing,
        decreases empties_below(self@, 9),
    {
        proof {
            lemma_minimax_shape(self@, *maximizer, *turn);
        }
        match self.status() {
            Status::Winner(winner) => {
                return Minimaxxing::Result(Self::evaluate_winner_pts(maximizer, &winner));
            },
            Status::Draw => {
                return Minimaxxing::Result(0);
            },
            Status::Playing => {},
        }
        let maximizing = *turn == *maximizer;
        let mut best: Option<(usize, i8)> = None;
        let mut idx: usize = 0;
        while idx < 9
            invariant
                idx <= 9,
                self@.len() == 9,
                spec_status(self@) is Playing,
                maximizing == (*turn == *maximizer),
                best == best_upto(self@, *maximizer, *turn, idx as int),
            decreases 9 - idx,
        {
            if !self.occupied(idx) {
                let child = self.place_at(idx, turn);
                proof {
                    lemma_update_empties(self@, idx as int, *turn, 9);
                    lemma_minimax_shape(child@, *maximizer, spec_opposite(*turn));
                }
                let sub = child.minimax(maximizer, &turn.opposite());
                let score: i8 = match sub {
                    Minimaxxing::Result(v) => 2 * v,
                    Minimaxxing::Position(_, v) => if v > 1 {
                        1
                    } else if v < -1 {
                        -1
                    } else {
                        v
                    },
                };
                let replace = match best {
                    None => true,
                    Some((_, incumbent)) => if maximizing {
                        score > incumbent
                    } else {
                        score < incumbent
                    },
                };
                if replace {
                    best = Some((idx, score));
                }
            }
            idx += 1;
        }
        proof {
            lemma_best_upto_shape(self@, *maximizer, *turn, 9);
        }
        match best {
            Some((pos, score)) => Minimaxxing::Position(pos, score),
            None => {
                // a playing board always has an empty cell, so a best move
                // was found above
                proof {
                    assert(board_full(self@));
                    assert(false);
                }
                Minimaxxing::Result(0)
            },
        }
    }
}

} // verus!
