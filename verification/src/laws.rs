//! General properties of the board and the engine, stated and proved over
//! the spec-level model that the executable functions' contracts use.

use vstd::prelude::*;

use crate::board::Player;
use crate::board::Status;
use crate::board::board_full;
use crate::board::line_wins;
use crate::board::spec_line_owner;
use crate::board::spec_opposite;
use crate::board::spec_status;
use crate::board::spec_winner;
use crate::board::wins;
use crate::engine::Minimaxxing;
use crate::engine::lemma_minimax_shape;
use crate::engine::spec_minimax;

verus! {

/// Placing a mark touches exactly the chosen cell: the placed board (the
/// view `place_at` guarantees) reads back the placed player at the chosen
/// index and keeps every other cell's previous value.
pub proof fn lemma_place_at_cells(s: Seq<Option<Player>>, idx: int, p: Player)
    requires
        s.len() == 9,
        0 <= idx < 9,
        s[idx] is None,
    ensures
        s.update(idx, Some(p))[idx] == Some(p),
        forall|j: int| 0 <= j < 9 && j != idx ==> s.update(idx, Some(p))[j] == s[j],
{
}

/// The reported winner owns a completed line, and when no winner is
/// reported neither player owns one.
pub proof fn lemma_winner_owns_line(s: Seq<Option<Player>>)
    requires
        s.len() == 9,
    ensures
        spec_winner(s) matches Some(q) ==> wins(s, q),
        spec_winner(s) is None ==> !wins(s, Player::X) && !wins(s, Player::O),
{
    assert(spec_line_owner(s, 0, 1, 2) matches Some(q) ==> line_wins(s, q, 0, 1, 2));
    assert(spec_line_owner(s, 3, 4, 5) matches Some(q) ==> line_wins(s, q, 3, 4, 5));
    assert(spec_line_owner(s, 6, 7, 8) matches Some(q) ==> line_wins(s, q, 6, 7, 8));
    assert(spec_line_owner(s, 0, 3, 6) matches Some(q) ==> line_wins(s, q, 0, 3, 6));
    assert(spec_line_owner(s, 1, 4, 7) matches Some(q) ==> line_wins(s, q, 1, 4, 7));
    assert(spec_line_owner(s, 2, 5, 8) matches Some(q) ==> line_wins(s, q, 2, 5, 8));
    assert(spec_line_owner(s, 0, 4, 8) matches Some(q) ==> line_wins(s, q, 0, 4, 8));
    assert(spec_line_owner(s, 2, 4, 6) matches Some(q) ==> line_wins(s, q, 2, 4, 6));
}

/// The status is Winner(p) exactly when p owns a completed row, column, or
/// diagonal — provided the two players do not both own completed lines, a
/// situation no game that stops at its first completed line can reach.
pub proof fn lemma_winner_characterization(s: Seq<Option<Player>>)
    requires
        s.len() == 9,
        !(wins(s, Player::X) && wins(s, Player::O)),
    ensures
        spec_status(s) == Status::Winner(Player::X) <==> wins(s, Player::X),
        spec_status(s) == Status::Winner(Player::O) <==> wins(s, Player::O),
{
    lemma_winner_owns_line(s);
}

/// A placement can complete lines only for the player who moved: if the
/// opponent holds no completed line before the move, the opponent still
/// holds none afterwards. A game that stops as soon as the status leaves
/// Playing therefore never reaches a board where both players hold
/// completed lines, the situation `lemma_winner_characterization` excludes.
pub proof fn lemma_placement_completes_no_opposing_line(
    s: Seq<Option<Player>>,
    idx: int,
    p: Player,
)
    requires
        s.len() == 9,
        0 <= idx < 9,
        s[idx] is None,
        !wins(s, spec_opposite(p)),
    ensures
        !wins(s.update(idx, Some(p)), spec_opposite(p)),
{
}

/// The status is Draw exactly when no cell is empty and neither player owns
/// a completed line.
pub proof fn lemma_draw_characterization(s: Seq<Option<Player>>)
    requires
        s.len() == 9,
    ensures
        spec_status(s) == Status::Draw <==> board_full(s) && !wins(s, Player::X) && !wins(
            s,
            Player::O,
        ),
{
    lemma_winner_owns_line(s);
}

/// The engine only proposes legal moves: whenever the search returns a
/// position, that position is an empty cell of the searched board.
pub proof fn lemma_search_returns_empty_cell(
    s: Seq<Option<Player>>,
    maximizer: Player,
    turn: Player,
)
    requires
        s.len() == 9,
    ensures
        spec_minimax(s, maximizer, turn) matches Minimaxxing::Position(pos, _) ==> pos < 9
            && s[pos as int] is None,
{
    lemma_minimax_shape(s, maximizer, turn);
}

} // verus!
