//! The board: nine cells in row-major order, each Empty or marked by one of
//! the two players. Boards are immutable values; placing a mark yields a new
//! board. A board can also be classified (playing, won, or drawn) and packed
//! into the two-bits-per-cell `u32` wire encoding.

use vstd::prelude::*;

use vstd::arithmetic::div_mod::lemma_fundamental_div_mod_converse;

verus! {

/// One of the two players. An empty cell is represented by `None` in
/// `Option<Player>`.
#[derive(Clone, Copy, PartialEq, Eq, Structural, Debug)]
pub enum Player {
    X,
    O,
}

/// The classification of a board: still playable, won by a player, or drawn.
#[derive(Clone, Copy, PartialEq, Eq, Structural, Debug)]
pub enum Status {
    Playing,
    Winner(Player),
    Draw,
}

/// The player that moves after `p`.
pub open spec fn spec_opposite(p: Player) -> Player {
    match p {
        Player::X => Player::O,
        Player::O => Player::X,
    }
}

impl Player {
    /// The other player.
    pub fn opposite(&self) -> (r: Self)
        ensures
            r == spec_opposite(*self),
    {
        match self {
            Player::X => Player::O,
            Player::O => Player::X,
        }
    }
}

/// The owner of the line through cells `a`, `b`, `c`: the player marking all
/// three, if any.
pub open spec fn spec_line_owner(s: Seq<Option<Player>>, a: int, b: int, c: int) -> Option<
    Player,
> {
    if s[a] is Some && s[b] == s[a] && s[c] == s[a] {
        s[a]
    } else {
        None
    }
}

/// Whether player `p` marks all three cells of the line `a`, `b`, `c`.
pub open spec fn line_wins(s: Seq<Option<Player>>, p: Player, a: int, b: int, c: int) -> bool {
    s[a] == Some(p) && s[b] == Some(p) && s[c] == Some(p)
}

/// Whether player `p` has completed some row, column, or diagonal.
pub open spec fn wins(s: Seq<Option<Player>>, p: Player) -> bool {
    ||| line_wins(s, p, 0, 1, 2)
    ||| line_wins(s, p, 3, 4, 5)
    ||| line_wins(s, p, 6, 7, 8)
    ||| line_wins(s, p, 0, 3, 6)
    ||| line_wins(s, p, 1, 4, 7)
    ||| line_wins(s, p, 2, 5, 8)
    ||| line_wins(s, p, 0, 4, 8)
    ||| line_wins(s, p, 2, 4, 6)
}

/// The first completed line's owner, checking the three rows, then the three
/// columns, then the two diagonals.
pub open spec fn spec_winner(s: Seq<Option<Player>>) -> Option<Player> {
    if spec_line_owner(s, 0, 1, 2) is Some {
        spec_line_owner(s, 0, 1, 2)
    } else if spec_line_owner(s, 3, 4, 5) is Some {
        spec_line_owner(s, 3, 4, 5)
    } else if spec_line_owner(s, 6, 7, 8) is Some {
        spec_line_owner(s, 6, 7, 8)
    } else if spec_line_owner(s, 0, 3, 6) is Some {
        spec_line_owner(s, 0, 3, 6)
    } else if spec_line_owner(s, 1, 4, 7) is Some {
        spec_line_owner(s, 1, 4, 7)
    } else if spec_line_owner(s, 2, 5, 8) is Some {
        spec_line_owner(s, 2, 5, 8)
    } else if spec_line_owner(s, 0, 4, 8) is Some {
        spec_line_owner(s, 0, 4, 8)
    } else if spec_line_owner(s, 2, 4, 6) is Some {
        spec_line_owner(s, 2, 4, 6)
    } else {
        None
    }
}

/// Whether no cell is empty.
pub open spec fn board_full(s: Seq<Option<Player>>) -> bool {
    forall|i: int| 0 <= i < 9 ==> s[i] is Some
}

/// The classification of a board: a completed line names the winner;
/// otherwise a full board is drawn and any other board is still playable.
pub open spec fn spec_status(s: Seq<Option<Player>>) -> Status {
    match spec_winner(s) {
        Some(w) => Status::Winner(w),
        None => if board_full(s) {
            Status::Draw
        } else {
            Status::Playing
        },
    }
}

/// The two-bit code of one cell in the wire encoding: `01` for an empty
/// cell, `11` for X, `00` for O.
pub open spec fn cell_code(c: Option<Player>) -> int {
    match c {
        None => 1,
        Some(Player::X) => 3,
        Some(Player::O) => 0,
    }
}

/// The packed encoding of a board: nine two-bit cell codes, cell 0 in the
/// highest pair (bits 17..16) down to cell 8 in the lowest pair.
pub open spec fn spec_encoding(s: Seq<Option<Player>>) -> int {
    cell_code(s[0]) * 65536 + cell_code(s[1]) * 16384 + cell_code(s[2]) * 4096 + cell_code(s[3])
        * 1024 + cell_code(s[4]) * 256 + cell_code(s[5]) * 64 + cell_code(s[6]) * 16 + cell_code(
        s[7],
    ) * 4 + cell_code(s[8])
}

/// The two-bit code of cell `i` inside the packed value `v`.
pub open spec fn code_at(v: u32, i: int) -> int {
    if i == 0 {
        (v as int / 65536) % 4
    } else if i == 1 {
        (v as int / 16384) % 4
    } else if i == 2 {
        (v as int / 4096) % 4
    } else if i == 3 {
        (v as int / 1024) % 4
    } else if i == 4 {
        (v as int / 256) % 4
    } else if i == 5 {
        (v as int / 64) % 4
    } else if i == 6 {
        (v as int / 16) % 4
    } else if i == 7 {
        (v as int / 4) % 4
    } else {
        (v as int) % 4
    }
}

/// The cell a two-bit code stands for; `10` is not assigned to any cell.
pub open spec fn decoded_cell(code: int) -> Option<Player> {
    if code == 0 {
        Some(Player::O)
    } else if code == 3 {
        Some(Player::X)
    } else {
        None
    }
}

/// Whether `v` is the packed encoding of some board: it fits in eighteen
/// bits and no cell carries the unassigned code `10`.
pub open spec fn well_encoded(v: u32) -> bool {
    v < 262144 && (forall|i: int| 0 <= i < 9 ==> code_at(v, i) != 2)
}

/// The packed encoding is faithful: a board's encoding fits in eighteen
/// bits, is well formed, and decodes back to the same nine cells.
pub proof fn lemma_encoding_round_trip(s: Seq<Option<Player>>)
    requires
        s.len() == 9,
    ensures
        0 <= spec_encoding(s) < 262144,
        well_encoded(spec_encoding(s) as u32),
        forall|i: int| 0 <= i < 9 ==> decoded_cell(code_at(spec_encoding(s) as u32, i)) == s[i],
{
    let c0 = cell_code(s[0]);
    let c1 = cell_code(s[1]);
    let c2 = cell_code(s[2]);
    let c3 = cell_code(s[3]);
    let c4 = cell_code(s[4]);
    let c5 = cell_code(s[5]);
    let c6 = cell_code(s[6]);
    let c7 = cell_code(s[7]);
    let c8 = cell_code(s[8]);
    let v = spec_encoding(s);
    let u = v as u32;
    assert(u as int == v);

    // the running prefixes of the encoding, one two-bit digit at a time
    let q0 = c0;
    let q1 = q0 * 4 + c1;
    let q2 = q1 * 4 + c2;
    let q3 = q2 * 4 + c3;
    let q4 = q3 * 4 + c4;
    let q5 = q4 * 4 + c5;
    let q6 = q5 * 4 + c6;
    let q7 = q6 * 4 + c7;
    let q8 = q7 * 4 + c8;

    // dividing by a digit's weight leaves the prefix ending at that digit
    lemma_fundamental_div_mod_converse(
        v,
        65536,
        q0,
        c1 * 16384 + c2 * 4096 + c3 * 1024 + c4 * 256 + c5 * 64 + c6 * 16 + c7 * 4 + c8,
    );
    lemma_fundamental_div_mod_converse(
        v,
        16384,
        q1,
        c2 * 4096 + c3 * 1024 + c4 * 256 + c5 * 64 + c6 * 16 + c7 * 4 + c8,
    );
    lemma_fundamental_div_mod_converse(
        v,
        4096,
        q2,
        c3 * 1024 + c4 * 256 + c5 * 64 + c6 * 16 + c7 * 4 + c8,
    );
    lemma_fundamental_div_mod_converse(v, 1024, q3, c4 * 256 + c5 * 64 + c6 * 16 + c7 * 4 + c8);
    lemma_fundamental_div_mod_converse(v, 256, q4, c5 * 64 + c6 * 16 + c7 * 4 + c8);
    lemma_fundamental_div_mod_converse(v, 64, q5, c6 * 16 + c7 * 4 + c8);
    lemma_fundamental_div_mod_converse(v, 16, q6, c7 * 4 + c8);
    lemma_fundamental_div_mod_converse(v, 4, q7, c8);
    lemma_fundamental_div_mod_converse(v, 1, q8, 0);

    // each prefix modulo 4 is its last digit
    lemma_fundamental_div_mod_converse(q0, 4, 0, c0);
    lemma_fundamental_div_mod_converse(q1, 4, q0, c1);
    lemma_fundamental_div_mod_converse(q2, 4, q1, c2);
    lemma_fundamental_div_mod_converse(q3, 4, q2, c3);
    lemma_fundamental_div_mod_converse(q4, 4, q3, c4);
    lemma_fundamental_div_mod_converse(q5, 4, q4, c5);
    lemma_fundamental_div_mod_converse(q6, 4, q5, c6);
    lemma_fundamental_div_mod_converse(q7, 4, q6, c7);
    lemma_fundamental_div_mod_converse(q8, 4, q7, c8);

    assert(code_at(u, 0) == c0);
    assert(code_at(u, 1) == c1);
    assert(code_at(u, 2) == c2);
    assert(code_at(u, 3) == c3);
    assert(code_at(u, 4) == c4);
    assert(code_at(u, 5) == c5);
    assert(code_at(u, 6) == c6);
    assert(code_at(u, 7) == c7);
    assert(code_at(u, 8) == c8);

    assert(forall|c: Option<Player>| #[trigger] decoded_cell(cell_code(c)) == c);
}

/// A 3x3 grid, cells indexed 0..9 in row-major order.
#[derive(Clone, Copy, Debug)]
pub struct Board {
    cells: [Option<Player>; 9],
}

impl View for Board {
    type V = Seq<Option<Player>>;

    closed spec fn view(&self) -> Seq<Option<Player>> {
        self.cells@
    }
}

/// A board always views as exactly nine cells.
pub broadcast proof fn lemma_view_len(b: Board)
    ensures
        (#[trigger] b@).len() == 9,
{
}

impl Board {
    /// A fresh board: all nine cells empty, and therefore still playable.
    pub fn new() -> (r: Self)
        ensures
            r@.len() == 9,
            forall|i: int| 0 <= i < 9 ==> r@[i] is None,
            spec_status(r@) == Status::Playing,
    {
        Board { cells: [None, None, None, None, None, None, None, None, None] }
    }

    /// Whether cell `idx` holds a mark.
    pub fn occupied(&self, idx: usize) -> (r: bool)
        requires
            idx < 9,
        ensures
            r == (self@[idx as int] is Some),
    {
        self.cells[idx].is_some()
    }

    /// The occupant of cell `idx`, or `None` for an empty cell.
    pub fn value_at(&self, idx: usize) -> (r: Option<Player>)
        requires
            idx < 9,
        ensures
            r == self@[idx as int],
    {
        self.cells[idx]
    }

    /// The board obtained by marking the empty cell `idx` with `player`;
    /// every other cell keeps its value.
    pub fn place_at(&self, idx: usize, player: &Player) -> (r: Self)
        requires
            idx < 9,
            self@[idx as int] is None,
        ensures
            r@ == self@.update(idx as int, Some(*player)),
    {
        let mut cells = self.cells;
        cells[idx] = Some(*player);
        Board { cells }
    }

    /// The two-bit code of one cell.
    fn encode_cell(c: Option<Player>) -> (r: u32)
        ensures
            r as int == cell_code(c),
    {
        match c {
            None => 1,
            Some(Player::X) => 3,
            Some(Player::O) => 0,
        }
    }

    /// The cell a two-bit code stands for; the caller rules out the
    /// unassigned code `10` beforehand.
    fn decode_cell(code: u32) -> (r: Option<Player>)
        ensures
            r == decoded_cell(code as int),
    {
        if code == 0 {
            Some(Player::O)
        } else if code == 3 {
            Some(Player::X)
        } else {
            None
        }
    }

    /// The packed two-bits-per-cell encoding of the board, cell 0 in the
    /// highest pair of the eighteen used bits.
    pub fn as_u32(&self) -> (r: u32)
        ensures
            r as int == spec_encoding(self@),
            well_encoded(r),
    {
        proof {
            lemma_encoding_round_trip(self@);
        }
        let c0 = Self::encode_cell(self.cells[0]);
        let c1 = Self::encode_cell(self.cells[1]);
        let c2 = Self::encode_cell(self.cells[2]);
        let c3 = Self::encode_cell(self.cells[3]);
        let c4 = Self::encode_cell(self.cells[4]);
        let c5 = Self::encode_cell(self.cells[5]);
        let c6 = Self::encode_cell(self.cells[6]);
        let c7 = Self::encode_cell(self.cells[7]);
        let c8 = Self::encode_cell(self.cells[8]);
        c0 * 65536 + c1 * 16384 + c2 * 4096 + c3 * 1024 + c4 * 256 + c5 * 64 + c6 * 16 + c7 * 4
            + c8
    }

    /// The board whose packed encoding is `v`, or `None` when `v` does not
    /// encode one (it needs more than eighteen bits, or some cell carries
    /// the unassigned code `10`).
    pub fn from_u32(v: u32) -> (r: Option<Self>)
        ensures
            r is Some <==> well_encoded(v),
            r matches Some(b) ==> b@.len() == 9 && (forall|i: int|
                0 <= i < 9 ==> b@[i] == decoded_cell(code_at(v, i))),
    {
        if v >= 262144 {
            return None;
        }
        let k0 = (v / 65536) % 4;
        let k1 = (v / 16384) % 4;
        let k2 = (v / 4096) % 4;
        let k3 = (v / 1024) % 4;
        let k4 = (v / 256) % 4;
        let k5 = (v / 64) % 4;
        let k6 = (v / 16) % 4;
        let k7 = (v / 4) % 4;
        let k8 = v % 4;
        proof {
            assert(code_at(v, 0) == k0 as int);
            assert(code_at(v, 1) == k1 as int);
            assert(code_at(v, 2) == k2 as int);
            assert(code_at(v, 3) == k3 as int);
            assert(code_at(v, 4) == k4 as int);
            assert(code_at(v, 5) == k5 as int);
            assert(code_at(v, 6) == k6 as int);
            assert(code_at(v, 7) == k7 as int);
            assert(code_at(v, 8) == k8 as int);
        }
        if k0 == 2 || k1 == 2 || k2 == 2 || k3 == 2 || k4 == 2 || k5 == 2 || k6 == 2 || k7 == 2
            || k8 == 2 {
            return None;
        }
        let cells = [
            Self::decode_cell(k0),
            Self::decode_cell(k1),
            Self::decode_cell(k2),
            Self::decode_cell(k3),
            Self::decode_cell(k4),
            Self::decode_cell(k5),
            Self::decode_cell(k6),
            Self::decode_cell(k7),
            Self::decode_cell(k8),
        ];
        Some(Board { cells })
    }

    /// Which cells are empty: entry `i` of the result is true exactly when
    /// cell `i` is still free.
    pub fn indexes_available(&self) -> (r: [bool; 9])
        ensures
            forall|i: int| 0 <= i < 9 ==> r@[i] == (self@[i] is None),
    {
        let mut result: [bool; 9] = [false, false, false, false, false, false, false, false, false];
        let mut idx: usize = 0;
        while idx < 9
            invariant
                idx <= 9,
                forall|i: int| 0 <= i < idx ==> result@[i] == (self@[i] is None),
            decreases 9 - idx,
        {
            result[idx] = !self.occupied(idx);
            idx += 1;
        }
        result
    }

    /// Whether no empty cell remains.
    pub fn game_over(&self) -> (r: bool)
        ensures
            r == board_full(self@),
    {
        let mut idx: usize = 0;
        while idx < 9
            invariant
                idx <= 9,
                forall|i: int| 0 <= i < idx ==> self@[i] is Some,
            decreases 9 - idx,
        {
            if !self.occupied(idx) {
                return false;
            }
            idx += 1;
        }
        true
    }

    /// The owner of the line through cells `a`, `b`, `c`, if all three hold
    /// the same mark.
    fn line_owner(&self, a: usize, b: usize, c: usize) -> (r: Option<Player>)
        requires
            a < 9,
            b < 9,
            c < 9,
        ensures
            r == spec_line_owner(self@, a as int, b as int, c as int),
    {
        match (self.cells[a], self.cells[b], self.cells[c]) {
            (Some(x), Some(y), Some(z)) => if x == y && x == z {
                Some(x)
            } else {
                None
            },
            _ => None,
        }
    }

    /// The winner, if some row, column, or diagonal is completed; lines are
    /// checked rows first, then columns, then the two diagonals.
    fn winner(&self) -> (r: Option<Player>)
        ensures
            r == spec_winner(self@),
    {
        if let Some(p) = self.line_owner(0, 1, 2) {
            return Some(p);
        }
        if let Some(p) = self.line_owner(3, 4, 5) {
            return Some(p);
        }
        if let Some(p) = self.line_owner(6, 7, 8) {
            return Some(p);
        }
        if let Some(p) = self.line_owner(0, 3, 6) {
            return Some(p);
        }
        if let Some(p) = self.line_owner(1, 4, 7) {
            return Some(p);
        }
        if let Some(p) = self.line_owner(2, 5, 8) {
            return Some(p);
        }
        if let Some(p) = self.line_owner(0, 4, 8) {
            return Some(p);
        }
        if let Some(p) = self.line_owner(2, 4, 6) {
            return Some(p);
        }
        None
    }

    /// The board's classification: first the eight winning lines are
    /// checked, then a full board is a draw, and anything else is playing.
    pub fn status(&self) -> (r: Status)
        ensures
            r == spec_status(self@),
    {
        if let Some(winner) = self.winner() {
            Status::Winner(winner)
        } else {
            if self.game_over() {
                Status::Draw
            } else {
                Status::Playing
            }
        }
    }
}

} // verus!
