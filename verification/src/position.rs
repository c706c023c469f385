//! The mathematical model of a board: what the contracts of the generator,
//! the applier and the legality filter speak of.

use vstd::prelude::*;
use crate::pieces::{Color, ColorPiece, Piece, UnitaryPiece};
use crate::pieces::movement::Move;
use crate::square::Square;

verus! {

/// A position: the 64 cells in the order of the squares' numbers, the
/// en-passant target, the side to move, the four castling rights (White's
/// king side, White's queen side, Black's king side, Black's queen side) and
/// the move played last.
pub struct Position {
    pub cells: Seq<Option<ColorPiece>>,
    pub en_passant: Option<Square>,
    pub turn: Color,
    pub rights: Seq<bool>,
    pub previous: Option<Move>,
}

/// The piece `piece` of colour `side` as the content of a cell.
pub open spec fn lone(side: Color, piece: UnitaryPiece) -> Option<ColorPiece> {
    Some(ColorPiece::of(side, Piece::Unitary(piece)))
}

impl Position {
    /// A position has 64 cells and 4 castling rights.
    pub open spec fn wf(self) -> bool {
        self.cells.len() == 64 && self.rights.len() == 4
    }

    /// The content of square `s`.
    pub open spec fn at(self, s: Square) -> Option<ColorPiece> {
        self.cells[s.idx()]
    }

    /// The position with `p` on square `s` and all else unchanged.
    pub open spec fn put(self, s: Square, p: Option<ColorPiece>) -> Position {
        Position { cells: self.cells.update(s.idx(), p), ..self }
    }

    /// The position with castling right `i` withdrawn.
    pub open spec fn deny(self, i: int) -> Position {
        Position { rights: self.rights.update(i, false), ..self }
    }

    /// Whether square `s` holds a piece of colour `side`.
    pub open spec fn owned(self, s: Square, side: Color) -> bool {
        self.at(s) is Some && self.at(s).unwrap().side() == side
    }

    /// Whether cell `i` holds the king of `side`.
    pub open spec fn king_on(self, i: int, side: Color) -> bool {
        self.cells[i] == lone(side, UnitaryPiece::King)
    }

    /// Whether a king of `side` stands among the cells below `n`.
    pub open spec fn king_below(self, n: int, side: Color) -> bool {
        exists|i: int| 0 <= i < n && #[trigger] self.king_on(i, side)
    }

    /// Whether `side` has a king on the board.
    pub open spec fn has_king(self, side: Color) -> bool {
        self.king_below(64, side)
    }

    /// The number of the first cell that holds a king of `side`.
    pub open spec fn king_cell(self, side: Color) -> int {
        choose|i: int|
            0 <= i < 64 && #[trigger] self.king_on(i, side) && !self.king_below(i, side)
    }

    /// Whether `side` has nothing but kings: every piece of that colour is a
    /// lone king.
    pub open spec fn bare(self, side: Color) -> bool {
        forall|i: int|
            0 <= i < 64 && (#[trigger] self.cells[i]) is Some && self.cells[i].unwrap().side()
                == side ==> self.cells[i] == lone(side, UnitaryPiece::King)
    }

    /// The material balance: the worth of White's pieces less that of
    /// Black's, over the cells below `n`.
    pub open spec fn balance(self, n: int) -> int
        decreases n,
    {
        if n <= 0 {
            0
        } else {
            self.balance(n - 1) + match self.cells[n - 1] {
                None => 0,
                Some(ColorPiece::White(p)) => p.worth(),
                Some(ColorPiece::Black(p)) => -p.worth(),
            }
        }
    }

    /// The occupied squares with their pieces, among the cells from `i` on,
    /// in the order of the squares' numbers.
    pub open spec fn occupied_from(self, i: int) -> Seq<(Square, ColorPiece)>
        decreases 64 - i,
    {
        if i < 0 || i >= 64 {
            Seq::empty()
        } else {
            match self.cells[i] {
                None => self.occupied_from(i + 1),
                Some(p) => seq![(Square::of(i), p)] + self.occupied_from(i + 1),
            }
        }
    }

    /// The occupied squares with their pieces, among the cells below `n`, in
    /// the order of the squares' numbers.
    pub open spec fn occupied(self, n: int) -> Seq<(Square, ColorPiece)>
        decreases n,
    {
        if n <= 0 {
            Seq::empty()
        } else {
            match self.cells[n - 1] {
                None => self.occupied(n - 1),
                Some(p) => self.occupied(n - 1).push((Square::of(n - 1), p)),
            }
        }
    }
}

/// The occupied squares below `i` followed by those from `i` on are the
/// occupied squares of the board.
pub proof fn lemma_occupied_split(pos: Position, i: int)
    requires
        0 <= i <= 64,
    ensures
        pos.occupied(i) + pos.occupied_from(i) == pos.occupied(64),
    decreases 64 - i,
{
    if i < 64 {
        lemma_occupied_split(pos, i + 1);
        match pos.cells[i] {
            None => {},
            Some(p) => {
                assert(pos.occupied(i).push((Square::of(i), p)) + pos.occupied_from(i + 1)
                    =~= pos.occupied(i) + (seq![(Square::of(i), p)] + pos.occupied_from(i + 1)));
            },
        }
    } else {
        assert(pos.occupied(64) + pos.occupied_from(64) =~= pos.occupied(64));
    }
}

/// Where a side has a king, the first cell that holds one is well defined.
pub proof fn lemma_king_cell(pos: Position, side: Color)
    requires
        pos.has_king(side),
    ensures
        0 <= pos.king_cell(side) < 64,
        pos.king_on(pos.king_cell(side), side),
        !pos.king_below(pos.king_cell(side), side),
{
    lemma_first_king(pos, side, 64);
}

/// Among the cells below `n`, if one holds a king of `side` then there is a
/// first such cell.
proof fn lemma_first_king(pos: Position, side: Color, n: int)
    requires
        pos.king_below(n, side),
        n <= 64,
    ensures
        exists|i: int|
            0 <= i < 64 && #[trigger] pos.king_on(i, side) && !pos.king_below(i, side),
    decreases n,
{
    let w = choose|i: int| 0 <= i < n && #[trigger] pos.king_on(i, side);
    if pos.king_below(w, side) {
        lemma_first_king(pos, side, w);
    }
}

} // verus!
