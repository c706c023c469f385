//! The pseudo-legal moves of a position, as a mathematical statement: what
//! each kind of piece may do, without regard to the safety of the mover's own
//! king. The lists are ordered, since the order in which moves are produced is
//! part of what callers observe.

use vstd::prelude::*;
use crate::pieces::{Color, Piece, PieceHalf, UnitaryPiece};
use crate::pieces::movement::Move;
use crate::position::Position;
use crate::square::Square;

verus! {

/// The rank coordinate on which the pieces of `side` start.
pub open spec fn back_rank(side: Color) -> int {
    match side {
        Color::White => 0,
        Color::Black => 7,
    }
}

/// The rank coordinate on which the pawns of `side` start.
pub open spec fn pawn_rank(side: Color) -> int {
    match side {
        Color::White => 1,
        Color::Black => 6,
    }
}

/// The direction in which the pawns of `side` advance.
pub open spec fn forward(side: Color) -> int {
    match side {
        Color::White => 1,
        Color::Black => -1,
    }
}

/// The number of the king-side castling right of `side`; the queen-side right
/// is the next one.
pub open spec fn right_base(side: Color) -> int {
    match side {
        Color::White => 0,
        Color::Black => 2,
    }
}

/// The square on which the king of `side` starts.
pub open spec fn king_home(side: Color) -> Square {
    Square::at(4, back_rank(side))
}

/// One move in a list of its own.
pub open spec fn one(from: Square, to: Square, half: Option<PieceHalf>) -> Seq<Move> {
    seq![Move { from, to, which_half: half }]
}

/// `one(from, to, half)` if `cond` holds, else nothing.
pub open spec fn one_if(cond: bool, from: Square, to: Square, half: Option<PieceHalf>) -> Seq<
    Move,
> {
    if cond {
        one(from, to, half)
    } else {
        Seq::empty()
    }
}

impl Position {
    /// Whether the piece on `from`, of colour `side`, may end a slide or a
    /// jump on `to`: the square is empty, or holds an enemy, or holds a
    /// friendly unitary piece other than the king while the mover is unitary
    /// too (the two would merge).
    pub open spec fn may_land(self, side: Color, from: Square, to: Square) -> bool {
        match self.at(to) {
            None => true,
            Some(d) => d.side() != side || (d.body() is Unitary && self.at(from) is Some
                && self.at(from).unwrap().body() is Unitary && d.body() != Piece::Unitary(
                UnitaryPiece::King,
            )),
        }
    }

    /// The move of a single jump by `(df, dr)`, if the target is on the board
    /// and the piece may land there.
    #[verifier::opaque]
    pub open spec fn hop(
        self,
        side: Color,
        from: Square,
        df: int,
        dr: int,
        half: Option<PieceHalf>,
    ) -> Seq<Move> {
        match from.offset(df, dr) {
            None => Seq::empty(),
            Some(to) => one_if(self.may_land(side, from, to), from, to, half),
        }
    }

    /// The moves of a slide in direction `(df, dr)` that lie beyond `cur`:
    /// each empty square, up to and including the first occupied square on
    /// which the piece may land.
    pub open spec fn ray(
        self,
        side: Color,
        from: Square,
        cur: Square,
        df: int,
        dr: int,
        half: Option<PieceHalf>,
    ) -> Seq<Move>
        decreases room(cur, df, dr),
    {
        if !is_direction(df, dr) {
            Seq::empty()
        } else {
            match cur.offset(df, dr) {
                None => Seq::empty(),
                Some(to) => one_if(self.may_land(side, from, to), from, to, half) + (if self.at(to)
                    is None {
                    self.ray(side, from, to, df, dr, half)
                } else {
                    Seq::empty()
                }),
            }
        }
    }

    /// The moves of a rook: the slides to the left, to the right, up and
    /// down.
    #[verifier::opaque]
    pub open spec fn rook_moves(self, side: Color, from: Square, half: Option<PieceHalf>) -> Seq<
        Move,
    > {
        self.ray(side, from, from, -1, 0, half) + self.ray(side, from, from, 1, 0, half)
            + self.ray(side, from, from, 0, 1, half) + self.ray(side, from, from, 0, -1, half)
    }

    /// The moves of a bishop: the four diagonal slides.
    #[verifier::opaque]
    pub open spec fn bishop_moves(self, side: Color, from: Square, half: Option<PieceHalf>) -> Seq<
        Move,
    > {
        self.ray(side, from, from, 1, 1, half) + self.ray(side, from, from, -1, 1, half)
            + self.ray(side, from, from, 1, -1, half) + self.ray(side, from, from, -1, -1, half)
    }

    /// The moves of a knight: the eight jumps.
    #[verifier::opaque]
    pub open spec fn knight_moves(self, side: Color, from: Square, half: Option<PieceHalf>) -> Seq<
        Move,
    > {
        self.hop(side, from, -2, 1, half) + self.hop(side, from, 2, 1, half) + self.hop(
            side,
            from,
            -2,
            -1,
            half,
        ) + self.hop(side, from, 2, -1, half) + self.hop(side, from, -1, 2, half) + self.hop(
            side,
            from,
            -1,
            -2,
            half,
        ) + self.hop(side, from, 1, 2, half) + self.hop(side, from, 1, -2, half)
    }

    /// The move of a king by one step `(df, dr)`: onto an empty square or an
    /// enemy. A king never merges.
    #[verifier::opaque]
    pub open spec fn king_step(
        self,
        side: Color,
        from: Square,
        df: int,
        dr: int,
        half: Option<PieceHalf>,
    ) -> Seq<Move> {
        match from.offset(df, dr) {
            None => Seq::empty(),
            Some(to) => one_if(!self.owned(to, side), from, to, half),
        }
    }

    /// Whether square `(f, r)` is empty.
    pub open spec fn vacant(self, f: int, r: int) -> bool {
        self.at(Square::at(f, r)) is None
    }

    /// Whether square `(f, r)` holds a rook, alone or in a composite, of
    /// either colour.
    pub open spec fn rook_at(self, f: int, r: int) -> bool {
        self.at(Square::at(f, r)) is Some && self.at(Square::at(f, r)).unwrap().body().has(
            UnitaryPiece::Rook,
        )
    }

    /// Whether `side` may castle on the king side, the king being at home:
    /// the right stands, the two squares between king and rook are empty,
    /// and a rook is in the corner. Whether the king passes an attacked
    /// square is not looked at.
    pub open spec fn short_castle(self, side: Color) -> bool {
        &&& self.rights[right_base(side)]
        &&& self.vacant(5, back_rank(side))
        &&& self.vacant(6, back_rank(side))
        &&& self.rook_at(7, back_rank(side))
    }

    /// Whether `side` may castle on the queen side, the king being at home:
    /// the right stands, the three squares between king and rook are empty,
    /// and a rook is in the corner.
    pub open spec fn long_castle(self, side: Color) -> bool {
        &&& self.rights[right_base(side) + 1]
        &&& self.vacant(1, back_rank(side))
        &&& self.vacant(2, back_rank(side))
        &&& self.vacant(3, back_rank(side))
        &&& self.rook_at(0, back_rank(side))
    }

    /// The castling moves of a king of `side` on `from`.
    pub open spec fn castles(self, side: Color, from: Square, half: Option<PieceHalf>) -> Seq<
        Move,
    > {
        if from == king_home(side) {
            one_if(self.short_castle(side), from, Square::at(6, back_rank(side)), half) + one_if(
                self.long_castle(side),
                from,
                Square::at(2, back_rank(side)),
                half,
            )
        } else {
            Seq::empty()
        }
    }

    /// The moves of a king: the eight steps, then the castling moves.
    #[verifier::opaque]
    pub open spec fn king_moves(self, side: Color, from: Square, half: Option<PieceHalf>) -> Seq<
        Move,
    > {
        self.king_step(side, from, -1, 1, half) + self.king_step(side, from, 0, 1, half)
            + self.king_step(side, from, 1, 1, half) + self.king_step(side, from, -1, 0, half)
            + self.king_step(side, from, 1, 0, half) + self.king_step(side, from, -1, -1, half)
            + self.king_step(side, from, 0, -1, half) + self.king_step(side, from, 1, -1, half)
            + self.castles(side, from, half)
    }

    /// The capture of a pawn towards file offset `df`: onto an enemy piece.
    #[verifier::opaque]
    pub open spec fn pawn_capture(
        self,
        side: Color,
        from: Square,
        df: int,
        half: Option<PieceHalf>,
    ) -> Seq<Move> {
        match from.offset(df, forward(side)) {
            None => Seq::empty(),
            Some(to) => one_if(self.at(to) is Some && !self.owned(to, side), from, to, half),
        }
    }

    /// The merge of a lone pawn towards file offset `df`: onto a friendly
    /// unitary piece.
    #[verifier::opaque]
    pub open spec fn pawn_merge(
        self,
        side: Color,
        from: Square,
        df: int,
        half: Option<PieceHalf>,
    ) -> Seq<Move> {
        match from.offset(df, forward(side)) {
            None => Seq::empty(),
            Some(to) => one_if(
                self.at(from) == crate::position::lone(side, UnitaryPiece::Pawn) && self.owned(
                    to,
                    side,
                ) && self.at(to).unwrap().body() is Unitary,
                from,
                to,
                half,
            ),
        }
    }

    /// The en-passant move of a pawn towards file offset `df`: the square
    /// beside the pawn is the en-passant target and the square diagonally
    /// ahead is empty.
    #[verifier::opaque]
    pub open spec fn pawn_en_passant(
        self,
        side: Color,
        from: Square,
        df: int,
        half: Option<PieceHalf>,
    ) -> Seq<Move> {
        match from.offset(df, forward(side)) {
            None => Seq::empty(),
            Some(to) => one_if(
                self.en_passant is Some && from.offset(df, 0) == self.en_passant && self.at(to)
                    is None,
                from,
                to,
                half,
            ),
        }
    }

    /// The advances of a pawn: one square if it is empty, and two from the
    /// pawn's starting rank if both are empty.
    #[verifier::opaque]
    pub open spec fn pawn_advance(self, side: Color, from: Square, half: Option<PieceHalf>) -> Seq<
        Move,
    > {
        match from.offset(0, forward(side)) {
            None => Seq::empty(),
            Some(ahead) => one_if(self.at(ahead) is None, from, ahead, half) + (match ahead.offset(
                0,
                forward(side),
            ) {
                None => Seq::empty(),
                Some(far) => one_if(
                    self.at(ahead) is None && self.at(far) is None && from.rank.idx() == pawn_rank(
                        side,
                    ),
                    from,
                    far,
                    half,
                ),
            }),
        }
    }

    /// The moves of a pawn: advances, captures to the left and right, merges
    /// to the right and left, en passant to the left and right.
    #[verifier::opaque]
    pub open spec fn pawn_moves(self, side: Color, from: Square, half: Option<PieceHalf>) -> Seq<
        Move,
    > {
        self.pawn_advance(side, from, half) + self.pawn_capture(side, from, -1, half)
            + self.pawn_capture(side, from, 1, half) + self.pawn_merge(side, from, 1, half)
            + self.pawn_merge(side, from, -1, half) + self.pawn_en_passant(side, from, -1, half)
            + self.pawn_en_passant(side, from, 1, half)
    }

    /// The moves that the unitary piece `piece` has from `from`.
    pub open spec fn unit_moves(
        self,
        side: Color,
        from: Square,
        piece: UnitaryPiece,
        half: Option<PieceHalf>,
    ) -> Seq<Move> {
        match piece {
            UnitaryPiece::Pawn => self.pawn_moves(side, from, half),
            UnitaryPiece::King => self.king_moves(side, from, half),
            UnitaryPiece::Queen => self.rook_moves(side, from, half) + self.bishop_moves(
                side,
                from,
                half,
            ),
            UnitaryPiece::Rook => self.rook_moves(side, from, half),
            UnitaryPiece::Bishop => self.bishop_moves(side, from, half),
            UnitaryPiece::Knight => self.knight_moves(side, from, half),
        }
    }

    /// The pseudo-legal moves from `from` for `side`. Nothing if the square
    /// is empty or holds the other colour, or if a half is named on a unitary
    /// piece. A composite with a half named moves as that component; with
    /// none it has the moves of its first component followed by those of its
    /// second. Every move carries `half` as it was given.
    pub open spec fn pseudo_moves(self, side: Color, from: Square, half: Option<PieceHalf>) -> Seq<
        Move,
    > {
        match self.at(from) {
            None => Seq::empty(),
            Some(p) => if p.side() != side {
                Seq::empty()
            } else {
                match p.body() {
                    Piece::Unitary(u) => if half is Some {
                        Seq::empty()
                    } else {
                        self.unit_moves(side, from, u, half)
                    },
                    Piece::Combination(c) => match half {
                        Some(h) => self.unit_moves(side, from, c.half(h), half),
                        None => self.unit_moves(side, from, c.left(), half) + self.unit_moves(
                            side,
                            from,
                            c.right(),
                            half,
                        ),
                    },
                }
            },
        }
    }

    /// The pseudo-legal moves of all pieces of `side` on the cells below `n`,
    /// square by square in the order of their numbers.
    pub open spec fn pseudo_below(self, side: Color, n: int) -> Seq<Move>
        decreases n,
    {
        if n <= 0 {
            Seq::empty()
        } else {
            self.pseudo_below(side, n - 1) + self.pseudo_moves(side, Square::of(n - 1), None)
        }
    }
}

/// Whether `(df, dr)` is one of the eight directions of a slide.
pub open spec fn is_direction(df: int, dr: int) -> bool {
    -1 <= df <= 1 && -1 <= dr <= 1 && !(df == 0 && dr == 0)
}

/// How many steps in direction `(df, dr)` can be taken from `cur` at most.
pub open spec fn room(cur: Square, df: int, dr: int) -> int {
    if df > 0 {
        7 - cur.file.idx()
    } else if df < 0 {
        cur.file.idx()
    } else if dr > 0 {
        7 - cur.rank.idx()
    } else {
        cur.rank.idx()
    }
}

/// The most moves that one piece can have: two components, each with eight
/// slides of seven squares.
pub const MOST_MOVES_OF_PIECE: usize = 112;

/// A slide yields at most as many moves as there are squares left in its
/// direction, which is at most seven.
pub proof fn lemma_ray_bound(
    pos: Position,
    side: Color,
    from: Square,
    cur: Square,
    df: int,
    dr: int,
    half: Option<PieceHalf>,
)
    ensures
        pos.ray(side, from, cur, df, dr, half).len() <= 7,
        is_direction(df, dr) ==> pos.ray(side, from, cur, df, dr, half).len() <= room(cur, df, dr),
    decreases room(cur, df, dr),
{
    if is_direction(df, dr) {
        match cur.offset(df, dr) {
            None => {},
            Some(to) => {
                lemma_ray_bound(pos, side, from, to, df, dr, half);
            },
        }
    }
}

/// A rook has at most 28 moves, and so has a bishop.
pub proof fn lemma_slider_bound(pos: Position, side: Color, from: Square, half: Option<PieceHalf>)
    ensures
        pos.rook_moves(side, from, half).len() <= 28,
        pos.bishop_moves(side, from, half).len() <= 28,
{
    reveal(Position::rook_moves);
    reveal(Position::bishop_moves);
    lemma_ray_bound(pos, side, from, from, -1, 0, half);
    lemma_ray_bound(pos, side, from, from, 1, 0, half);
    lemma_ray_bound(pos, side, from, from, 0, 1, half);
    lemma_ray_bound(pos, side, from, from, 0, -1, half);
    lemma_ray_bound(pos, side, from, from, 1, 1, half);
    lemma_ray_bound(pos, side, from, from, -1, 1, half);
    lemma_ray_bound(pos, side, from, from, 1, -1, half);
    lemma_ray_bound(pos, side, from, from, -1, -1, half);
}

/// A single jump or step yields at most one move.
pub proof fn lemma_single_bound(
    pos: Position,
    side: Color,
    from: Square,
    df: int,
    dr: int,
    half: Option<PieceHalf>,
)
    ensures
        pos.hop(side, from, df, dr, half).len() <= 1,
        pos.king_step(side, from, df, dr, half).len() <= 1,
        pos.pawn_capture(side, from, df, half).len() <= 1,
        pos.pawn_merge(side, from, df, half).len() <= 1,
        pos.pawn_en_passant(side, from, df, half).len() <= 1,
        pos.pawn_advance(side, from, half).len() <= 2,
{
    reveal(Position::hop);
    reveal(Position::king_step);
    reveal(Position::pawn_advance);
    reveal(Position::pawn_capture);
    reveal(Position::pawn_merge);
    reveal(Position::pawn_en_passant);
}

/// A knight has at most 8 moves.
pub proof fn lemma_knight_bound(pos: Position, side: Color, from: Square, half: Option<PieceHalf>)
    ensures
        pos.knight_moves(side, from, half).len() <= 8,
{
    reveal(Position::knight_moves);
    lemma_single_bound(pos, side, from, -2, 1, half);
    lemma_single_bound(pos, side, from, 2, 1, half);
    lemma_single_bound(pos, side, from, -2, -1, half);
    lemma_single_bound(pos, side, from, 2, -1, half);
    lemma_single_bound(pos, side, from, -1, 2, half);
    lemma_single_bound(pos, side, from, -1, -2, half);
    lemma_single_bound(pos, side, from, 1, 2, half);
    lemma_single_bound(pos, side, from, 1, -2, half);
}

/// A king has at most 10 moves.
pub proof fn lemma_king_bound(pos: Position, side: Color, from: Square, half: Option<PieceHalf>)
    ensures
        pos.king_moves(side, from, half).len() <= 10,
{
    reveal(Position::king_moves);
    lemma_single_bound(pos, side, from, -1, 1, half);
    lemma_single_bound(pos, side, from, 0, 1, half);
    lemma_single_bound(pos, side, from, 1, 1, half);
    lemma_single_bound(pos, side, from, -1, 0, half);
    lemma_single_bound(pos, side, from, 1, 0, half);
    lemma_single_bound(pos, side, from, -1, -1, half);
    lemma_single_bound(pos, side, from, 0, -1, half);
    lemma_single_bound(pos, side, from, 1, -1, half);
}

/// A pawn has at most 8 moves.
pub proof fn lemma_pawn_bound(pos: Position, side: Color, from: Square, half: Option<PieceHalf>)
    ensures
        pos.pawn_moves(side, from, half).len() <= 8,
{
    reveal(Position::pawn_moves);
    lemma_single_bound(pos, side, from, -1, 0, half);
    lemma_single_bound(pos, side, from, 1, 0, half);
}

/// No unitary piece has more than 56 moves.
pub proof fn lemma_unit_bound(
    pos: Position,
    side: Color,
    from: Square,
    piece: UnitaryPiece,
    half: Option<PieceHalf>,
)
    ensures
        pos.unit_moves(side, from, piece, half).len() <= 56,
{
    lemma_slider_bound(pos, side, from, half);
    lemma_knight_bound(pos, side, from, half);
    lemma_king_bound(pos, side, from, half);
    lemma_pawn_bound(pos, side, from, half);
}

/// No square has more than `MOST_MOVES_OF_PIECE` pseudo-legal moves, so the
/// moves of one square always fit into an empty list.
pub proof fn lemma_pseudo_moves_bound(
    pos: Position,
    side: Color,
    from: Square,
    half: Option<PieceHalf>,
)
    ensures
        pos.pseudo_moves(side, from, half).len() <= MOST_MOVES_OF_PIECE,
{
    match pos.at(from) {
        None => {},
        Some(p) => {
            match p.body() {
                Piece::Unitary(u) => {
                    lemma_unit_bound(pos, side, from, u, half);
                },
                Piece::Combination(c) => {
                    lemma_unit_bound(pos, side, from, c.left(), half);
                    lemma_unit_bound(pos, side, from, c.right(), half);
                },
            }
        },
    }
}

} // verus!
