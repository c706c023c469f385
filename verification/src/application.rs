//! What playing a move does to a position, as a mathematical statement.

use vstd::prelude::*;
use crate::generation::{back_rank, king_home, pawn_rank, right_base};
use crate::pieces::{can_combine, Color, ColorPiece, CombinationPiece, Piece, UnitaryPiece};
use crate::pieces::movement::Move;
use crate::position::{lone, Position};
use crate::square::{gap, Square};

verus! {

impl Position {
    /// The position after `side` has castled: on the king side if `short`,
    /// else on the queen side. King and rook change places as the rules say
    /// and `side` loses both castling rights.
    pub open spec fn castled(self, side: Color, short: bool) -> Position {
        let r = back_rank(side);
        let king_to = if short {
            6
        } else {
            2
        };
        let rook_from = if short {
            7
        } else {
            0
        };
        let rook_to = if short {
            5
        } else {
            3
        };
        self.put(Square::at(king_to, r), self.at(Square::at(4, r))).put(Square::at(4, r), None).put(
            Square::at(rook_to, r),
            self.at(Square::at(rook_from, r)),
        ).put(Square::at(rook_from, r), None).deny(right_base(side)).deny(right_base(side) + 1)
    }

    /// Whether the king `src` going from `from` to `to` castles: on the king
    /// side if `short`, else on the queen side.
    pub open spec fn castles_with(self, from: Square, to: Square, src: ColorPiece, short: bool) -> bool {
        &&& src.body() == Piece::Unitary(UnitaryPiece::King)
        &&& from == king_home(src.side())
        &&& to == Square::at(
            if short {
                6
            } else {
                2
            },
            back_rank(src.side()),
        )
        &&& if short {
            self.short_castle(src.side())
        } else {
            self.long_castle(src.side())
        }
    }

    /// The position with the castling rights withdrawn that the piece `src`
    /// forfeits by leaving `from`: both for a king, the right of that corner
    /// for a piece that holds a rook and leaves a corner of its back rank.
    pub open spec fn forfeit(self, from: Square, src: ColorPiece) -> Position {
        let side = src.side();
        let base = right_base(side);
        let a = if src.body() == Piece::Unitary(UnitaryPiece::King) {
            self.deny(base).deny(base + 1)
        } else {
            self
        };
        let b = if src.body().has(UnitaryPiece::Rook) && from == Square::at(0, back_rank(side)) {
            a.deny(base + 1)
        } else {
            a
        };
        if src.body().has(UnitaryPiece::Rook) && from == Square::at(7, back_rank(side)) {
            b.deny(base)
        } else {
            b
        }
    }

    /// Whether `src` going to `to` is promoted: it holds a pawn and reaches
    /// the farthest rank for its colour.
    pub open spec fn promotes(to: Square, src: ColorPiece) -> bool {
        src.body().has(UnitaryPiece::Pawn) && to.rank.idx() == back_rank(src.side().other())
    }

    /// Whether a move from `from` to `to` takes en passant: `from` is beside
    /// the en-passant target on its rank, and `to` is on the target's file.
    pub open spec fn takes_en_passant(self, from: Square, to: Square) -> bool {
        match self.en_passant {
            None => false,
            Some(target) => gap(from.file.idx(), target.file.idx()) == 1 && from.rank
                == target.rank && to.file == target.file,
        }
    }

    /// The move of one unit: `src`, which stands on `from`, goes to `to`,
    /// where `dst` stood before the move. In this order: a castling king
    /// takes its rook along; a pawn on the farthest rank becomes a queen; a
    /// king or a rook from its corner forfeits castling rights; a move
    /// that takes en passant removes the piece on the target; a piece lands
    /// on an empty square, replaces an enemy, or merges with a friendly
    /// unitary piece. `None` where the move cannot be made.
    pub open spec fn unit_move(
        self,
        from: Square,
        to: Square,
        src: ColorPiece,
        dst: Option<ColorPiece>,
    ) -> Option<Position> {
        let side = src.side();
        if self.castles_with(from, to, src, true) {
            Some(self.castled(side, true))
        } else if self.castles_with(from, to, src, false) {
            Some(self.castled(side, false))
        } else if Self::promotes(to, src) {
            Some(self.put(from, None).put(to, lone(side, UnitaryPiece::Queen)))
        } else {
            let b = self.forfeit(from, src);
            if b.takes_en_passant(from, to) {
                Some(
                    Position {
                        en_passant: None,
                        ..b.put(from, None).put(b.en_passant.unwrap(), None).put(to, Some(src))
                    },
                )
            } else {
                match dst {
                    None => Some(b.put(to, Some(src)).put(from, None)),
                    Some(d) => if d.side() != side {
                        Some(b.put(from, None).put(to, Some(src)))
                    } else {
                        match (src.body(), d.body()) {
                            (Piece::Unitary(p1), Piece::Unitary(p2)) => if can_combine(p1, p2) {
                                Some(
                                    b.put(from, None).put(
                                        to,
                                        Some(
                                            ColorPiece::of(
                                                side,
                                                Piece::Combination(CombinationPiece::fuse(p1, p2)),
                                            ),
                                        ),
                                    ),
                                )
                            } else {
                                None
                            },
                            _ => None,
                        }
                    },
                }
            }
        }
    }

    /// Whether the move `mv` of the piece `src` is a double push: `src` holds
    /// a pawn, leaves the starting rank of its colour's pawns and goes two
    /// ranks along its file.
    pub open spec fn double_push(mv: Move, src: ColorPiece) -> bool {
        &&& src.body().has(UnitaryPiece::Pawn)
        &&& mv.from.rank.idx() == pawn_rank(src.side())
        &&& gap(mv.to.rank.idx(), mv.from.rank.idx()) == 2
        &&& mv.to.file == mv.from.file
    }

    /// The position with `to` as en-passant target if `double` holds.
    pub open spec fn armed(self, double: bool, to: Square) -> Position {
        if double {
            Position { en_passant: Some(to), ..self }
        } else {
            self
        }
    }

    /// The move of one component of the composite `c` on `mv.from`: the
    /// component that `mv.which_half` names must have the move on its own;
    /// it moves as a unit, and the other component is left on `mv.from`.
    pub open spec fn split_move(
        self,
        mv: Move,
        side: Color,
        c: CombinationPiece,
        dst: Option<ColorPiece>,
    ) -> Option<Position> {
        let h = mv.which_half.unwrap();
        let going = ColorPiece::of(side, Piece::Unitary(c.half(h)));
        let staying = ColorPiece::of(side, Piece::Unitary(c.half(h.other())));
        let reduced = self.put(mv.from, Some(going));
        if !reduced.pseudo_moves(reduced.turn, mv.from, None).contains(
            Move { from: mv.from, to: mv.to, which_half: None },
        ) {
            None
        } else {
            match reduced.unit_move(mv.from, mv.to, going, dst) {
                None => None,
                Some(p) => Some(p.put(mv.from, Some(staying))),
            }
        }
    }

    /// The pieces after the move `mv`, before the turn passes. `None` where
    /// the move is refused: the source is empty, or the move is not among
    /// the pseudo-legal moves of the side to move from its source with its
    /// half, or the unit cannot make it.
    pub open spec fn moved(self, mv: Move) -> Option<Position> {
        match self.at(mv.from) {
            None => None,
            Some(src) => if !self.pseudo_moves(self.turn, mv.from, mv.which_half).contains(mv) {
                None
            } else {
                let start = self.armed(Self::double_push(mv, src), mv.to);
                match mv.which_half {
                    None => start.unit_move(mv.from, mv.to, src, self.at(mv.to)),
                    Some(_) => match src.body() {
                        Piece::Unitary(_) => None,
                        Piece::Combination(c) => start.split_move(mv, src.side(), c, self.at(mv.to)),
                    },
                }
            },
        }
    }

    /// The position after the move `mv` but for the record of the previous
    /// move, or `None` where the move is refused. The en-passant target is
    /// kept only if this very move is a double push, and the turn passes to
    /// the other side.
    pub open spec fn advanced(self, mv: Move) -> Option<Position> {
        match self.moved(mv) {
            None => None,
            Some(p) => Some(
                Position {
                    en_passant: if Self::double_push(mv, self.at(mv.from).unwrap()) {
                        p.en_passant
                    } else {
                        None
                    },
                    turn: self.turn.other(),
                    ..p
                },
            ),
        }
    }

    /// The position after the move `mv`, with `mv` recorded as the previous
    /// move, or `None` where the move is refused.
    pub open spec fn played(self, mv: Move) -> Option<Position> {
        match self.advanced(mv) {
            None => None,
            Some(p) => Some(Position { previous: Some(mv), ..p }),
        }
    }
}

} // verus!
