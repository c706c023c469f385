//! Check and legality, as mathematical statements: when a king is attacked,
//! which pseudo-legal moves are legal, and what follows for `play`.

use vstd::prelude::*;
use crate::pieces::Color;
use crate::pieces::movement::Move;
use crate::position::Position;
use crate::square::Square;

verus! {

/// Whether one of `moves` ends on `target`.
pub open spec fn reaches(moves: Seq<Move>, target: Square) -> bool {
    exists|k: int| 0 <= k < moves.len() && (#[trigger] moves[k]).to == target
}

impl Position {
    /// Whether cell `i` holds a piece that is not of `side` and has, for the
    /// other side, a pseudo-legal move onto `target`.
    pub open spec fn attacks(self, side: Color, i: int, target: Square) -> bool {
        &&& self.cells[i] is Some
        &&& self.cells[i].unwrap().side() != side
        &&& reaches(self.pseudo_moves(side.other(), Square::of(i), None), target)
    }

    /// Whether a piece on a cell below `n` attacks `target`, which belongs to
    /// `side`.
    pub open spec fn attacked_below(self, side: Color, n: int, target: Square) -> bool {
        exists|i: int| 0 <= i < n && #[trigger] self.attacks(side, i, target)
    }

    /// Whether the king of `side` is in check: a piece of the other side has
    /// a pseudo-legal move onto the king's square.
    pub open spec fn in_check(self, side: Color) -> bool {
        self.attacked_below(side, 64, Square::of(self.king_cell(side)))
    }

    /// Whether `mv` is safe for `side`: it can be played, and the king of
    /// `side` is not in check after it.
    pub open spec fn safe(self, mv: Move, side: Color) -> bool {
        match self.played(mv) {
            Some(p) => !p.in_check(side),
            None => false,
        }
    }

    /// Whether `side` still has a king after `mv`, if `mv` can be played.
    pub open spec fn keeps_king(self, mv: Move, side: Color) -> bool {
        match self.played(mv) {
            Some(p) => p.has_king(side),
            None => true,
        }
    }

    /// Whether `side` has a king after each of `moves` that can be played.
    pub open spec fn all_keep_king(self, moves: Seq<Move>, side: Color) -> bool {
        forall|k: int| 0 <= k < moves.len() ==> self.keeps_king(#[trigger] moves[k], side)
    }

    /// Whether `side` has a king after each of its pseudo-legal moves that
    /// can be played. Only then can it be asked of each of them whether it
    /// leaves that king in check.
    pub open spec fn kings_kept(self, side: Color) -> bool {
        self.all_keep_king(self.pseudo_below(side, 64), side)
    }

    /// The test that the legality filter applies to each move.
    pub open spec fn safe_pred(self, side: Color) -> spec_fn(Move) -> bool {
        |mv: Move| self.safe(mv, side)
    }

    /// The legal moves of `side`: its pseudo-legal moves, square by square,
    /// that are safe.
    pub open spec fn legal_moves(self, side: Color) -> Seq<Move> {
        self.pseudo_below(side, 64).filter(self.safe_pred(side))
    }

    /// Whether `side` has no legal move and its king is in check.
    pub open spec fn mated(self, side: Color) -> bool {
        self.legal_moves(side).len() == 0 && self.in_check(side)
    }

    /// The winner: the side whose opponent is mated.
    pub open spec fn winner(self) -> Option<Color> {
        if self.mated(Color::White) {
            Some(Color::Black)
        } else if self.mated(Color::Black) {
            Some(Color::White)
        } else {
            None
        }
    }

    /// Whether the side to move is stalemated: it has no legal move and is
    /// not in check.
    pub open spec fn stalemate(self) -> bool {
        self.legal_moves(self.turn).len() == 0 && !self.in_check(self.turn)
    }

    /// Whether the game is drawn: by stalemate, or because both sides are
    /// down to their kings.
    pub open spec fn drawn(self) -> bool {
        self.stalemate() || (self.bare(Color::White) && self.bare(Color::Black))
    }
}

/// The pseudo-legal moves of the squares below `j` come first among those of
/// the squares below `n`.
pub proof fn lemma_pseudo_prefix(pos: Position, side: Color, j: int, n: int)
    requires
        0 <= j <= n,
    ensures
        pos.pseudo_below(side, j).len() <= pos.pseudo_below(side, n).len(),
        pos.pseudo_below(side, n).take(pos.pseudo_below(side, j).len() as int)
            == pos.pseudo_below(side, j),
    decreases n - j,
{
    if j < n {
        lemma_pseudo_prefix(pos, side, j, n - 1);
        let a = pos.pseudo_below(side, j);
        let b = pos.pseudo_below(side, n - 1);
        let c = pos.pseudo_moves(side, Square::of(n - 1), None);
        assert((b + c).take(a.len() as int) =~= b.take(a.len() as int));
    } else {
        assert(pos.pseudo_below(side, n).take(pos.pseudo_below(side, n).len() as int)
            =~= pos.pseudo_below(side, n));
    }
}

/// The pseudo-legal moves of square `i` are among those of the whole board,
/// so what holds of each of these holds of each of those.
pub proof fn lemma_kings_kept_on_square(pos: Position, side: Color, i: int)
    requires
        0 <= i < 64,
        pos.kings_kept(side),
    ensures
        pos.all_keep_king(pos.pseudo_moves(side, Square::of(i), None), side),
        pos.all_keep_king(pos.pseudo_below(side, i + 1), side),
{
    let all = pos.pseudo_below(side, 64);
    let upto = pos.pseudo_below(side, i + 1);
    let before = pos.pseudo_below(side, i);
    let here = pos.pseudo_moves(side, Square::of(i), None);
    lemma_pseudo_prefix(pos, side, i + 1, 64);
    assert(upto == before + here);
    assert forall|k: int| 0 <= k < upto.len() implies pos.keeps_king(#[trigger] upto[k], side) by {
        assert(all.take(upto.len() as int)[k] == all[k]);
    }
    assert forall|k: int| 0 <= k < here.len() implies pos.keeps_king(#[trigger] here[k], side) by {
        assert(upto[before.len() + k] == here[k]);
    }
}

/// Every legal move can be played: `play` accepts each move of
/// `legal_moves`.
pub proof fn lemma_legal_moves_playable(pos: Position, side: Color, k: int)
    requires
        0 <= k < pos.legal_moves(side).len(),
    ensures
        pos.played(pos.legal_moves(side)[k]) is Some,
        pos.safe(pos.legal_moves(side)[k], side),
        pos.pseudo_below(side, 64).contains(pos.legal_moves(side)[k]),
{
    let all = pos.pseudo_below(side, 64);
    all.lemma_filter_pred(pos.safe_pred(side), k);
    let legal = all.filter(pos.safe_pred(side));
    assert(legal.contains(legal[k]));
    all.lemma_filter_contains_rev(pos.safe_pred(side), legal[k]);
}

/// A move that is not among the pseudo-legal moves of the side to move from
/// its source, with its half, is refused.
pub proof fn lemma_play_rejects_outsiders(pos: Position, mv: Move)
    requires
        !pos.pseudo_moves(pos.turn, mv.from, mv.which_half).contains(mv),
    ensures
        pos.played(mv) is None,
{
}

/// After a move, the en-passant target is the destination of that move if it
/// was a double push, and there is none otherwise: the window that a double
/// push opens is closed again by whatever move follows.
#[verifier::rlimit(40)]
pub proof fn lemma_en_passant_window(pos: Position, mv: Move)
    requires
        pos.played(mv) is Some,
    ensures
        pos.played(mv).unwrap().en_passant == (if Position::double_push(
            mv,
            pos.at(mv.from).unwrap(),
        ) {
            Some(mv.to)
        } else {
            None
        }),
        pos.played(mv).unwrap().turn == pos.turn.other(),
        pos.played(mv).unwrap().previous == Some(mv),
{
    let src = pos.at(mv.from).unwrap();
    if Position::double_push(mv, src) {
        let start = pos.armed(true, mv.to);
        assert(!start.takes_en_passant(mv.from, mv.to));
        match mv.which_half {
            None => {
                assert(!start.forfeit(mv.from, src).takes_en_passant(mv.from, mv.to));
            },
            Some(h) => {
                match src.body() {
                    crate::pieces::Piece::Unitary(_) => {},
                    crate::pieces::Piece::Combination(c) => {
                        let going = crate::pieces::ColorPiece::of(
                            src.side(),
                            crate::pieces::Piece::Unitary(c.half(h)),
                        );
                        let reduced = start.put(mv.from, Some(going));
                        assert(!reduced.takes_en_passant(mv.from, mv.to));
                        assert(!reduced.forfeit(mv.from, going).takes_en_passant(mv.from, mv.to));
                    },
                }
            },
        }
    }
}

/// Where both sides are down to their kings the game is drawn, whoever is to
/// move.
pub proof fn lemma_bare_kings_draw(pos: Position)
    requires
        pos.bare(Color::White),
        pos.bare(Color::Black),
    ensures
        pos.drawn(),
        (Position { turn: pos.turn.other(), ..pos }).drawn(),
{
    let other = Position { turn: pos.turn.other(), ..pos };
    assert(other.bare(Color::White));
    assert(other.bare(Color::Black));
}

} // verus!
