//! What every pseudo-legal move has in common, and what follows from it:
//! the side that is not to move cannot move, and a king that none of its own
//! pawns can step onto outlasts every move of its side.

use vstd::prelude::*;
use crate::generation::{back_rank, forward, is_direction, one_if, room};
use crate::pieces::{Color, ColorPiece, Piece, PieceHalf, UnitaryPiece};
use crate::pieces::movement::Move;
use crate::position::{lone, Position};
use crate::square::{lemma_offset_coords, lemma_square_of_idx, Square};

verus! {

impl Position {
    /// Whether a lone pawn of `side` on `from` steps diagonally ahead onto
    /// the king of its own side on `to`. The generator offers this step as a
    /// merge; no other move ends on a king of the mover's side.
    pub open spec fn pawn_onto_king(self, side: Color, from: Square, to: Square) -> bool {
        &&& self.at(from) == lone(side, UnitaryPiece::Pawn)
        &&& self.at(to) == lone(side, UnitaryPiece::King)
        &&& (from.offset(-1, forward(side)) == Some(to) || from.offset(1, forward(side)) == Some(
            to,
        ))
    }

    /// What holds of every pseudo-legal move `m` from `from` with `half`: it
    /// starts there and carries that half, it goes elsewhere, and its
    /// target is one that the piece may land on, or the move is a pawn's
    /// step onto its own king.
    pub open spec fn sound(self, side: Color, from: Square, half: Option<PieceHalf>, m: Move) -> bool {
        &&& m.from == from
        &&& m.which_half == half
        &&& m.to != from
        &&& (self.may_land(side, from, m.to) || self.pawn_onto_king(side, from, m.to))
    }

    /// Whether `sound` holds of each of `moves`.
    pub open spec fn all_sound(
        self,
        moves: Seq<Move>,
        side: Color,
        from: Square,
        half: Option<PieceHalf>,
    ) -> bool {
        forall|k: int| 0 <= k < moves.len() ==> self.sound(side, from, half, #[trigger] moves[k])
    }

    /// Whether each of `moves` starts on a square that holds a piece of
    /// `side`.
    pub open spec fn all_start_owned(self, moves: Seq<Move>, side: Color) -> bool {
        forall|k: int| 0 <= k < moves.len() ==> self.owned((#[trigger] moves[k]).from, side)
    }

    /// Whether no lone pawn of `side` stands diagonally behind cell `k`, on
    /// the side given by `df`, from where it could step onto that cell.
    pub open spec fn no_pawn_behind(self, k: int, side: Color, df: int) -> bool {
        match Square::of(k).offset(df, -forward(side)) {
            Some(b) => self.at(b) != lone(side, UnitaryPiece::Pawn),
            None => true,
        }
    }

    /// Whether cell `k` holds a king of `side` that its own side cannot
    /// remove: the cell is not the en-passant target, and no lone pawn of
    /// `side` stands diagonally behind it.
    pub open spec fn guarded(self, k: int, side: Color) -> bool {
        &&& 0 <= k < 64
        &&& self.king_on(k, side)
        &&& self.en_passant != Some(Square::of(k))
        &&& self.no_pawn_behind(k, side, -1)
        &&& self.no_pawn_behind(k, side, 1)
    }
}

/// Two lists of sound moves, one after the other, are a list of sound moves.
pub proof fn lemma_sound_add(
    pos: Position,
    a: Seq<Move>,
    b: Seq<Move>,
    side: Color,
    from: Square,
    half: Option<PieceHalf>,
)
    requires
        pos.all_sound(a, side, from, half),
        pos.all_sound(b, side, from, half),
    ensures
        pos.all_sound(a + b, side, from, half),
{
    assert forall|k: int| 0 <= k < (a + b).len() implies pos.sound(
        side,
        from,
        half,
        #[trigger] (a + b)[k],
    ) by {
        if k < a.len() {
            assert((a + b)[k] == a[k]);
        } else {
            assert((a + b)[k] == b[k - a.len()]);
        }
    }
}

/// The moves of a slide are sound.
pub proof fn lemma_ray_sound(
    pos: Position,
    side: Color,
    from: Square,
    cur: Square,
    df: int,
    dr: int,
    half: Option<PieceHalf>,
)
    requires
        room(cur, df, dr) <= room(from, df, dr),
    ensures
        pos.all_sound(pos.ray(side, from, cur, df, dr, half), side, from, half),
    decreases room(cur, df, dr),
{
    if is_direction(df, dr) {
        lemma_offset_coords(cur, df, dr);
        match cur.offset(df, dr) {
            None => {},
            Some(to) => {
                assert(room(to, df, dr) < room(cur, df, dr));
                assert(to != from);
                lemma_ray_sound(pos, side, from, to, df, dr, half);
                let hit = one_if(pos.may_land(side, from, to), from, to, half);
                let beyond = if pos.at(to) is None {
                    pos.ray(side, from, to, df, dr, half)
                } else {
                    Seq::<Move>::empty()
                };
                assert(pos.all_sound(hit, side, from, half));
                lemma_sound_add(pos, hit, beyond, side, from, half);
            },
        }
    }
}

/// The moves of a rook and of a bishop are sound.
proof fn lemma_sliders_sound(pos: Position, side: Color, from: Square, half: Option<PieceHalf>)
    ensures
        pos.all_sound(pos.rook_moves(side, from, half), side, from, half),
        pos.all_sound(pos.bishop_moves(side, from, half), side, from, half),
{
    reveal(Position::rook_moves);
    reveal(Position::bishop_moves);
    let a = pos.ray(side, from, from, -1, 0, half);
    let b = pos.ray(side, from, from, 1, 0, half);
    let c = pos.ray(side, from, from, 0, 1, half);
    let d = pos.ray(side, from, from, 0, -1, half);
    lemma_ray_sound(pos, side, from, from, -1, 0, half);
    lemma_ray_sound(pos, side, from, from, 1, 0, half);
    lemma_ray_sound(pos, side, from, from, 0, 1, half);
    lemma_ray_sound(pos, side, from, from, 0, -1, half);
    lemma_sound_add(pos, a, b, side, from, half);
    lemma_sound_add(pos, a + b, c, side, from, half);
    lemma_sound_add(pos, a + b + c, d, side, from, half);
    let e = pos.ray(side, from, from, 1, 1, half);
    let f = pos.ray(side, from, from, -1, 1, half);
    let g = pos.ray(side, from, from, 1, -1, half);
    let h = pos.ray(side, from, from, -1, -1, half);
    lemma_ray_sound(pos, side, from, from, 1, 1, half);
    lemma_ray_sound(pos, side, from, from, -1, 1, half);
    lemma_ray_sound(pos, side, from, from, 1, -1, half);
    lemma_ray_sound(pos, side, from, from, -1, -1, half);
    lemma_sound_add(pos, e, f, side, from, half);
    lemma_sound_add(pos, e + f, g, side, from, half);
    lemma_sound_add(pos, e + f + g, h, side, from, half);
}

/// A single jump and a single step of a king are sound.
proof fn lemma_jump_sound(
    pos: Position,
    side: Color,
    from: Square,
    df: int,
    dr: int,
    half: Option<PieceHalf>,
)
    requires
        df != 0 || dr != 0,
    ensures
        pos.all_sound(pos.hop(side, from, df, dr, half), side, from, half),
        pos.all_sound(pos.king_step(side, from, df, dr, half), side, from, half),
{
    reveal(Position::hop);
    reveal(Position::king_step);
    lemma_offset_coords(from, df, dr);
}

/// The castling moves are sound.
proof fn lemma_castles_sound(pos: Position, side: Color, from: Square, half: Option<PieceHalf>)
    ensures
        pos.all_sound(pos.castles(side, from, half), side, from, half),
{
}

/// The single moves of a pawn are sound.
proof fn lemma_pawn_parts_sound(
    pos: Position,
    side: Color,
    from: Square,
    df: int,
    half: Option<PieceHalf>,
)
    requires
        df == 1 || df == -1,
    ensures
        pos.all_sound(pos.pawn_capture(side, from, df, half), side, from, half),
        pos.all_sound(pos.pawn_merge(side, from, df, half), side, from, half),
        pos.all_sound(pos.pawn_en_passant(side, from, df, half), side, from, half),
        pos.all_sound(pos.pawn_advance(side, from, half), side, from, half),
{
    reveal(Position::pawn_advance);
    reveal(Position::pawn_capture);
    reveal(Position::pawn_merge);
    reveal(Position::pawn_en_passant);
    lemma_offset_coords(from, df, forward(side));
    lemma_offset_coords(from, 0, forward(side));
    match from.offset(0, forward(side)) {
        Some(ahead) => {
            lemma_offset_coords(ahead, 0, forward(side));
        },
        None => {},
    }
    match from.offset(df, forward(side)) {
        Some(to) => {
            if pos.at(from) == lone(side, UnitaryPiece::Pawn) && pos.owned(to, side) && pos.at(
                to,
            ).unwrap().body() is Unitary {
                let d = pos.at(to).unwrap();
                if d.body() == Piece::Unitary(UnitaryPiece::King) {
                    assert(d == ColorPiece::of(side, Piece::Unitary(UnitaryPiece::King)));
                    assert(pos.pawn_onto_king(side, from, to));
                } else {
                    assert(pos.may_land(side, from, to));
                }
            }
        },
        None => {},
    }
}

/// The moves of a knight are sound.
proof fn lemma_knight_sound(pos: Position, side: Color, from: Square, half: Option<PieceHalf>)
    ensures
        pos.all_sound(pos.knight_moves(side, from, half), side, from, half),
{
    reveal(Position::knight_moves);
    let s1 = pos.hop(side, from, -2, 1, half);
    let h2 = pos.hop(side, from, 2, 1, half);
    let h3 = pos.hop(side, from, -2, -1, half);
    let h4 = pos.hop(side, from, 2, -1, half);
    let h5 = pos.hop(side, from, -1, 2, half);
    let h6 = pos.hop(side, from, -1, -2, half);
    let h7 = pos.hop(side, from, 1, 2, half);
    let h8 = pos.hop(side, from, 1, -2, half);
    lemma_jump_sound(pos, side, from, -2, 1, half);
    lemma_jump_sound(pos, side, from, 2, 1, half);
    lemma_jump_sound(pos, side, from, -2, -1, half);
    lemma_jump_sound(pos, side, from, 2, -1, half);
    lemma_jump_sound(pos, side, from, -1, 2, half);
    lemma_jump_sound(pos, side, from, -1, -2, half);
    lemma_jump_sound(pos, side, from, 1, 2, half);
    lemma_jump_sound(pos, side, from, 1, -2, half);
    let s2 = s1 + h2;
    lemma_sound_add(pos, s1, h2, side, from, half);
    let s3 = s2 + h3;
    lemma_sound_add(pos, s2, h3, side, from, half);
    let s4 = s3 + h4;
    lemma_sound_add(pos, s3, h4, side, from, half);
    let s5 = s4 + h5;
    lemma_sound_add(pos, s4, h5, side, from, half);
    let s6 = s5 + h6;
    lemma_sound_add(pos, s5, h6, side, from, half);
    let s7 = s6 + h7;
    lemma_sound_add(pos, s6, h7, side, from, half);
    lemma_sound_add(pos, s7, h8, side, from, half);
}

/// The moves of a king are sound.
proof fn lemma_king_sound(pos: Position, side: Color, from: Square, half: Option<PieceHalf>)
    ensures
        pos.all_sound(pos.king_moves(side, from, half), side, from, half),
{
    reveal(Position::king_moves);
    let s1 = pos.king_step(side, from, -1, 1, half);
    let h2 = pos.king_step(side, from, 0, 1, half);
    let h3 = pos.king_step(side, from, 1, 1, half);
    let h4 = pos.king_step(side, from, -1, 0, half);
    let h5 = pos.king_step(side, from, 1, 0, half);
    let h6 = pos.king_step(side, from, -1, -1, half);
    let h7 = pos.king_step(side, from, 0, -1, half);
    let h8 = pos.king_step(side, from, 1, -1, half);
    let h9 = pos.castles(side, from, half);
    lemma_jump_sound(pos, side, from, -1, 1, half);
    lemma_jump_sound(pos, side, from, 0, 1, half);
    lemma_jump_sound(pos, side, from, 1, 1, half);
    lemma_jump_sound(pos, side, from, -1, 0, half);
    lemma_jump_sound(pos, side, from, 1, 0, half);
    lemma_jump_sound(pos, side, from, -1, -1, half);
    lemma_jump_sound(pos, side, from, 0, -1, half);
    lemma_jump_sound(pos, side, from, 1, -1, half);
    lemma_castles_sound(pos, side, from, half);
    let s2 = s1 + h2;
    lemma_sound_add(pos, s1, h2, side, from, half);
    let s3 = s2 + h3;
    lemma_sound_add(pos, s2, h3, side, from, half);
    let s4 = s3 + h4;
    lemma_sound_add(pos, s3, h4, side, from, half);
    let s5 = s4 + h5;
    lemma_sound_add(pos, s4, h5, side, from, half);
    let s6 = s5 + h6;
    lemma_sound_add(pos, s5, h6, side, from, half);
    let s7 = s6 + h7;
    lemma_sound_add(pos, s6, h7, side, from, half);
    let s8 = s7 + h8;
    lemma_sound_add(pos, s7, h8, side, from, half);
    lemma_sound_add(pos, s8, h9, side, from, half);
}

/// The moves of a pawn are sound.
proof fn lemma_pawn_sound(pos: Position, side: Color, from: Square, half: Option<PieceHalf>)
    ensures
        pos.all_sound(pos.pawn_moves(side, from, half), side, from, half),
{
    reveal(Position::pawn_moves);
    let s1 = pos.pawn_advance(side, from, half);
    let h2 = pos.pawn_capture(side, from, -1, half);
    let h3 = pos.pawn_capture(side, from, 1, half);
    let h4 = pos.pawn_merge(side, from, 1, half);
    let h5 = pos.pawn_merge(side, from, -1, half);
    let h6 = pos.pawn_en_passant(side, from, -1, half);
    let h7 = pos.pawn_en_passant(side, from, 1, half);
    lemma_pawn_parts_sound(pos, side, from, -1, half);
    lemma_pawn_parts_sound(pos, side, from, 1, half);
    let s2 = s1 + h2;
    lemma_sound_add(pos, s1, h2, side, from, half);
    let s3 = s2 + h3;
    lemma_sound_add(pos, s2, h3, side, from, half);
    let s4 = s3 + h4;
    lemma_sound_add(pos, s3, h4, side, from, half);
    let s5 = s4 + h5;
    lemma_sound_add(pos, s4, h5, side, from, half);
    let s6 = s5 + h6;
    lemma_sound_add(pos, s5, h6, side, from, half);
    lemma_sound_add(pos, s6, h7, side, from, half);
}

/// The moves of a unitary piece are sound.
pub proof fn lemma_unit_moves_sound(
    pos: Position,
    side: Color,
    from: Square,
    piece: UnitaryPiece,
    half: Option<PieceHalf>,
)
    ensures
        pos.all_sound(pos.unit_moves(side, from, piece, half), side, from, half),
{
    match piece {
        UnitaryPiece::Queen => {
            lemma_sliders_sound(pos, side, from, half);
            lemma_sound_add(
                pos,
                pos.rook_moves(side, from, half),
                pos.bishop_moves(side, from, half),
                side,
                from,
                half,
            );
        },
        UnitaryPiece::Rook => {
            lemma_sliders_sound(pos, side, from, half);
        },
        UnitaryPiece::Bishop => {
            lemma_sliders_sound(pos, side, from, half);
        },
        UnitaryPiece::Knight => {
            lemma_knight_sound(pos, side, from, half);
        },
        UnitaryPiece::King => {
            lemma_king_sound(pos, side, from, half);
        },
        UnitaryPiece::Pawn => {
            lemma_pawn_sound(pos, side, from, half);
        },
    }
}

/// Every pseudo-legal move is sound, and there are pseudo-legal moves from a
/// square only where it holds a piece of `side`.
pub proof fn lemma_pseudo_moves_sound(
    pos: Position,
    side: Color,
    from: Square,
    half: Option<PieceHalf>,
)
    ensures
        pos.all_sound(pos.pseudo_moves(side, from, half), side, from, half),
        pos.all_start_owned(pos.pseudo_moves(side, from, half), side),
{
    match pos.at(from) {
        None => {},
        Some(p) => {
            match p.body() {
                Piece::Unitary(u) => {
                    lemma_unit_moves_sound(pos, side, from, u, half);
                },
                Piece::Combination(c) => {
                    lemma_unit_moves_sound(pos, side, from, c.left(), half);
                    lemma_unit_moves_sound(pos, side, from, c.right(), half);
                    lemma_sound_add(
                        pos,
                        pos.unit_moves(side, from, c.left(), half),
                        pos.unit_moves(side, from, c.right(), half),
                        side,
                        from,
                        half,
                    );
                },
            }
        },
    }
}

/// Every pseudo-legal move of `side` starts on a square that holds a piece
/// of `side`.
pub proof fn lemma_pseudo_below_owned(pos: Position, side: Color, n: int)
    ensures
        pos.all_start_owned(pos.pseudo_below(side, n), side),
    decreases n,
{
    if n > 0 {
        lemma_pseudo_below_owned(pos, side, n - 1);
        lemma_pseudo_moves_sound(pos, side, Square::of(n - 1), None);
        let a = pos.pseudo_below(side, n - 1);
        let b = pos.pseudo_moves(side, Square::of(n - 1), None);
        assert forall|k: int| 0 <= k < (a + b).len() implies pos.owned(
            (#[trigger] (a + b)[k]).from,
            side,
        ) by {
            if k < a.len() {
                assert((a + b)[k] == a[k]);
            } else {
                assert((a + b)[k] == b[k - a.len()]);
            }
        }
    }
}

/// The side that is not to move cannot move: `play` refuses each of its
/// moves, so it has no legal move and loses no king.
pub proof fn lemma_idle_side_cannot_move(pos: Position, side: Color)
    requires
        side != pos.turn,
    ensures
        pos.kings_kept(side),
        pos.legal_moves(side).len() == 0,
        forall|mv: Move| pos.owned(mv.from, side) ==> (#[trigger] pos.played(mv)) is None,
{
    let all = pos.pseudo_below(side, 64);
    lemma_pseudo_below_owned(pos, side, 64);
    assert forall|k: int| 0 <= k < all.len() implies !(pos.safe_pred(side))(#[trigger] all[k]) by {
        assert(pos.owned(all[k].from, side));
    }
    all.lemma_all_neg_filter_empty(pos.safe_pred(side));
}

/// A move that is accepted is sound for the side to move.
pub proof fn lemma_played_is_sound(pos: Position, mv: Move)
    requires
        pos.played(mv) is Some,
    ensures
        pos.sound(pos.turn, mv.from, mv.which_half, mv),
        pos.owned(mv.from, pos.turn),
{
    let moves = pos.pseudo_moves(pos.turn, mv.from, mv.which_half);
    lemma_pseudo_moves_sound(pos, pos.turn, mv.from, mv.which_half);
    let k = choose|k: int| 0 <= k < moves.len() && moves[k] == mv;
    assert(pos.sound(pos.turn, mv.from, mv.which_half, moves[k]));
    assert(pos.owned(moves[k].from, pos.turn));
}

/// The move of a unit leaves alone every occupied square other than its
/// source, its target and the en-passant target, unless the square holds a
/// rook.
pub proof fn lemma_unit_move_spares(
    pos: Position,
    from: Square,
    to: Square,
    src: ColorPiece,
    dst: Option<ColorPiece>,
    s: Square,
)
    requires
        pos.wf(),
        pos.unit_move(from, to, src, dst) is Some,
        s != from,
        s != to,
        pos.en_passant != Some(s),
        pos.at(s) is Some,
        !pos.at(s).unwrap().body().has(UnitaryPiece::Rook),
    ensures
        pos.unit_move(from, to, src, dst).unwrap().at(s) == pos.at(s),
        pos.unit_move(from, to, src, dst).unwrap().wf(),
{
    lemma_square_of_idx(s);
    lemma_square_of_idx(from);
    lemma_square_of_idx(to);
    let side = src.side();
    let r = back_rank(side);
    if pos.castles_with(from, to, src, true) {
        assert(s != Square::at(5, r));
        assert(s != Square::at(7, r));
    } else if pos.castles_with(from, to, src, false) {
        assert(s != Square::at(3, r));
        assert(s != Square::at(0, r));
    } else if Position::promotes(to, src) {
    } else {
        let b = pos.forfeit(from, src);
        assert(b.cells == pos.cells);
        assert(b.en_passant == pos.en_passant);
        if b.takes_en_passant(from, to) {
            lemma_square_of_idx(b.en_passant.unwrap());
        }
    }
}

/// A king that moves arrives: after an accepted move of the king on `from`,
/// the king stands on the move's target.
proof fn lemma_king_arrives(pos: Position, mv: Move, side: Color)
    requires
        pos.wf(),
        pos.turn == side,
        pos.at(mv.from) == lone(side, UnitaryPiece::King),
        pos.played(mv) is Some,
    ensures
        pos.played(mv).unwrap().at(mv.to) == lone(side, UnitaryPiece::King),
{
    let src = pos.at(mv.from).unwrap();
    lemma_played_is_sound(pos, mv);
    lemma_square_of_idx(mv.from);
    lemma_square_of_idx(mv.to);
    assert(!Position::double_push(mv, src));
    assert(mv.which_half is None);
    assert(!pos.pawn_onto_king(side, mv.from, mv.to));
    assert(pos.may_land(side, mv.from, mv.to));
    let moved = pos.unit_move(mv.from, mv.to, src, pos.at(mv.to));
    assert(pos.moved(mv) == moved);
    let r = back_rank(side);
    if pos.castles_with(mv.from, mv.to, src, true) {
        assert(moved.unwrap().at(mv.to) == Some(src));
    } else if pos.castles_with(mv.from, mv.to, src, false) {
        assert(moved.unwrap().at(mv.to) == Some(src));
    } else {
        assert(!Position::promotes(mv.to, src));
        let b = pos.forfeit(mv.from, src);
        assert(b.cells == pos.cells);
        assert(b.en_passant == pos.en_passant);
        if b.takes_en_passant(mv.from, mv.to) {
            lemma_square_of_idx(b.en_passant.unwrap());
            assert(moved.unwrap().at(mv.to) == Some(src));
        } else {
            assert(moved.unwrap().at(mv.to) == Some(src));
        }
    }
}

/// A guarded king outlasts the moves of the other pieces of its side: after
/// an accepted move that starts elsewhere, the king stands where it stood.
proof fn lemma_king_stays(pos: Position, mv: Move, side: Color, k: int)
    requires
        pos.wf(),
        pos.turn == side,
        pos.guarded(k, side),
        mv.from != Square::of(k),
        pos.played(mv) is Some,
    ensures
        pos.played(mv).unwrap().cells[k] == pos.cells[k],
{
    let ks = Square::of(k);
    let src = pos.at(mv.from).unwrap();
    lemma_played_is_sound(pos, mv);
    lemma_square_of_idx(mv.from);
    lemma_square_of_idx(mv.to);
    lemma_square_of_idx(ks);
    assert(ks.idx() == k);
    assert(pos.at(ks) == lone(side, UnitaryPiece::King));
    if mv.to == ks {
        assert(!pos.may_land(side, mv.from, ks));
        assert(pos.pawn_onto_king(side, mv.from, ks));
        lemma_offset_coords(mv.from, -1, forward(side));
        lemma_offset_coords(mv.from, 1, forward(side));
        lemma_offset_coords(ks, -1, -forward(side));
        lemma_offset_coords(ks, 1, -forward(side));
        if mv.from.offset(-1, forward(side)) == Some(ks) {
            assert(ks.offset(1, -forward(side)) == Some(mv.from));
            assert(!pos.no_pawn_behind(k, side, 1));
        } else {
            assert(ks.offset(-1, -forward(side)) == Some(mv.from));
            assert(!pos.no_pawn_behind(k, side, -1));
        }
    }
    assert(mv.to != ks);
    let start = pos.armed(Position::double_push(mv, src), mv.to);
    assert(start.en_passant != Some(ks));
    assert(start.cells == pos.cells);
    assert(start.wf());
    match mv.which_half {
        None => {
            lemma_unit_move_spares(start, mv.from, mv.to, src, pos.at(mv.to), ks);
        },
        Some(h) => {
            match src.body() {
                Piece::Unitary(_) => {},
                Piece::Combination(c) => {
                    let going = ColorPiece::of(src.side(), Piece::Unitary(c.half(h)));
                    let staying = ColorPiece::of(src.side(), Piece::Unitary(c.half(h.other())));
                    let reduced = start.put(mv.from, Some(going));
                    assert(reduced.wf());
                    assert(reduced.at(ks) == pos.at(ks));
                    lemma_unit_move_spares(reduced, mv.from, mv.to, going, pos.at(mv.to), ks);
                    let p = reduced.unit_move(mv.from, mv.to, going, pos.at(mv.to)).unwrap();
                    assert(p.put(mv.from, Some(staying)).at(ks) == p.at(ks));
                },
            }
        },
    }
}

/// A guarded king outlasts every move of its side: where the side to move
/// has a king that is not the en-passant target and has no lone pawn of its
/// own diagonally behind it, that side has a king after every accepted move.
pub proof fn lemma_guarded_king_survives(pos: Position, mv: Move, k: int)
    requires
        pos.wf(),
        pos.guarded(k, pos.turn),
    ensures
        pos.keeps_king(mv, pos.turn),
{
    let side = pos.turn;
    if pos.played(mv) is Some {
        let p = pos.played(mv).unwrap();
        if mv.from == Square::of(k) {
            lemma_square_of_idx(Square::of(k));
            lemma_king_arrives(pos, mv, side);
            lemma_square_of_idx(mv.to);
            assert(p.king_on(mv.to.idx(), side));
        } else {
            lemma_king_stays(pos, mv, side, k);
            assert(p.king_on(k, side));
        }
    }
}

/// Where the side to move has a guarded king, it keeps a king through each
/// of its pseudo-legal moves, so its legal moves can be asked for.
pub proof fn lemma_guarded_king_kept(pos: Position, k: int)
    requires
        pos.wf(),
        pos.guarded(k, pos.turn),
    ensures
        pos.kings_kept(pos.turn),
        pos.has_king(pos.turn),
{
    let all = pos.pseudo_below(pos.turn, 64);
    assert forall|j: int| 0 <= j < all.len() implies pos.keeps_king(#[trigger] all[j], pos.turn) by {
        lemma_guarded_king_survives(pos, all[j], k);
    }
    assert(pos.king_on(k, pos.turn));
}


} // verus!
