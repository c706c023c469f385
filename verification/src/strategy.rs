//! The board as a two-player game for an adversarial search: evaluation,
//! the moves on offer, apply and undo, and the end of the game.

use vstd::prelude::*;
use crate::board_repr::BoardRepr;
use crate::generation::{is_direction, one_if, room};
use crate::legality::reaches;
use crate::pieces::{Color, ColorPiece, Piece, PieceHalf, UnitaryPiece};
use crate::pieces::movement::{get_all_legal_moves, list_get, list_len, listed, Move, MOVES_CAPACITY};
use crate::position::Position;
use crate::square::{File, Rank, Square};

verus! {

impl Position {
    /// Whether the legal moves of `side` can be listed and its king looked
    /// up: `side` has a king, keeps it through every move that can be
    /// played, and its pseudo-legal moves fit into a list.
    pub open spec fn searchable(self, side: Color) -> bool {
        &&& self.has_king(side)
        &&& self.kings_kept(side)
        &&& self.pseudo_below(side, 64).len() <= MOVES_CAPACITY
    }
}

/// The move that stands for "no move": from `A1` to `H7`, which is neither
/// along a line nor a jump or a step, so no piece has it on any board.
pub open spec fn sentinel() -> Move {
    Move { from: Square::at(0, 0), to: Square::at(7, 6), which_half: None }
}

/// A board with the stack of the boards and moves that led to it, so that
/// a search can take its moves back.
pub struct MergingChessStrategy {
    board: BoardRepr,
    prev_boards: Vec<(BoardRepr, Move)>,
}

impl MergingChessStrategy {
    /// The current board.
    pub closed spec fn board(&self) -> BoardRepr {
        self.board
    }

    /// The boards before each move that was applied and not yet undone,
    /// each with that move, oldest first.
    pub closed spec fn history(&self) -> Seq<(BoardRepr, Move)> {
        self.prev_boards@
    }

    /// The search state on `board`, with nothing to undo.
    pub fn from(board: BoardRepr) -> (s: MergingChessStrategy)
        ensures
            s.board() == board,
            s.history() == Seq::<(BoardRepr, Move)>::empty(),
    {
        MergingChessStrategy { board, prev_boards: Vec::new() }
    }

    /// The material balance: the worth of White's pieces less that of
    /// Black's, a composite counting for both of its components. Positive
    /// favours White.
    pub fn evaluate(&self) -> (score: i64)
        ensures
            score == self.board()@.balance(64),
    {
        let mut material: i64 = 0;
        let mut i: usize = 0;
        while i < 64
            invariant
                i <= 64,
                material == self.board@.balance(i as int),
                -2000 * i <= material <= 2000 * i,
            decreases 64 - i,
        {
            match self.board.pieces[i] {
                None => {},
                Some(ColorPiece::White(piece)) => {
                    material = material + piece.value();
                },
                Some(ColorPiece::Black(piece)) => {
                    material = material - piece.value();
                },
            }
            i = i + 1;
        }
        material
    }

    /// The winner, if there is one: the side whose opponent has no legal
    /// move and is in check.
    pub fn get_winner(&self) -> (w: Option<Color>)
        requires
            self.board()@.searchable(Color::White),
            self.board()@.searchable(Color::Black),
        ensures
            w == self.board()@.winner(),
    {
        let white_moves = get_all_legal_moves(&self.board, Color::White);
        if list_len(&white_moves) == 0 && self.board.king_in_check(Color::White) {
            return Some(Color::Black);
        }
        let black_moves = get_all_legal_moves(&self.board, Color::Black);
        if list_len(&black_moves) == 0 && self.board.king_in_check(Color::Black) {
            return Some(Color::White);
        }
        None
    }

    /// Whether the game is drawn: the side to move has no legal move and is
    /// not in check, or both sides are down to their kings.
    pub fn is_game_tied(&self) -> (tied: bool)
        requires
            self.board()@.searchable(self.board()@.turn),
        ensures
            tied == self.board()@.drawn(),
    {
        let side = self.board.side_to_move;
        let moves = get_all_legal_moves(&self.board, side);
        if list_len(&moves) == 0 && !self.board.king_in_check(side) {
            return true;
        }
        self.board.has_insufficient_material(Color::White) && self.board.has_insufficient_material(
            Color::Black,
        )
    }

    /// Whether the game is over: drawn or won.
    pub fn is_game_complete(&self) -> (over: bool)
        requires
            self.board()@.searchable(Color::White),
            self.board()@.searchable(Color::Black),
        ensures
            over == (self.board()@.drawn() || self.board()@.winner() is Some),
    {
        self.is_game_tied() || self.get_winner().is_some()
    }

    /// The legal moves of the side to move.
    pub fn get_available_moves(&self) -> (moves: Vec<Move>)
        requires
            self.board()@.kings_kept(self.board()@.turn),
            self.board()@.pseudo_below(self.board()@.turn, 64).len() <= MOVES_CAPACITY,
        ensures
            moves@ == self.board()@.legal_moves(self.board()@.turn),
    {
        let legal_moves = get_all_legal_moves(&self.board, self.board.side_to_move);
        let n = list_len(&legal_moves);
        let mut moves: Vec<Move> = Vec::new();
        let mut i: usize = 0;
        while i < n
            invariant
                i <= n,
                n == listed(legal_moves).len(),
                moves@ == listed(legal_moves).take(i as int),
            decreases n - i,
        {
            moves.push(list_get(&legal_moves, i));
            assert(moves@ =~= listed(legal_moves).take(i + 1));
            i = i + 1;
        }
        assert(moves@ =~= listed(legal_moves));
        moves
    }

    /// Applies `mv`, keeping the board before it to undo the move later.
    /// The search hands over only moves that it was offered, so a move that
    /// cannot be played is ruled out.
    pub fn play(&mut self, mv: &Move, _maximizer: bool)
        requires
            old(self).board()@.played(*mv) is Some,
        ensures
            final(self).board()@ == old(self).board()@.played(*mv).unwrap(),
            final(self).history() == old(self).history().push((old(self).board(), *mv)),
    {
        self.prev_boards.push((self.board, *mv));
        let played = self.board.play(*mv);
        assert(played is Ok);
    }

    /// The move that was applied last and not yet undone, if any.
    pub fn last_move(&self) -> (mv: Option<Move>)
        ensures
            mv == (if self.history().len() > 0 {
                Some(self.history().last().1)
            } else {
                None
            }),
    {
        let n = self.prev_boards.len();
        if n == 0 {
            None
        } else {
            Some(self.prev_boards[n - 1].1)
        }
    }

    /// Undoes `mv`, which must be the move that was applied last: the board
    /// is again the one before it.
    pub fn clear(&mut self, mv: &Move)
        requires
            old(self).history().len() > 0,
            old(self).history().last().1 == *mv,
        ensures
            final(self).board() == old(self).history().last().0,
            final(self).history() == old(self).history().drop_last(),
    {
        let n = self.prev_boards.len();
        self.board = self.prev_boards[n - 1].0;
        self.prev_boards.pop();
    }

    pub fn get_board(&self) -> (b: &BoardRepr)
        ensures
            *b == self.board(),
    {
        &self.board
    }

    /// Whether `mv` is a legal move of the side to move.
    pub fn is_a_valid_move(&self, mv: &Move) -> (valid: bool)
        requires
            self.board()@.kings_kept(self.board()@.turn),
            self.board()@.pseudo_below(self.board()@.turn, 64).len() <= MOVES_CAPACITY,
        ensures
            valid == self.board()@.legal_moves(self.board()@.turn).contains(*mv),
    {
        let legal_moves = get_all_legal_moves(&self.board, self.board.side_to_move);
        crate::pieces::movement::list_contains(&legal_moves, *mv)
    }

    /// The move that stands for "no move".
    pub fn get_a_sentinel_move(&self) -> (mv: Move)
        ensures
            mv == sentinel(),
    {
        Move {
            from: Square::from_coords(File::A, Rank::First),
            to: Square::from_coords(File::H, Rank::Seventh),
            which_half: None,
        }
    }
}

/// Whether `target` lies on the line through `cur` in direction `(df, dr)`.
pub open spec fn on_line(cur: Square, target: Square, df: int, dr: int) -> bool {
    let f = target.file.idx() - cur.file.idx();
    let r = target.rank.idx() - cur.rank.idx();
    &&& df == 0 ==> f == 0
    &&& dr == 0 ==> r == 0
    &&& df == dr ==> f == r
    &&& df == -dr ==> f == -r
}

/// A list reaches a square if one of its two parts does.
pub proof fn lemma_reaches_add(a: Seq<Move>, b: Seq<Move>, target: Square)
    ensures
        reaches(a + b, target) == (reaches(a, target) || reaches(b, target)),
{
    if reaches(a, target) {
        let k = choose|k: int| 0 <= k < a.len() && (#[trigger] a[k]).to == target;
        assert((a + b)[k].to == target);
    }
    if reaches(b, target) {
        let k = choose|k: int| 0 <= k < b.len() && (#[trigger] b[k]).to == target;
        assert((a + b)[a.len() + k].to == target);
    }
    if reaches(a + b, target) {
        let k = choose|k: int| 0 <= k < (a + b).len() && (#[trigger] (a + b)[k]).to == target;
        if k < a.len() {
            assert(a[k].to == target);
        } else {
            assert(b[k - a.len()].to == target);
        }
    }
}

/// A slide stays on its line: it reaches no square off the line through
/// its start.
#[verifier::rlimit(40)]
pub proof fn lemma_ray_stays_on_line(
    pos: Position,
    side: Color,
    from: Square,
    cur: Square,
    df: int,
    dr: int,
    half: Option<PieceHalf>,
    target: Square,
)
    requires
        !on_line(cur, target, df, dr),
    ensures
        !reaches(pos.ray(side, from, cur, df, dr, half), target),
    decreases room(cur, df, dr),
{
    if is_direction(df, dr) {
        crate::square::lemma_offset_coords(cur, df, dr);
        match cur.offset(df, dr) {
            None => {},
            Some(to) => {
                let hit = one_if(pos.may_land(side, from, to), from, to, half);
                let beyond = if pos.at(to) is None {
                    pos.ray(side, from, to, df, dr, half)
                } else {
                    Seq::<Move>::empty()
                };
                assert(to.file.idx() == cur.file.idx() + df);
                assert(to.rank.idx() == cur.rank.idx() + dr);
                assert(on_line(cur, to, df, dr));
                assert(!on_line(to, target, df, dr));
                assert(to != target);
                assert(!reaches(hit, target));
                assert(room(to, df, dr) < room(cur, df, dr));
                lemma_ray_stays_on_line(pos, side, from, to, df, dr, half, target);
                assert(pos.ray(side, from, cur, df, dr, half) == hit + beyond);
                lemma_reaches_add(hit, beyond, target);
            },
        }
    }
}

/// No piece on `A1` has a pseudo-legal move to `H7`, on any board.
#[verifier::rlimit(40)]
pub proof fn lemma_unit_misses_sentinel(
    pos: Position,
    side: Color,
    piece: UnitaryPiece,
    half: Option<PieceHalf>,
)
    ensures
        !reaches(pos.unit_moves(side, sentinel().from, piece, half), sentinel().to),
{
    let from = sentinel().from;
    let to = sentinel().to;
    reveal(Position::rook_moves);
    reveal(Position::bishop_moves);
    reveal(Position::knight_moves);
    reveal(Position::king_moves);
    reveal(Position::pawn_moves);
    reveal(Position::hop);
    reveal(Position::king_step);
    reveal(Position::pawn_advance);
    reveal(Position::pawn_capture);
    reveal(Position::pawn_merge);
    reveal(Position::pawn_en_passant);
    lemma_ray_stays_on_line(pos, side, from, from, -1, 0, half, to);
    lemma_ray_stays_on_line(pos, side, from, from, 1, 0, half, to);
    lemma_ray_stays_on_line(pos, side, from, from, 0, 1, half, to);
    lemma_ray_stays_on_line(pos, side, from, from, 0, -1, half, to);
    lemma_ray_stays_on_line(pos, side, from, from, 1, 1, half, to);
    lemma_ray_stays_on_line(pos, side, from, from, -1, 1, half, to);
    lemma_ray_stays_on_line(pos, side, from, from, 1, -1, half, to);
    lemma_ray_stays_on_line(pos, side, from, from, -1, -1, half, to);
    let moves = pos.unit_moves(side, from, piece, half);
    if reaches(moves, to) {
        let k = choose|k: int| 0 <= k < moves.len() && (#[trigger] moves[k]).to == to;
        match piece {
            UnitaryPiece::Queen => {
                lemma_reaches_add(
                    pos.rook_moves(side, from, half),
                    pos.bishop_moves(side, from, half),
                    to,
                );
                lemma_lines_miss(pos, side, half);
            },
            UnitaryPiece::Rook => {
                lemma_lines_miss(pos, side, half);
            },
            UnitaryPiece::Bishop => {
                lemma_lines_miss(pos, side, half);
            },
            _ => {},
        }
    }
}

/// Neither the rook's nor the bishop's slides from `A1` reach `H7`.
proof fn lemma_lines_miss(pos: Position, side: Color, half: Option<PieceHalf>)
    ensures
        !reaches(pos.rook_moves(side, sentinel().from, half), sentinel().to),
        !reaches(pos.bishop_moves(side, sentinel().from, half), sentinel().to),
{
    let from = sentinel().from;
    let to = sentinel().to;
    reveal(Position::rook_moves);
    reveal(Position::bishop_moves);
    let a = pos.ray(side, from, from, -1, 0, half);
    let b = pos.ray(side, from, from, 1, 0, half);
    let c = pos.ray(side, from, from, 0, 1, half);
    let d = pos.ray(side, from, from, 0, -1, half);
    lemma_ray_stays_on_line(pos, side, from, from, -1, 0, half, to);
    lemma_ray_stays_on_line(pos, side, from, from, 1, 0, half, to);
    lemma_ray_stays_on_line(pos, side, from, from, 0, 1, half, to);
    lemma_ray_stays_on_line(pos, side, from, from, 0, -1, half, to);
    lemma_reaches_add(a, b, to);
    lemma_reaches_add(a + b, c, to);
    lemma_reaches_add(a + b + c, d, to);
    let e = pos.ray(side, from, from, 1, 1, half);
    let f = pos.ray(side, from, from, -1, 1, half);
    let g = pos.ray(side, from, from, 1, -1, half);
    let h = pos.ray(side, from, from, -1, -1, half);
    lemma_ray_stays_on_line(pos, side, from, from, 1, 1, half, to);
    lemma_ray_stays_on_line(pos, side, from, from, -1, 1, half, to);
    lemma_ray_stays_on_line(pos, side, from, from, 1, -1, half, to);
    lemma_ray_stays_on_line(pos, side, from, from, -1, -1, half, to);
    lemma_reaches_add(e, f, to);
    lemma_reaches_add(e + f, g, to);
    lemma_reaches_add(e + f + g, h, to);
}

/// The sentinel move is refused on every board: `play` never accepts it,
/// and it is never among the legal moves.
pub proof fn lemma_sentinel_never_playable(pos: Position)
    ensures
        pos.played(sentinel()) is None,
        !pos.safe(sentinel(), Color::White),
        !pos.safe(sentinel(), Color::Black),
{
    let mv = sentinel();
    let moves = pos.pseudo_moves(pos.turn, mv.from, None);
    if moves.contains(mv) {
        let k = choose|k: int| 0 <= k < moves.len() && moves[k] == mv;
        assert(moves[k].to == mv.to);
        assert(reaches(moves, mv.to));
        match pos.at(mv.from).unwrap().body() {
            Piece::Unitary(u) => {
                lemma_unit_misses_sentinel(pos, pos.turn, u, None);
            },
            Piece::Combination(c) => {
                lemma_unit_misses_sentinel(pos, pos.turn, c.left(), None);
                lemma_unit_misses_sentinel(pos, pos.turn, c.right(), None);
                lemma_reaches_add(
                    pos.unit_moves(pos.turn, mv.from, c.left(), None),
                    pos.unit_moves(pos.turn, mv.from, c.right(), None),
                    mv.to,
                );
            },
        }
    }
}

} // verus!
