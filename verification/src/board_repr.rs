//! The board: 64 cells and the state that goes with them.

use vstd::prelude::*;
use crate::pieces::{Color, ColorPiece, CombinationPiece, Piece, UnitaryPiece};
use crate::pieces::movement::{
    can_castle_long, can_castle_short, home_rank, list_contains, list_reaches, moves_from,
    rights_base, Move,
};
use crate::position::{lone, Position};
use crate::square::{File, Rank, Square};

verus! {

/// The state of a game. `pieces` is indexed by the squares' numbers;
/// `castling_rights` is ordered White's king side, White's queen side,
/// Black's king side, Black's queen side.
#[derive(Clone, Copy, Debug, PartialEq, Eq)]
pub struct BoardRepr {
    pub pieces: [Option<ColorPiece>; 64],
    /// The square of the pawn that may be taken en passant, if the last move
    /// made that possible.
    pub en_passant_square: Option<Square>,
    pub side_to_move: Color,
    pub castling_rights: [bool; 4],
    /// The move that was played last, if any.
    pub previous_move: Option<Move>,
}

impl View for BoardRepr {
    type V = Position;

    open spec fn view(&self) -> Position {
        Position {
            cells: self.pieces@,
            en_passant: self.en_passant_square,
            turn: self.side_to_move,
            rights: self.castling_rights@,
            previous: self.previous_move,
        }
    }
}

/// The piece that starts on file `f` of a back rank.
pub open spec fn back_piece(f: int) -> UnitaryPiece {
    if f == 0 || f == 7 {
        UnitaryPiece::Rook
    } else if f == 1 || f == 6 {
        UnitaryPiece::Knight
    } else if f == 2 || f == 5 {
        UnitaryPiece::Bishop
    } else if f == 3 {
        UnitaryPiece::Queen
    } else {
        UnitaryPiece::King
    }
}

/// The content of cell `i` at the start of a game.
pub open spec fn opening_cell(i: int) -> Option<ColorPiece> {
    if i / 8 == 0 {
        lone(Color::White, back_piece(i % 8))
    } else if i / 8 == 1 {
        lone(Color::White, UnitaryPiece::Pawn)
    } else if i / 8 == 6 {
        lone(Color::Black, UnitaryPiece::Pawn)
    } else if i / 8 == 7 {
        lone(Color::Black, back_piece(i % 8))
    } else {
        None
    }
}

/// The position at the start of a game: White to move, all castling rights
/// standing, no en-passant target and no previous move.
pub open spec fn opening() -> Position {
    Position {
        cells: Seq::new(64, |i: int| opening_cell(i)),
        en_passant: None,
        turn: Color::White,
        rights: seq![true, true, true, true],
        previous: None,
    }
}

/// The position without any piece: White to move, no castling right.
pub open spec fn vacant_board() -> Position {
    Position {
        cells: Seq::new(64, |i: int| None),
        en_passant: None,
        turn: Color::White,
        rights: seq![false, false, false, false],
        previous: None,
    }
}

fn back_piece_of(f: u8) -> (p: UnitaryPiece)
    requires
        f < 8,
    ensures
        p == back_piece(f as int),
{
    if f == 0 || f == 7 {
        UnitaryPiece::Rook
    } else if f == 1 || f == 6 {
        UnitaryPiece::Knight
    } else if f == 2 || f == 5 {
        UnitaryPiece::Bishop
    } else if f == 3 {
        UnitaryPiece::Queen
    } else {
        UnitaryPiece::King
    }
}

impl BoardRepr {
    /// A board without pieces, for a custom setup.
    pub fn empty() -> (b: BoardRepr)
        ensures
            b@ == vacant_board(),
    {
        let b = BoardRepr {
            pieces: [None;64],
            en_passant_square: None,
            side_to_move: Color::White,
            castling_rights: [false;4],
            previous_move: None,
        };
        assert(b@.cells =~= vacant_board().cells);
        assert(b@.rights =~= vacant_board().rights);
        b
    }

    /// The board that holds `pieces`, cell by cell in the order of the squares'
    /// numbers, and is otherwise like the empty board; `None` unless there
    /// are exactly 64 cells.
    pub fn with_pieces(pieces: &Vec<Option<ColorPiece>>) -> (b: Option<BoardRepr>)
        ensures
            b is Some <==> pieces@.len() == 64,
            b is Some ==> b.unwrap()@ == (Position { cells: pieces@, ..vacant_board() }),
    {
        if pieces.len() != 64 {
            return None;
        }
        let mut board = BoardRepr::empty();
        let mut i: usize = 0;
        while i < 64
            invariant
                i <= 64,
                pieces@.len() == 64,
                board@.wf(),
                board@ == (Position { cells: board@.cells, ..vacant_board() }),
                forall|j: int| 0 <= j < i ==> board@.cells[j] == pieces@[j],
            decreases 64 - i,
        {
            board.pieces[i] = pieces[i];
            i = i + 1;
        }
        assert(board@.cells =~= pieces@);
        Some(board)
    }

    /// The content of square `sq`.
    pub fn get(&self, sq: Square) -> (p: Option<ColorPiece>)
        ensures
            p == self@.at(sq),
            self@.wf(),
    {
        self.pieces[sq.index()]
    }

    /// Puts `p` on square `sq`.
    pub fn set(&mut self, sq: Square, p: Option<ColorPiece>)
        ensures
            final(self)@ == old(self)@.put(sq, p),
            final(self)@.wf(),
    {
        self.pieces[sq.index()] = p;
        assert(self@.cells =~= old(self)@.put(sq, p).cells);
    }

    /// Withdraws castling right `i`.
    pub fn revoke(&mut self, i: usize)
        requires
            i < 4,
        ensures
            final(self)@ == old(self)@.deny(i as int),
    {
        self.castling_rights[i] = false;
        assert(self@.rights =~= old(self)@.deny(i as int).rights);
    }

    /// A walk over the occupied squares with their pieces, in the order of
    /// the squares' numbers, starting at the first.
    pub fn iter_pieces(&self) -> (it: BoardPieceIter<'_>)
        ensures
            it.board() == *self,
            it.remaining() == self@.occupied(64),
    {
        proof {
            crate::position::lemma_occupied_split(self@, 0);
            assert(self@.occupied(0) + self@.occupied_from(0) =~= self@.occupied_from(0));
        }
        BoardPieceIter { board: self, square_idx: 0 }
    }

    /// The occupied squares with their pieces, in the order of the squares'
    /// numbers.
    pub fn occupied_squares(&self) -> (v: Vec<(Square, ColorPiece)>)
        ensures
            v@ == self@.occupied(64),
    {
        let mut v: Vec<(Square, ColorPiece)> = Vec::new();
        let mut i: u32 = 0;
        while i < 64
            invariant
                i <= 64,
                v@ == self@.occupied(i as int),
            decreases 64 - i,
        {
            if let Some(piece) = self.pieces[i as usize] {
                v.push((Square::new(i), piece));
            }
            i = i + 1;
        }
        v
    }

    /// The square of the first king of `side`, if it has one.
    pub fn find_king(&self, side: Color) -> (s: Option<Square>)
        ensures
            s is Some <==> self@.has_king(side),
            s is Some ==> s.unwrap().idx() == self@.king_cell(side),
    {
        let mut i: u32 = 0;
        while i < 64
            invariant
                i <= 64,
                !self@.king_below(i as int, side),
            decreases 64 - i,
        {
            if let Some(piece) = self.pieces[i as usize] {
                if piece.color() == side && piece.piece().contains(UnitaryPiece::King) {
                    proof {
                        assert(self@.king_on(i as int, side));
                        crate::position::lemma_king_cell(self@, side);
                        let k = self@.king_cell(side);
                        if k < i {
                            assert(self@.king_below(i as int, side));
                        }
                        if i < k {
                            assert(self@.king_below(k, side));
                        }
                    }
                    return Some(Square::new(i));
                }
            }
            assert(!self@.king_on(i as int, side));
            i = i + 1;
        }
        None
    }

    /// The square of the king of `side`: the first one in the order of the
    /// squares' numbers. A side without a king is a broken invariant, so the
    /// caller has to rule it out.
    pub fn king_square(&self, side: Color) -> (s: Square)
        requires
            self@.has_king(side),
        ensures
            s.idx() == self@.king_cell(side),
            self@.at(s) == lone(side, UnitaryPiece::King),
    {
        let s = self.find_king(side).unwrap();
        proof {
            crate::position::lemma_king_cell(self@, side);
        }
        s
    }

    /// Whether `side` is left with nothing but kings.
    pub fn has_insufficient_material(&self, side: Color) -> (b: bool)
        ensures
            b == self@.bare(side),
    {
        let mut i: usize = 0;
        while i < 64
            invariant
                i <= 64,
                forall|j: int|
                    0 <= j < i && (#[trigger] self@.cells[j]) is Some && self@.cells[j].unwrap().side()
                        == side ==> self@.cells[j] == lone(side, UnitaryPiece::King),
            decreases 64 - i,
        {
            if let Some(piece) = self.pieces[i] {
                if piece.color() == side {
                    match piece.piece() {
                        Piece::Unitary(UnitaryPiece::King) => {},
                        _ => {
                            assert(self@.cells[i as int] != lone(side, UnitaryPiece::King));
                            return false;
                        },
                    }
                }
            }
            i = i + 1;
        }
        true
    }
}

/// A walk over the occupied squares of a board. It can be started again at
/// any time by asking the board for a new one.
pub struct BoardPieceIter<'a> {
    board: &'a BoardRepr,
    square_idx: u8,
}

impl<'a> BoardPieceIter<'a> {
    /// The board that is walked.
    pub closed spec fn board(&self) -> BoardRepr {
        *self.board
    }

    /// What the walk has still to yield.
    pub closed spec fn remaining(&self) -> Seq<(Square, ColorPiece)> {
        self.board@.occupied_from(self.square_idx as int)
    }

    /// The next occupied square with its piece, or `None` when the walk is
    /// over.
    pub fn next(&mut self) -> (item: Option<(Square, ColorPiece)>)
        ensures
            final(self).board() == old(self).board(),
            match item {
                Some(x) => old(self).remaining() == seq![x] + final(self).remaining(),
                None => old(self).remaining().len() == 0 && final(self).remaining().len() == 0,
            },
    {
        while self.square_idx < 64
            invariant
                self.board == old(self).board,
                self.remaining() == old(self).remaining(),
            decreases 64 - self.square_idx,
        {
            let i = self.square_idx;
            self.square_idx = i + 1;
            if let Some(piece) = self.board.pieces[i as usize] {
                return Some((Square::new(i as u32), piece));
            }
        }
        None
    }
}

/// The refusal of a move: it is not one that the position allows.
#[derive(Clone, Copy, Debug, PartialEq, Eq, Hash, Structural)]
pub struct IllegalMove;

/// Moves king and rook of `side` as castling on the king side (`short`) or
/// the queen side does, and withdraws both castling rights of `side`.
fn castle(this: &mut BoardRepr, side: Color, short: bool)
    ensures
        final(this)@ == old(this)@.castled(side, short),
{
    let rank = home_rank(side);
    let base = rights_base(side);
    let home = Square::from_coords(File::E, rank);
    let king_to = Square::from_coords(if short { File::G } else { File::C }, rank);
    let rook_from = Square::from_coords(if short { File::H } else { File::A }, rank);
    let rook_to = Square::from_coords(if short { File::F } else { File::D }, rank);
    let king = this.get(home);
    this.set(king_to, king);
    this.set(home, None);
    let rook = this.get(rook_from);
    this.set(rook_to, rook);
    this.set(rook_from, None);
    this.revoke(base);
    this.revoke(base + 1);
}

/// Withdraws the castling rights that `src_piece` forfeits by leaving
/// `from`.
fn forfeit_rights(this: &mut BoardRepr, from: Square, src_piece: ColorPiece)
    ensures
        final(this)@ == old(this)@.forfeit(from, src_piece),
{
    let side = src_piece.color();
    let rank = home_rank(side);
    let base = rights_base(side);
    if src_piece.piece().contains(UnitaryPiece::King) {
        this.revoke(base);
        this.revoke(base + 1);
    }
    if src_piece.piece().contains(UnitaryPiece::Rook) {
        if from == Square::from_coords(File::A, rank) {
            this.revoke(base + 1);
        }
        if from == Square::from_coords(File::H, rank) {
            this.revoke(base);
        }
    }
}

/// Moves one unit: `src_piece`, which stands on `from`, goes to `to`, where
/// `dst_piece` stood before the move. On `Err` the board may be changed in
/// part; the caller restores it.
#[verifier::rlimit(40)]
fn process_unitary_move(
    this: &mut BoardRepr,
    from: Square,
    to: Square,
    src_piece: ColorPiece,
    dst_piece: Option<ColorPiece>,
) -> (r: Result<(), IllegalMove>)
    ensures
        match old(this)@.unit_move(from, to, src_piece, dst_piece) {
            Some(p) => r is Ok && final(this)@ == p,
            None => r is Err,
        },
{
    let side = src_piece.color();
    let rank = home_rank(side);
    if src_piece.piece().contains(UnitaryPiece::King) && from == Square::from_coords(
        File::E,
        rank,
    ) {
        if to == Square::from_coords(File::G, rank) && can_castle_short(this, side) {
            castle(this, side, true);
            return Ok(());
        }
        if to == Square::from_coords(File::C, rank) && can_castle_long(this, side) {
            castle(this, side, false);
            return Ok(());
        }
    }
    if src_piece.piece().contains(UnitaryPiece::Pawn) && to.rank() == home_rank(side.opposite()) {
        this.set(from, None);
        this.set(to, Some(ColorPiece::with_color(side, Piece::Unitary(UnitaryPiece::Queen))));
        return Ok(());
    }
    forfeit_rights(this, from, src_piece);
    if let Some(target) = this.en_passant_square {
        if from.file().distance(target.file()) == 1 && from.rank() == target.rank() && to.file()
            == target.file() {
            this.set(from, None);
            this.set(target, None);
            this.set(to, Some(src_piece));
            this.en_passant_square = None;
            return Ok(());
        }
    }
    match dst_piece {
        None => {
            this.set(to, Some(src_piece));
            this.set(from, None);
            Ok(())
        },
        Some(dst) => {
            if dst.color() != side {
                this.set(from, None);
                this.set(to, Some(src_piece));
                return Ok(());
            }
            match (src_piece.piece(), dst.piece()) {
                (Piece::Unitary(p1), Piece::Unitary(p2)) => {
                    match CombinationPiece::new(p1, p2) {
                        Some(combo) => {
                            this.set(from, None);
                            this.set(
                                to,
                                Some(ColorPiece::with_color(side, Piece::Combination(combo))),
                            );
                            Ok(())
                        },
                        None => Err(IllegalMove),
                    }
                },
                _ => Err(IllegalMove),
            }
        },
    }
}

/// Plays `mv` but for the record of the previous move. On `Err` the board
/// may be changed in part; the caller restores it.
#[verifier::rlimit(40)]
fn play_inner(this: &mut BoardRepr, mv: Move) -> (r: Result<(), IllegalMove>)
    ensures
        match old(this)@.advanced(mv) {
            Some(p) => r is Ok && final(this)@ == p,
            None => r is Err,
        },
{
    let from = mv.from;
    let to = mv.to;
    let src_piece = match this.get(from) {
        Some(piece) => piece,
        None => {
            return Err(IllegalMove);
        },
    };
    let dst_piece = this.get(to);
    let moves = moves_from(this, this.side_to_move, from, mv.which_half);
    if !list_contains(&moves, mv) {
        return Err(IllegalMove);
    }
    let side = src_piece.color();
    let mut did_set_en_passant = false;
    if src_piece.piece().contains(UnitaryPiece::Pawn) {
        let start_rank = match side {
            Color::White => Rank::Second,
            Color::Black => Rank::Seventh,
        };
        if from.rank() == start_rank && to.rank().distance(from.rank()) == 2 && to.file()
            == from.file() {
            this.en_passant_square = Some(to);
            did_set_en_passant = true;
        }
    }
    assert(did_set_en_passant == Position::double_push(mv, src_piece));
    assert(this@ == old(this)@.armed(did_set_en_passant, to));
    match mv.which_half {
        None => {
            if process_unitary_move(this, from, to, src_piece, dst_piece).is_err() {
                return Err(IllegalMove);
            }
        },
        Some(half) => {
            match src_piece.piece() {
                Piece::Unitary(_) => {
                    return Err(IllegalMove);
                },
                Piece::Combination(combo) => {
                    let staying = ColorPiece::with_color(
                        side,
                        Piece::Unitary(combo.get(half.opposite())),
                    );
                    let going = ColorPiece::with_color(side, Piece::Unitary(combo.get(half)));
                    this.set(from, Some(going));
                    let moves_of_half = moves_from(this, this.side_to_move, from, None);
                    if !list_contains(&moves_of_half, Move { from, to, which_half: None }) {
                        return Err(IllegalMove);
                    }
                    if process_unitary_move(this, from, to, going, dst_piece).is_err() {
                        return Err(IllegalMove);
                    }
                    this.set(from, Some(staying));
                },
            }
        },
    }
    if !did_set_en_passant {
        this.en_passant_square = None;
    }
    this.side_to_move = this.side_to_move.opposite();
    Ok(())
}

impl BoardRepr {
    /// Plays `mv` for the side to move. The move is accepted exactly if the
    /// position allows it, whatever list the caller took it from; then the
    /// board is the position after the move. A refused move leaves the board
    /// as it was.
    pub fn play(&mut self, mv: Move) -> (r: Result<(), IllegalMove>)
        ensures
            match old(self)@.played(mv) {
                Some(p) => r is Ok && final(self)@ == p,
                None => r is Err && *final(self) == *old(self),
            },
    {
        let old_self = *self;
        if play_inner(self, mv).is_err() {
            *self = old_self;
            return Err(IllegalMove);
        }
        self.previous_move = Some(mv);
        Ok(())
    }

    /// Whether the king of `side` is in check: whether a piece of the other
    /// side has a pseudo-legal move onto its square. The side must have a
    /// king.
    pub fn king_in_check(&self, side: Color) -> (b: bool)
        requires
            self@.has_king(side),
        ensures
            b == self@.in_check(side),
    {
        let side_to_move = side.opposite();
        let king_square = self.king_square(side);
        proof {
            crate::position::lemma_king_cell(self@, side);
            crate::square::lemma_square_of_idx(king_square);
        }
        let mut i: u32 = 0;
        while i < 64
            invariant
                i <= 64,
                side_to_move == side.other(),
                king_square == Square::of(self@.king_cell(side)),
                !self@.attacked_below(side, i as int, king_square),
            decreases 64 - i,
        {
            let square = Square::new(i);
            if let Some(piece) = self.get(square) {
                if piece.color() != side {
                    let moves = moves_from(self, side_to_move, square, None);
                    if list_reaches(&moves, king_square) {
                        assert(self@.attacks(side, i as int, king_square));
                        return true;
                    }
                }
            }
            assert(!self@.attacks(side, i as int, king_square));
            i = i + 1;
        }
        false
    }

    /// Whether `mv` is safe for `side`: it can be played on a copy of the
    /// board, and the king of `side` is not in check after it. If the move
    /// can be played, `side` must have a king after it.
    pub fn is_safe_move(&self, mv: Move, side: Color) -> (b: bool)
        requires
            self@.keeps_king(mv, side),
        ensures
            b == self@.safe(mv, side),
    {
        let mut board = *self;
        if board.play(mv).is_err() {
            return false;
        }
        !board.king_in_check(side)
    }
}

impl Default for BoardRepr {
    /// The board at the start of a game.
    fn default() -> (b: BoardRepr)
        ensures
            b@ == opening(),
    {
        let mut b = BoardRepr::empty();
        let mut f: u8 = 0;
        while f < 8
            invariant
                f <= 8,
                b@.wf(),
                b@.en_passant is None,
                b@.turn == Color::White,
                b@.previous is None,
                b@.rights =~= seq![false, false, false, false],
                forall|i: int|
                    0 <= i < 64 ==> #[trigger] b@.cells[i] == (if i % 8 < f {
                        opening_cell(i)
                    } else {
                        None
                    }),
            decreases 8 - f,
        {
            let file = File::from_index(f).unwrap();
            let piece = back_piece_of(f);
            b.set(Square::from_coords(file, Rank::First), Some(piece.white()));
            b.set(Square::from_coords(file, Rank::Second), Some(UnitaryPiece::Pawn.white()));
            b.set(Square::from_coords(file, Rank::Seventh), Some(UnitaryPiece::Pawn.black()));
            b.set(Square::from_coords(file, Rank::Eighth), Some(piece.black()));
            f = f + 1;
        }
        b.castling_rights = [true;4];
        assert(b@.cells =~= opening().cells);
        assert(b@.rights =~= opening().rights);
        b
    }
}

} // verus!
