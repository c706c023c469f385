//! Moves, the bounded list in which they are collected, and the generator of
//! pseudo-legal moves.

use vstd::prelude::*;
use arrayvec::ArrayVec;
use crate::board_repr::BoardRepr;
use crate::generation::{back_rank, forward, is_direction, king_home, one, room, one_if};
use crate::pieces::{Color, Piece, PieceHalf, UnitaryPiece};
use crate::legality::{lemma_kings_kept_on_square, lemma_pseudo_prefix, reaches};
use crate::position::{lone, Position};
use crate::square::{File, Rank, Square};

verus! {

/// A move: the piece on `from` goes to `to`. On a composite, `which_half`
/// names the component that leaves while the other stays; `None` sends the
/// whole piece.
#[derive(Clone, Copy, Debug, PartialEq, Eq, Hash, Structural)]
pub struct Move {
    pub from: Square,
    pub to: Square,
    pub which_half: Option<PieceHalf>,
}

/// The number of moves a `MovesList` can hold.
pub const MOVES_CAPACITY: usize = 1024;

/// The list of moves that the generator fills.
pub type MovesList = ArrayVec<Move, 1024>;

/// `arrayvec::ArrayVec`, the vector of bounded capacity that holds its items
/// inline. Nothing of its inside is known here; what a list of moves holds
/// is `listed`.
#[verifier::external_type_specification]
#[verifier::external_body]
#[verifier::reject_recursive_types(T)]
pub struct ExArrayVec<T, const CAP: usize>(ArrayVec<T, CAP>);

/// The moves that a list holds, in the order in which they were pushed.
pub uninterp spec fn listed(list: ArrayVec<Move, 1024>) -> Seq<Move>;

/// `ArrayVec::new`: a list that holds nothing.
#[verifier::external_body]
pub(crate) fn list_new() -> (list: MovesList)
    ensures
        listed(list) == Seq::<Move>::empty(),
{
    ArrayVec::new()
}

/// `ArrayVec::len`: the number of moves in the list, never above the
/// capacity.
#[verifier::external_body]
pub(crate) fn list_len(list: &MovesList) -> (n: usize)
    ensures
        n == listed(*list).len(),
        n <= MOVES_CAPACITY,
{
    list.len()
}

/// `ArrayVec::push`: appends `m`. The outside function panics on a full
/// list, so a full list is excluded.
#[verifier::external_body]
pub(crate) fn list_push(list: &mut MovesList, m: Move)
    requires
        listed(*old(list)).len() < MOVES_CAPACITY,
    ensures
        listed(*final(list)) == listed(*old(list)).push(m),
{
    list.push(m)
}

/// Indexing of an `ArrayVec` through its slice: the move at place `i`.
#[verifier::external_body]
pub(crate) fn list_get(list: &MovesList, i: usize) -> (m: Move)
    requires
        i < listed(*list).len(),
    ensures
        m == listed(*list)[i as int],
{
    list[i]
}

/// Whether `m` is in the list.
pub fn list_contains(list: &MovesList, m: Move) -> (b: bool)
    ensures
        b == listed(*list).contains(m),
{
    let n = list_len(list);
    let mut i: usize = 0;
    while i < n
        invariant
            i <= n,
            n == listed(*list).len(),
            forall|j: int| 0 <= j < i ==> listed(*list)[j] != m,
        decreases n - i,
    {
        if list_get(list, i) == m {
            return true;
        }
        i = i + 1;
    }
    false
}

/// Whether one of the moves in the list ends on `target`.
pub fn list_reaches(list: &MovesList, target: Square) -> (b: bool)
    ensures
        b == reaches(listed(*list), target),
{
    let n = list_len(list);
    let mut i: usize = 0;
    while i < n
        invariant
            i <= n,
            n == listed(*list).len(),
            forall|j: int| 0 <= j < i ==> (#[trigger] listed(*list)[j]).to != target,
        decreases n - i,
    {
        if list_get(list, i).to == target {
            return true;
        }
        i = i + 1;
    }
    false
}

/// `ArrayVec::retain`, with `BoardRepr::is_safe_move` as the test: keeps the
/// moves that are safe for `side` on `board_repr`, in their order, and drops
/// the others.
#[verifier::external_body]
fn retain_safe(moves: &mut MovesList, board_repr: &BoardRepr, side: Color)
    requires
        board_repr@.all_keep_king(listed(*old(moves)), side),
    ensures
        listed(*final(moves)) == listed(*old(moves)).filter(board_repr@.safe_pred(side)),
{
    moves.retain(|m| board_repr.is_safe_move(*m, side))
}

/// The pseudo-legal moves from `from` in a list of their own.
pub fn moves_from(
    board_repr: &BoardRepr,
    side_to_move: Color,
    from: Square,
    which_half: Option<PieceHalf>,
) -> (out: MovesList)
    ensures
        listed(out) == board_repr@.pseudo_moves(side_to_move, from, which_half),
{
    proof {
        crate::generation::lemma_pseudo_moves_bound(board_repr@, side_to_move, from, which_half);
    }
    let out = get_moves_from_square(list_new(), board_repr, side_to_move, from, which_half);
    assert(listed(out) =~= board_repr@.pseudo_moves(side_to_move, from, which_half));
    out
}

/// Appends the move from `from` to `to`, tagged with `half`.
fn add_move(moves: &mut MovesList, from: Square, to: Square, half: Option<PieceHalf>)
    requires
        listed(*old(moves)).len() < MOVES_CAPACITY,
    ensures
        listed(*final(moves)) == listed(*old(moves)) + one(from, to, half),
{
    list_push(moves, Move { from, to, which_half: half });
    assert(listed(*moves) =~= listed(*old(moves)) + one(from, to, half));
}

/// Appends the move from `from` to `to` if `cond` holds.
fn add_when(cond: bool, moves: &mut MovesList, from: Square, to: Square, half: Option<PieceHalf>)
    requires
        listed(*old(moves)).len() + one_if(cond, from, to, half).len() <= MOVES_CAPACITY,
    ensures
        listed(*final(moves)) == listed(*old(moves)) + one_if(cond, from, to, half),
{
    if cond {
        add_move(moves, from, to, half);
    } else {
        assert(listed(*moves) =~= listed(*old(moves)) + one_if(cond, from, to, half));
    }
}

/// Tries `square` as the end of a slide or jump from `from`: appends the
/// move if the piece may land there, and says whether a slide goes on beyond
/// it, which it does exactly over an empty square.
fn try_add(
    board_repr: &BoardRepr,
    side_to_move: Color,
    from: Square,
    square: Square,
    which_half: Option<PieceHalf>,
    moves: &mut MovesList,
) -> (on: bool)
    requires
        listed(*old(moves)).len() + one_if(
            board_repr@.may_land(side_to_move, from, square),
            from,
            square,
            which_half,
        ).len() <= MOVES_CAPACITY,
    ensures
        listed(*final(moves)) == listed(*old(moves)) + one_if(
            board_repr@.may_land(side_to_move, from, square),
            from,
            square,
            which_half,
        ),
        on == (board_repr@.at(square) is None),
{
    match board_repr.get(square) {
        None => {
            add_when(true, moves, from, square, which_half);
            true
        },
        Some(dst_piece) => {
            let lands = if dst_piece.color() != side_to_move {
                true
            } else {
                let src_unitary = match board_repr.get(from) {
                    Some(src_piece) => src_piece.is_unitary(),
                    None => false,
                };
                match dst_piece.piece() {
                    Piece::Unitary(UnitaryPiece::King) => false,
                    Piece::Unitary(_) => src_unitary,
                    Piece::Combination(_) => false,
                }
            };
            add_when(lands, moves, from, square, which_half);
            false
        },
    }
}

/// Appends the moves of one slide from `from` in direction `(df, dr)`.
#[verifier::rlimit(40)]
fn slide(
    board_repr: &BoardRepr,
    side_to_move: Color,
    from: Square,
    df: i8,
    dr: i8,
    which_half: Option<PieceHalf>,
    moves: &mut MovesList,
)
    requires
        is_direction(df as int, dr as int),
        listed(*old(moves)).len() + board_repr@.ray(
            side_to_move,
            from,
            from,
            df as int,
            dr as int,
            which_half,
        ).len() <= MOVES_CAPACITY,
    ensures
        listed(*final(moves)) == listed(*old(moves)) + board_repr@.ray(
            side_to_move,
            from,
            from,
            df as int,
            dr as int,
            which_half,
        ),
{
    let ghost pos = board_repr@;
    let ghost start = listed(*moves);
    let ghost whole = pos.ray(side_to_move, from, from, df as int, dr as int, which_half);
    let mut current_square = from;
    let mut on = true;
    assert(start + whole =~= start + whole);
    while on
        invariant
            is_direction(df as int, dr as int),
            pos == board_repr@,
            whole == pos.ray(side_to_move, from, from, df as int, dr as int, which_half),
            start.len() + whole.len() <= MOVES_CAPACITY,
            on ==> listed(*moves) + pos.ray(
                side_to_move,
                from,
                current_square,
                df as int,
                dr as int,
                which_half,
            ) =~= start + whole,
            !on ==> listed(*moves) =~= start + whole,
        decreases room(current_square, df as int, dr as int) + (if on { 1int } else { 0int }),
    {
        let ghost before = listed(*moves);
        let ghost rest = pos.ray(
            side_to_move,
            from,
            current_square,
            df as int,
            dr as int,
            which_half,
        );
        match current_square.shifted(df, dr) {
            None => {
                assert(rest =~= Seq::<Move>::empty());
                on = false;
            },
            Some(next) => {
                let ghost hit = one_if(
                    pos.may_land(side_to_move, from, next),
                    from,
                    next,
                    which_half,
                );
                let ghost beyond = if pos.at(next) is None {
                    pos.ray(side_to_move, from, next, df as int, dr as int, which_half)
                } else {
                    Seq::<Move>::empty()
                };
                assert(rest == hit + beyond);
                assert((before + rest).len() == (start + whole).len());
                on = try_add(board_repr, side_to_move, from, next, which_half, moves);
                assert((before + hit) + beyond =~= before + (hit + beyond));
                current_square = next;
            },
        }
    }
}

/// Appends the moves of a rook on `from`.
pub fn get_rook_moves_from_square(
    board_repr: &BoardRepr,
    side_to_move: Color,
    from: Square,
    which_half: Option<PieceHalf>,
    moves: &mut MovesList,
)
    requires
        listed(*old(moves)).len() + board_repr@.rook_moves(side_to_move, from, which_half).len()
            <= MOVES_CAPACITY,
    ensures
        listed(*final(moves)) == listed(*old(moves)) + board_repr@.rook_moves(
            side_to_move,
            from,
            which_half,
        ),
{
    reveal(Position::rook_moves);
    slide(board_repr, side_to_move, from, -1, 0, which_half, moves);
    slide(board_repr, side_to_move, from, 1, 0, which_half, moves);
    slide(board_repr, side_to_move, from, 0, 1, which_half, moves);
    slide(board_repr, side_to_move, from, 0, -1, which_half, moves);
    assert(listed(*moves) =~= listed(*old(moves)) + board_repr@.rook_moves(
        side_to_move,
        from,
        which_half,
    ));
}

/// Appends the moves of a bishop on `from`.
pub fn get_bishop_moves_from_square(
    board_repr: &BoardRepr,
    side_to_move: Color,
    from: Square,
    which_half: Option<PieceHalf>,
    moves: &mut MovesList,
)
    requires
        listed(*old(moves)).len() + board_repr@.bishop_moves(side_to_move, from, which_half).len()
            <= MOVES_CAPACITY,
    ensures
        listed(*final(moves)) == listed(*old(moves)) + board_repr@.bishop_moves(
            side_to_move,
            from,
            which_half,
        ),
{
    reveal(Position::bishop_moves);
    slide(board_repr, side_to_move, from, 1, 1, which_half, moves);
    slide(board_repr, side_to_move, from, -1, 1, which_half, moves);
    slide(board_repr, side_to_move, from, 1, -1, which_half, moves);
    slide(board_repr, side_to_move, from, -1, -1, which_half, moves);
    assert(listed(*moves) =~= listed(*old(moves)) + board_repr@.bishop_moves(
        side_to_move,
        from,
        which_half,
    ));
}

/// Appends the move of one jump by `(df, dr)`, if there is one.
fn jump(
    board_repr: &BoardRepr,
    side_to_move: Color,
    from: Square,
    df: i8,
    dr: i8,
    which_half: Option<PieceHalf>,
    moves: &mut MovesList,
)
    requires
        -2 <= df <= 2,
        -2 <= dr <= 2,
        listed(*old(moves)).len() + board_repr@.hop(
            side_to_move,
            from,
            df as int,
            dr as int,
            which_half,
        ).len() <= MOVES_CAPACITY,
    ensures
        listed(*final(moves)) == listed(*old(moves)) + board_repr@.hop(
            side_to_move,
            from,
            df as int,
            dr as int,
            which_half,
        ),
{
    reveal(Position::hop);
    match from.shifted(df, dr) {
        Some(square) => {
            try_add(board_repr, side_to_move, from, square, which_half, moves);
        },
        None => {
            assert(listed(*moves) =~= listed(*old(moves)) + Seq::<Move>::empty());
        },
    }
}

/// Appends the moves of a knight on `from`.
#[verifier::rlimit(40)]
pub fn get_knight_moves_from_square(
    board_repr: &BoardRepr,
    side_to_move: Color,
    from: Square,
    which_half: Option<PieceHalf>,
    moves: &mut MovesList,
)
    requires
        listed(*old(moves)).len() + board_repr@.knight_moves(side_to_move, from, which_half).len()
            <= MOVES_CAPACITY,
    ensures
        listed(*final(moves)) == listed(*old(moves)) + board_repr@.knight_moves(
            side_to_move,
            from,
            which_half,
        ),
{
    reveal(Position::knight_moves);
    let ghost pos = board_repr@;
    let ghost base = listed(*moves);
    let ghost s1 = pos.hop(side_to_move, from, -2, 1, which_half);
    let ghost s2 = s1 + pos.hop(side_to_move, from, 2, 1, which_half);
    let ghost s3 = s2 + pos.hop(side_to_move, from, -2, -1, which_half);
    let ghost s4 = s3 + pos.hop(side_to_move, from, 2, -1, which_half);
    let ghost s5 = s4 + pos.hop(side_to_move, from, -1, 2, which_half);
    let ghost s6 = s5 + pos.hop(side_to_move, from, -1, -2, which_half);
    let ghost s7 = s6 + pos.hop(side_to_move, from, 1, 2, which_half);
    let ghost s8 = s7 + pos.hop(side_to_move, from, 1, -2, which_half);
    assert(pos.knight_moves(side_to_move, from, which_half) == s8);
    jump(board_repr, side_to_move, from, -2, 1, which_half, moves);
    jump(board_repr, side_to_move, from, 2, 1, which_half, moves);
    assert(listed(*moves) =~= base + s2);
    jump(board_repr, side_to_move, from, -2, -1, which_half, moves);
    assert(listed(*moves) =~= base + s3);
    jump(board_repr, side_to_move, from, 2, -1, which_half, moves);
    assert(listed(*moves) =~= base + s4);
    jump(board_repr, side_to_move, from, -1, 2, which_half, moves);
    assert(listed(*moves) =~= base + s5);
    jump(board_repr, side_to_move, from, -1, -2, which_half, moves);
    assert(listed(*moves) =~= base + s6);
    jump(board_repr, side_to_move, from, 1, 2, which_half, moves);
    assert(listed(*moves) =~= base + s7);
    jump(board_repr, side_to_move, from, 1, -2, which_half, moves);
    assert(listed(*moves) =~= base + s8);
}

/// Appends the move of a king by one step `(df, dr)`, if there is one.
fn step_king(
    board_repr: &BoardRepr,
    side_to_move: Color,
    from: Square,
    df: i8,
    dr: i8,
    which_half: Option<PieceHalf>,
    moves: &mut MovesList,
)
    requires
        -1 <= df <= 1,
        -1 <= dr <= 1,
        listed(*old(moves)).len() + board_repr@.king_step(
            side_to_move,
            from,
            df as int,
            dr as int,
            which_half,
        ).len() <= MOVES_CAPACITY,
    ensures
        listed(*final(moves)) == listed(*old(moves)) + board_repr@.king_step(
            side_to_move,
            from,
            df as int,
            dr as int,
            which_half,
        ),
{
    reveal(Position::king_step);
    match from.shifted(df, dr) {
        Some(square) => {
            let friendly = match board_repr.get(square) {
                Some(piece) => piece.color() == side_to_move,
                None => false,
            };
            add_when(!friendly, moves, from, square, which_half);
        },
        None => {
            assert(listed(*moves) =~= listed(*old(moves)) + Seq::<Move>::empty());
        },
    }
}

/// Whether the square on `file` and `rank` is empty.
fn is_vacant(board_repr: &BoardRepr, file: File, rank: Rank) -> (b: bool)
    ensures
        b == board_repr@.vacant(file.idx(), rank.idx()),
{
    board_repr.get(Square::from_coords(file, rank)).is_none()
}

/// Whether the square on `file` and `rank` holds a rook, alone or in a
/// composite.
fn holds_rook(board_repr: &BoardRepr, file: File, rank: Rank) -> (b: bool)
    ensures
        b == board_repr@.rook_at(file.idx(), rank.idx()),
{
    match board_repr.get(Square::from_coords(file, rank)) {
        Some(piece) => piece.piece().contains(UnitaryPiece::Rook),
        None => false,
    }
}

/// The rank on which the pieces of `side` start.
pub fn home_rank(side: Color) -> (r: Rank)
    ensures
        r.idx() == back_rank(side),
{
    match side {
        Color::White => Rank::First,
        Color::Black => Rank::Eighth,
    }
}

/// The number of the king-side castling right of `side`.
pub fn rights_base(side: Color) -> (i: usize)
    ensures
        i == crate::generation::right_base(side),
{
    match side {
        Color::White => 0,
        Color::Black => 2,
    }
}

/// Whether `side` may castle on the king side, its king being at home.
pub fn can_castle_short(board_repr: &BoardRepr, side: Color) -> (b: bool)
    ensures
        b == board_repr@.short_castle(side),
{
    let rank = home_rank(side);
    board_repr.castling_rights[rights_base(side)] && is_vacant(board_repr, File::F, rank)
        && is_vacant(board_repr, File::G, rank) && holds_rook(board_repr, File::H, rank)
}

/// Whether `side` may castle on the queen side, its king being at home.
pub fn can_castle_long(board_repr: &BoardRepr, side: Color) -> (b: bool)
    ensures
        b == board_repr@.long_castle(side),
{
    let rank = home_rank(side);
    board_repr.castling_rights[rights_base(side) + 1] && is_vacant(board_repr, File::B, rank)
        && is_vacant(board_repr, File::C, rank) && is_vacant(board_repr, File::D, rank)
        && holds_rook(board_repr, File::A, rank)
}

/// Appends the moves of a king on `from`.
#[verifier::rlimit(40)]
pub fn get_king_moves_from_square(
    board_repr: &BoardRepr,
    side_to_move: Color,
    from: Square,
    which_half: Option<PieceHalf>,
    moves: &mut MovesList,
)
    requires
        listed(*old(moves)).len() + board_repr@.king_moves(side_to_move, from, which_half).len()
            <= MOVES_CAPACITY,
    ensures
        listed(*final(moves)) == listed(*old(moves)) + board_repr@.king_moves(
            side_to_move,
            from,
            which_half,
        ),
{
    reveal(Position::king_moves);
    let ghost pos = board_repr@;
    let ghost base = listed(*moves);
    let ghost s1 = pos.king_step(side_to_move, from, -1, 1, which_half);
    let ghost s2 = s1 + pos.king_step(side_to_move, from, 0, 1, which_half);
    let ghost s3 = s2 + pos.king_step(side_to_move, from, 1, 1, which_half);
    let ghost s4 = s3 + pos.king_step(side_to_move, from, -1, 0, which_half);
    let ghost s5 = s4 + pos.king_step(side_to_move, from, 1, 0, which_half);
    let ghost s6 = s5 + pos.king_step(side_to_move, from, -1, -1, which_half);
    let ghost s7 = s6 + pos.king_step(side_to_move, from, 0, -1, which_half);
    let ghost s8 = s7 + pos.king_step(side_to_move, from, 1, -1, which_half);
    let ghost castles = pos.castles(side_to_move, from, which_half);
    assert(pos.king_moves(side_to_move, from, which_half) == s8 + castles);
    assert(s8.len() <= (s8 + castles).len());
    step_king(board_repr, side_to_move, from, -1, 1, which_half, moves);
    step_king(board_repr, side_to_move, from, 0, 1, which_half, moves);
    assert(listed(*moves) =~= base + s2);
    step_king(board_repr, side_to_move, from, 1, 1, which_half, moves);
    assert(listed(*moves) =~= base + s3);
    step_king(board_repr, side_to_move, from, -1, 0, which_half, moves);
    assert(listed(*moves) =~= base + s4);
    step_king(board_repr, side_to_move, from, 1, 0, which_half, moves);
    assert(listed(*moves) =~= base + s5);
    step_king(board_repr, side_to_move, from, -1, -1, which_half, moves);
    assert(listed(*moves) =~= base + s6);
    step_king(board_repr, side_to_move, from, 0, -1, which_half, moves);
    assert(listed(*moves) =~= base + s7);
    step_king(board_repr, side_to_move, from, 1, -1, which_half, moves);
    assert(listed(*moves) =~= base + s8);
    let ghost steps = listed(*moves);
    let rank = home_rank(side_to_move);
    if from == Square::from_coords(File::E, rank) {
        assert(from == king_home(side_to_move));
        let short = can_castle_short(board_repr, side_to_move);
        add_when(short, moves, from, Square::from_coords(File::G, rank), which_half);
        let long = can_castle_long(board_repr, side_to_move);
        add_when(long, moves, from, Square::from_coords(File::C, rank), which_half);
    } else {
        assert(from != king_home(side_to_move));
    }
    assert(listed(*moves) =~= steps + castles);
    assert(listed(*moves) =~= base + (s8 + castles));
}

/// The direction in which the pawns of `side` advance.
fn advance_of(side: Color) -> (d: i8)
    ensures
        d == forward(side),
{
    match side {
        Color::White => 1,
        Color::Black => -1,
    }
}

/// Appends the advances of a pawn on `from`.
fn advance_pawn(
    board_repr: &BoardRepr,
    side_to_move: Color,
    from: Square,
    which_half: Option<PieceHalf>,
    moves: &mut MovesList,
)
    requires
        listed(*old(moves)).len() + board_repr@.pawn_advance(side_to_move, from, which_half).len()
            <= MOVES_CAPACITY,
    ensures
        listed(*final(moves)) == listed(*old(moves)) + board_repr@.pawn_advance(
            side_to_move,
            from,
            which_half,
        ),
{
    reveal(Position::pawn_advance);
    let dr = advance_of(side_to_move);
    let start_rank = match side_to_move {
        Color::White => Rank::Second,
        Color::Black => Rank::Seventh,
    };
    match from.shifted(0, dr) {
        None => {
            assert(listed(*moves) =~= listed(*old(moves)) + Seq::<Move>::empty());
        },
        Some(ahead) => {
            let ahead_free = board_repr.get(ahead).is_none();
            let ghost near = one_if(ahead_free, from, ahead, which_half);
            add_when(ahead_free, moves, from, ahead, which_half);
            match ahead.shifted(0, dr) {
                None => {
                    assert(listed(*moves) =~= listed(*old(moves)) + (near + Seq::<Move>::empty()));
                },
                Some(far) => {
                    let both_free = ahead_free && board_repr.get(far).is_none() && from.rank()
                        == start_rank;
                    add_when(both_free, moves, from, far, which_half);
                    assert(listed(*moves) =~= listed(*old(moves)) + (near + one_if(
                        both_free,
                        from,
                        far,
                        which_half,
                    )));
                },
            }
        },
    }
}

/// Appends the capture of a pawn towards file offset `df`, if there is one.
fn capture_with_pawn(
    board_repr: &BoardRepr,
    side_to_move: Color,
    from: Square,
    df: i8,
    which_half: Option<PieceHalf>,
    moves: &mut MovesList,
)
    requires
        -1 <= df <= 1,
        listed(*old(moves)).len() + board_repr@.pawn_capture(
            side_to_move,
            from,
            df as int,
            which_half,
        ).len() <= MOVES_CAPACITY,
    ensures
        listed(*final(moves)) == listed(*old(moves)) + board_repr@.pawn_capture(
            side_to_move,
            from,
            df as int,
            which_half,
        ),
{
    reveal(Position::pawn_capture);
    match from.shifted(df, advance_of(side_to_move)) {
        None => {
            assert(listed(*moves) =~= listed(*old(moves)) + Seq::<Move>::empty());
        },
        Some(to) => {
            let enemy = match board_repr.get(to) {
                Some(piece) => piece.color() != side_to_move,
                None => false,
            };
            add_when(enemy, moves, from, to, which_half);
        },
    }
}

/// Appends the merge of a lone pawn towards file offset `df`, if there is
/// one.
fn merge_pawn(
    board_repr: &BoardRepr,
    side_to_move: Color,
    from: Square,
    df: i8,
    which_half: Option<PieceHalf>,
    moves: &mut MovesList,
)
    requires
        -1 <= df <= 1,
        listed(*old(moves)).len() + board_repr@.pawn_merge(
            side_to_move,
            from,
            df as int,
            which_half,
        ).len() <= MOVES_CAPACITY,
    ensures
        listed(*final(moves)) == listed(*old(moves)) + board_repr@.pawn_merge(
            side_to_move,
            from,
            df as int,
            which_half,
        ),
{
    reveal(Position::pawn_merge);
    match from.shifted(df, advance_of(side_to_move)) {
        None => {
            assert(listed(*moves) =~= listed(*old(moves)) + Seq::<Move>::empty());
        },
        Some(to) => {
            let lone_pawn = match board_repr.get(from) {
                Some(piece) => piece.color() == side_to_move && match piece.piece() {
                    Piece::Unitary(UnitaryPiece::Pawn) => true,
                    _ => false,
                },
                None => false,
            };
            let partner = match board_repr.get(to) {
                Some(piece) => piece.color() == side_to_move && piece.is_unitary(),
                None => false,
            };
            add_when(lone_pawn && partner, moves, from, to, which_half);
        },
    }
}

/// Appends the en-passant move of a pawn towards file offset `df`, if there
/// is one.
fn pass_pawn(
    board_repr: &BoardRepr,
    side_to_move: Color,
    from: Square,
    df: i8,
    which_half: Option<PieceHalf>,
    moves: &mut MovesList,
)
    requires
        -1 <= df <= 1,
        listed(*old(moves)).len() + board_repr@.pawn_en_passant(
            side_to_move,
            from,
            df as int,
            which_half,
        ).len() <= MOVES_CAPACITY,
    ensures
        listed(*final(moves)) == listed(*old(moves)) + board_repr@.pawn_en_passant(
            side_to_move,
            from,
            df as int,
            which_half,
        ),
{
    reveal(Position::pawn_en_passant);
    match from.shifted(df, advance_of(side_to_move)) {
        None => {
            assert(listed(*moves) =~= listed(*old(moves)) + Seq::<Move>::empty());
        },
        Some(to) => {
            let beside_target = match (from.shifted(df, 0), board_repr.en_passant_square) {
                (Some(beside), Some(target)) => beside == target,
                _ => false,
            };
            let free = board_repr.get(to).is_none();
            add_when(beside_target && free, moves, from, to, which_half);
        },
    }
}

/// Appends the moves of a pawn on `from`.
fn get_pawn_moves_from_square(
    board_repr: &BoardRepr,
    side_to_move: Color,
    from: Square,
    which_half: Option<PieceHalf>,
    moves: &mut MovesList,
)
    requires
        listed(*old(moves)).len() + board_repr@.pawn_moves(side_to_move, from, which_half).len()
            <= MOVES_CAPACITY,
    ensures
        listed(*final(moves)) == listed(*old(moves)) + board_repr@.pawn_moves(
            side_to_move,
            from,
            which_half,
        ),
{
    reveal(Position::pawn_moves);
    advance_pawn(board_repr, side_to_move, from, which_half, moves);
    capture_with_pawn(board_repr, side_to_move, from, -1, which_half, moves);
    capture_with_pawn(board_repr, side_to_move, from, 1, which_half, moves);
    merge_pawn(board_repr, side_to_move, from, 1, which_half, moves);
    merge_pawn(board_repr, side_to_move, from, -1, which_half, moves);
    pass_pawn(board_repr, side_to_move, from, -1, which_half, moves);
    pass_pawn(board_repr, side_to_move, from, 1, which_half, moves);
    assert(listed(*moves) =~= listed(*old(moves)) + board_repr@.pawn_moves(
        side_to_move,
        from,
        which_half,
    ));
}

/// Appends the moves that the unitary piece `piece` has from `from`.
fn add_unitary(
    board_repr: &BoardRepr,
    side_to_move: Color,
    from: Square,
    piece: UnitaryPiece,
    which_half: Option<PieceHalf>,
    moves: &mut MovesList,
)
    requires
        listed(*old(moves)).len() + board_repr@.unit_moves(
            side_to_move,
            from,
            piece,
            which_half,
        ).len() <= MOVES_CAPACITY,
    ensures
        listed(*final(moves)) == listed(*old(moves)) + board_repr@.unit_moves(
            side_to_move,
            from,
            piece,
            which_half,
        ),
{
    match piece {
        UnitaryPiece::Pawn => get_pawn_moves_from_square(
            board_repr,
            side_to_move,
            from,
            which_half,
            moves,
        ),
        UnitaryPiece::King => get_king_moves_from_square(
            board_repr,
            side_to_move,
            from,
            which_half,
            moves,
        ),
        UnitaryPiece::Queen => {
            get_rook_moves_from_square(board_repr, side_to_move, from, which_half, moves);
            get_bishop_moves_from_square(board_repr, side_to_move, from, which_half, moves);
            assert(listed(*moves) =~= listed(*old(moves)) + board_repr@.unit_moves(
                side_to_move,
                from,
                piece,
                which_half,
            ));
        },
        UnitaryPiece::Rook => get_rook_moves_from_square(
            board_repr,
            side_to_move,
            from,
            which_half,
            moves,
        ),
        UnitaryPiece::Bishop => get_bishop_moves_from_square(
            board_repr,
            side_to_move,
            from,
            which_half,
            moves,
        ),
        UnitaryPiece::Knight => get_knight_moves_from_square(
            board_repr,
            side_to_move,
            from,
            which_half,
            moves,
        ),
    }
}

/// What the generator leaves in a list that held `prior`: a half named on a
/// unitary piece of `side` empties the list; in every other case the
/// pseudo-legal moves from `from` are appended.
pub open spec fn generated(
    prior: Seq<Move>,
    pos: Position,
    side: Color,
    from: Square,
    half: Option<PieceHalf>,
) -> Seq<Move> {
    if half is Some && pos.owned(from, side) && pos.at(from).unwrap().body() is Unitary {
        Seq::empty()
    } else {
        prior + pos.pseudo_moves(side, from, half)
    }
}

/// The generator: appends to `moves` the pseudo-legal moves that the piece
/// on `from` has for `side_to_move`, whether or not they leave the mover's
/// king in check.
#[verifier::rlimit(40)]
pub fn get_moves_from_square(
    moves: MovesList,
    board_repr: &BoardRepr,
    side_to_move: Color,
    from: Square,
    which_half: Option<PieceHalf>,
) -> (out: MovesList)
    requires
        listed(moves).len() + board_repr@.pseudo_moves(side_to_move, from, which_half).len()
            <= MOVES_CAPACITY,
    ensures
        listed(out) == generated(listed(moves), board_repr@, side_to_move, from, which_half),
{
    let mut moves = moves;
    let ghost prior = listed(moves);
    let piece = match board_repr.get(from) {
        Some(piece) => {
            if piece.color() == side_to_move {
                piece
            } else {
                assert(prior =~= prior + Seq::<Move>::empty());
                return moves;
            }
        },
        None => {
            assert(prior =~= prior + Seq::<Move>::empty());
            return moves;
        },
    };
    match piece.piece() {
        Piece::Unitary(unit) => {
            if which_half.is_some() {
                return list_new();
            }
            add_unitary(board_repr, side_to_move, from, unit, which_half, &mut moves);
        },
        Piece::Combination(combo) => {
            match which_half {
                Some(half) => {
                    add_unitary(
                        board_repr,
                        side_to_move,
                        from,
                        combo.get(half),
                        which_half,
                        &mut moves,
                    );
                },
                None => {
                    add_unitary(
                        board_repr,
                        side_to_move,
                        from,
                        combo.get(PieceHalf::Left),
                        which_half,
                        &mut moves,
                    );
                    add_unitary(
                        board_repr,
                        side_to_move,
                        from,
                        combo.get(PieceHalf::Right),
                        which_half,
                        &mut moves,
                    );
                    assert(listed(moves) =~= prior + board_repr@.pseudo_moves(
                        side_to_move,
                        from,
                        which_half,
                    ));
                },
            }
        },
    }
    moves
}

/// The first legal move of `side_to_move`, or `None` if it has none. The
/// search stops at the first square that has a legal move; the result is the
/// first of all legal moves nonetheless.
#[verifier::rlimit(40)]
pub fn find_any_legal_move(board_repr: &BoardRepr, side_to_move: Color) -> (found: Option<Move>)
    requires
        board_repr@.kings_kept(side_to_move),
    ensures
        found == (if board_repr@.legal_moves(side_to_move).len() > 0 {
            Some(board_repr@.legal_moves(side_to_move)[0])
        } else {
            None
        }),
{
    let ghost pos = board_repr@;
    let ghost safe = pos.safe_pred(side_to_move);
    let mut i: u32 = 0;
    while i < 64
        invariant
            i <= 64,
            pos == board_repr@,
            safe == pos.safe_pred(side_to_move),
            pos.kings_kept(side_to_move),
            pos.pseudo_below(side_to_move, i as int).filter(safe).len() == 0,
        decreases 64 - i,
    {
        let square = Square::new(i);
        let mut moves = moves_from(board_repr, side_to_move, square, None);
        proof {
            lemma_kings_kept_on_square(pos, side_to_move, i as int);
        }
        retain_safe(&mut moves, board_repr, side_to_move);
        proof {
            let before = pos.pseudo_below(side_to_move, i as int);
            let here = pos.pseudo_moves(side_to_move, square, None);
            assert(pos.pseudo_below(side_to_move, i + 1) == before + here);
            Seq::filter_distributes_over_add(before, here, safe);
            assert(before.filter(safe) + here.filter(safe) =~= here.filter(safe));
        }
        if list_len(&moves) > 0 {
            proof {
                let upto = pos.pseudo_below(side_to_move, i + 1);
                let all = pos.pseudo_below(side_to_move, 64);
                lemma_pseudo_prefix(pos, side_to_move, i + 1, 64);
                let tail = all.skip(upto.len() as int);
                assert(all =~= upto + tail);
                Seq::filter_distributes_over_add(upto, tail, safe);
            }
            return Some(list_get(&moves, 0));
        }
        i = i + 1;
    }
    None
}

/// The legal moves of `side_to_move`: its pseudo-legal moves, square by
/// square in the order of the squares' numbers, less those that leave its
/// own king in check. The pseudo-legal moves must fit into the list.
pub fn get_all_legal_moves(board_repr: &BoardRepr, side_to_move: Color) -> (out: MovesList)
    requires
        board_repr@.kings_kept(side_to_move),
        board_repr@.pseudo_below(side_to_move, 64).len() <= MOVES_CAPACITY,
    ensures
        listed(out) == board_repr@.legal_moves(side_to_move),
{
    let ghost pos = board_repr@;
    let mut moves = list_new();
    let mut i: u32 = 0;
    assert(listed(moves) =~= pos.pseudo_below(side_to_move, 0));
    while i < 64
        invariant
            i <= 64,
            pos == board_repr@,
            pos.pseudo_below(side_to_move, 64).len() <= MOVES_CAPACITY,
            listed(moves) == pos.pseudo_below(side_to_move, i as int),
        decreases 64 - i,
    {
        let square = Square::new(i);
        proof {
            lemma_pseudo_prefix(pos, side_to_move, i + 1, 64);
        }
        moves = get_moves_from_square(moves, board_repr, side_to_move, square, None);
        i = i + 1;
    }
    retain_safe(&mut moves, board_repr, side_to_move);
    moves
}

/// The legality filter for one square: the generator, then the test of each
/// move in the list for the safety of the king of `side_to_move`. The test
/// is applied to the moves that the list held before as well.
pub fn get_legal_moves_from_square(
    moves: MovesList,
    board_repr: &BoardRepr,
    side_to_move: Color,
    from: Square,
    which_half: Option<PieceHalf>,
) -> (out: MovesList)
    requires
        board_repr@.all_keep_king(
            generated(listed(moves), board_repr@, side_to_move, from, which_half),
            side_to_move,
        ),
        listed(moves).len() + board_repr@.pseudo_moves(side_to_move, from, which_half).len()
            <= MOVES_CAPACITY,
    ensures
        listed(out) == generated(
            listed(moves),
            board_repr@,
            side_to_move,
            from,
            which_half,
        ).filter(board_repr@.safe_pred(side_to_move)),
{
    let mut moves = get_moves_from_square(moves, board_repr, side_to_move, from, which_half);
    retain_safe(&mut moves, board_repr, side_to_move);
    moves
}

/// Whether `side` still has a king after `mv`, if `mv` can be played.
pub fn king_survives(board_repr: &BoardRepr, mv: Move, side: Color) -> (kept: bool)
    ensures
        kept == board_repr@.keeps_king(mv, side),
{
    let mut board = *board_repr;
    if board.play(mv).is_err() {
        return true;
    }
    board.find_king(side).is_some()
}

/// Whether `side` still has a king after each move of the list that can be
/// played.
pub fn kings_survive(board_repr: &BoardRepr, moves: &MovesList, side: Color) -> (kept: bool)
    ensures
        kept == board_repr@.all_keep_king(listed(*moves), side),
{
    let n = list_len(moves);
    let mut k: usize = 0;
    while k < n
        invariant
            k <= n,
            n == listed(*moves).len(),
            forall|j: int| 0 <= j < k ==> board_repr@.keeps_king(#[trigger] listed(*moves)[j], side),
        decreases n - k,
    {
        if !king_survives(board_repr, list_get(moves, k), side) {
            return false;
        }
        k = k + 1;
    }
    true
}

/// Whether the legal moves of `side` can be listed and its king looked up:
/// `side` has a king, keeps it through each of its pseudo-legal moves that
/// can be played, and these moves fit into a list.
#[verifier::rlimit(40)]
pub fn is_searchable(board_repr: &BoardRepr, side: Color) -> (ok: bool)
    ensures
        ok == board_repr@.searchable(side),
{
    let ghost pos = board_repr@;
    if board_repr.find_king(side).is_none() {
        return false;
    }
    let mut total: usize = 0;
    let mut i: u32 = 0;
    while i < 64
        invariant
            i <= 64,
            pos == board_repr@,
            total == pos.pseudo_below(side, i as int).len(),
            total <= MOVES_CAPACITY,
            pos.all_keep_king(pos.pseudo_below(side, i as int), side),
        decreases 64 - i,
    {
        let moves = moves_from(board_repr, side, Square::new(i), None);
        let ghost before = pos.pseudo_below(side, i as int);
        let ghost here = pos.pseudo_moves(side, Square::of(i as int), None);
        proof {
            lemma_pseudo_prefix(pos, side, i + 1, 64);
            assert(pos.pseudo_below(side, i + 1) == before + here);
        }
        let n = list_len(&moves);
        if n > MOVES_CAPACITY - total {
            return false;
        }
        if !kings_survive(board_repr, &moves, side) {
            proof {
                let k = choose|k: int| 0 <= k < here.len() && !pos.keeps_king(#[trigger] here[k], side);
                let all = pos.pseudo_below(side, 64);
                let upto = before + here;
                assert(upto[before.len() + k] == here[k]);
                assert(all.take(upto.len() as int)[before.len() + k] == all[before.len() + k]);
            }
            return false;
        }
        assert forall|k: int| 0 <= k < (before + here).len() implies pos.keeps_king(
            #[trigger] (before + here)[k],
            side,
        ) by {
            if k < before.len() {
                assert((before + here)[k] == before[k]);
            } else {
                assert((before + here)[k] == here[k - before.len()]);
            }
        }
        total = total + n;
        i = i + 1;
    }
    true
}

} // verus!
