use merging_chess::board_repr::{BoardRepr, IllegalMove};
use merging_chess::engine::{AlphaBetaMinimax, Engine, FirstMove};
use merging_chess::pieces::movement::{
    find_any_legal_move, get_all_legal_moves, get_bishop_moves_from_square,
    get_king_moves_from_square, get_knight_moves_from_square, get_legal_moves_from_square,
    get_moves_from_square, get_rook_moves_from_square, is_searchable, king_survives,
    kings_survive, list_contains, list_reaches, moves_from, Move, MovesList,
};
use merging_chess::pieces::{
    Color, ColorPiece, CombinationPiece, Piece, PieceHalf, UnitaryPiece,
};
use merging_chess::square::{File, Rank, Square};
use merging_chess::strategy::MergingChessStrategy;

fn sq(name: &str) -> Square {
    let bytes = name.as_bytes();
    let file = File::from_index(bytes[0] - b'a').unwrap();
    let rank = Rank::from_index(bytes[1] - b'1').unwrap();
    Square::from_coords(file, rank)
}

fn mv(from: &str, to: &str) -> Move {
    Move { from: sq(from), to: sq(to), which_half: None }
}

fn half(from: &str, to: &str, which: PieceHalf) -> Move {
    Move { from: sq(from), to: sq(to), which_half: Some(which) }
}

fn targets(moves: &MovesList) -> Vec<usize> {
    let mut v: Vec<usize> = moves.iter().map(|m| m.to.index()).collect();
    v.sort();
    v
}

fn squares(names: &[&str]) -> Vec<usize> {
    let mut v: Vec<usize> = names.iter().map(|n| sq(n).index()).collect();
    v.sort();
    v
}

fn kings_only() -> BoardRepr {
    let mut b = BoardRepr::empty();
    b.set(sq("e1"), Some(UnitaryPiece::King.white()));
    b.set(sq("e8"), Some(UnitaryPiece::King.black()));
    b
}

#[test]
fn empty_board_has_nothing() {
    let b = BoardRepr::empty();
    assert!(b.pieces.iter().all(|p| p.is_none()));
    assert_eq!(b.en_passant_square, None);
    assert_eq!(b.side_to_move, Color::White);
    assert_eq!(b.castling_rights, [false; 4]);
    assert_eq!(b.previous_move, None);
    assert!(b.occupied_squares().is_empty());
    assert_eq!(get_all_legal_moves(&kings_only(), Color::Black).len(), 0);
}

#[test]
fn opening_position_is_set_up() {
    let b = BoardRepr::default();
    assert_eq!(b.get(sq("a1")), Some(UnitaryPiece::Rook.white()));
    assert_eq!(b.get(sq("b1")), Some(UnitaryPiece::Knight.white()));
    assert_eq!(b.get(sq("c1")), Some(UnitaryPiece::Bishop.white()));
    assert_eq!(b.get(sq("d1")), Some(UnitaryPiece::Queen.white()));
    assert_eq!(b.get(sq("e1")), Some(UnitaryPiece::King.white()));
    assert_eq!(b.get(sq("h1")), Some(UnitaryPiece::Rook.white()));
    assert_eq!(b.get(sq("e2")), Some(UnitaryPiece::Pawn.white()));
    assert_eq!(b.get(sq("e4")), None);
    assert_eq!(b.get(sq("e7")), Some(UnitaryPiece::Pawn.black()));
    assert_eq!(b.get(sq("d8")), Some(UnitaryPiece::Queen.black()));
    assert_eq!(b.get(sq("e8")), Some(UnitaryPiece::King.black()));
    assert_eq!(b.castling_rights, [true; 4]);
    assert_eq!(b.side_to_move, Color::White);
    assert_eq!(b.occupied_squares().len(), 32);
    assert_eq!(b.occupied_squares()[0], (sq("a1"), UnitaryPiece::Rook.white()));
    assert_eq!(b.occupied_squares()[31], (sq("h8"), UnitaryPiece::Rook.black()));
    assert_eq!(b.king_square(Color::White), sq("e1"));
    assert_eq!(b.king_square(Color::Black), sq("e8"));
    assert_eq!(b.find_king(Color::White), Some(sq("e1")));
    assert_eq!(BoardRepr::empty().find_king(Color::White), None);
}

#[test]
fn opening_position_legal_moves() {
    // Sixteen pawn moves and four knight moves onto empty squares, as in
    // chess, and the fourteen merges that the back rank can make with the
    // pieces next to it.
    let b = BoardRepr::default();
    let moves = get_all_legal_moves(&b, Color::White);
    let onto_empty = moves.iter().filter(|m| b.get(m.to).is_none()).count();
    assert_eq!(onto_empty, 20);
    let merges = moves.iter().filter(|m| b.get(m.to).is_some()).count();
    assert_eq!(merges, 14);
    assert_eq!(moves.len(), 34);
    assert_eq!(get_all_legal_moves(&b, Color::Black).len(), 0);
    assert_eq!(find_any_legal_move(&b, Color::White), Some(moves[0]));
    assert_eq!(moves[0], mv("a1", "b1"));
}

#[test]
fn every_legal_move_can_be_played() {
    let b = BoardRepr::default();
    for m in get_all_legal_moves(&b, Color::White) {
        let mut copy = b;
        assert_eq!(copy.play(m), Ok(()));
        assert_eq!(copy.previous_move, Some(m));
        assert_eq!(copy.side_to_move, Color::Black);
    }
}

#[test]
fn illegal_move_leaves_the_board_unchanged() {
    let mut b = BoardRepr::default();
    let snapshot = b;
    assert_eq!(b.play(mv("e2", "e5")), Err(IllegalMove));
    assert_eq!(b, snapshot);
    assert_eq!(b.play(mv("e4", "e5")), Err(IllegalMove));
    assert_eq!(b, snapshot);
    assert_eq!(b.play(mv("e7", "e5")), Err(IllegalMove));
    assert_eq!(b, snapshot);
    assert_eq!(b.play(half("e2", "e4", PieceHalf::Left)), Err(IllegalMove));
    assert_eq!(b, snapshot);
    assert_eq!(b.play(mv("a1", "h7")), Err(IllegalMove));
    assert_eq!(b, snapshot);
}

#[test]
fn double_push_opens_the_en_passant_window_and_the_next_move_closes_it() {
    let mut b = BoardRepr::default();
    assert_eq!(b.play(mv("e2", "e4")), Ok(()));
    assert_eq!(b.en_passant_square, Some(sq("e4")));
    assert_eq!(b.play(mv("g8", "f6")), Ok(()));
    assert_eq!(b.en_passant_square, None);
    assert_eq!(b.play(mv("d2", "d3")), Ok(()));
    assert_eq!(b.en_passant_square, None);
    assert_eq!(b.play(mv("c7", "c5")), Ok(()));
    assert_eq!(b.en_passant_square, Some(sq("c5")));
}

#[test]
fn en_passant_capture_removes_the_pawn() {
    let mut b = kings_only();
    b.set(sq("e5"), Some(UnitaryPiece::Pawn.white()));
    b.set(sq("d7"), Some(UnitaryPiece::Pawn.black()));
    b.side_to_move = Color::Black;
    assert_eq!(b.play(mv("d7", "d5")), Ok(()));
    assert_eq!(b.en_passant_square, Some(sq("d5")));
    let pawn_moves = moves_from(&b, Color::White, sq("e5"), None);
    assert_eq!(targets(&pawn_moves), squares(&["e6", "d6"]));
    assert_eq!(b.play(mv("e5", "d6")), Ok(()));
    assert_eq!(b.get(sq("d5")), None);
    assert_eq!(b.get(sq("e5")), None);
    assert_eq!(b.get(sq("d6")), Some(UnitaryPiece::Pawn.white()));
    assert_eq!(b.en_passant_square, None);
}

#[test]
fn knights_merge() {
    let mut b = kings_only();
    b.set(sq("b1"), Some(UnitaryPiece::Knight.white()));
    b.set(sq("c3"), Some(UnitaryPiece::Knight.white()));
    assert_eq!(b.play(mv("b1", "c3")), Ok(()));
    let both = CombinationPiece::new(UnitaryPiece::Knight, UnitaryPiece::Knight).unwrap();
    assert_eq!(b.get(sq("c3")), Some(ColorPiece::White(Piece::Combination(both))));
    assert_eq!(b.get(sq("b1")), None);
}

#[test]
fn merge_is_canonical() {
    let mut b = kings_only();
    b.set(sq("a1"), Some(UnitaryPiece::Rook.white()));
    b.set(sq("a4"), Some(UnitaryPiece::Queen.white()));
    assert_eq!(b.play(mv("a1", "a4")), Ok(()));
    let merged = b.get(sq("a4")).unwrap().piece();
    assert_eq!(merged.for_components(), vec![UnitaryPiece::Queen, UnitaryPiece::Rook]);
}

#[test]
fn half_move_splits_a_composite() {
    let mut b = kings_only();
    let combo = CombinationPiece::new(UnitaryPiece::Rook, UnitaryPiece::Knight).unwrap();
    b.set(sq("d4"), Some(combo.white()));
    // The knight is the first component, the rook the second.
    assert_eq!(combo.first(), UnitaryPiece::Knight);
    let knight = moves_from(&b, Color::White, sq("d4"), Some(PieceHalf::Left));
    assert_eq!(knight.len(), 8);
    assert!(knight.iter().all(|m| m.which_half == Some(PieceHalf::Left)));
    let rook = moves_from(&b, Color::White, sq("d4"), Some(PieceHalf::Right));
    assert_eq!(rook.len(), 14);
    let whole = moves_from(&b, Color::White, sq("d4"), None);
    assert_eq!(whole.len(), 22);
    assert!(whole.iter().all(|m| m.which_half == None));

    let mut split = b;
    assert_eq!(split.play(half("d4", "f5", PieceHalf::Left)), Ok(()));
    assert_eq!(split.get(sq("f5")), Some(UnitaryPiece::Knight.white()));
    assert_eq!(split.get(sq("d4")), Some(UnitaryPiece::Rook.white()));

    let mut refused = b;
    assert_eq!(refused.play(half("d4", "f5", PieceHalf::Right)), Err(IllegalMove));
    assert_eq!(refused, b);

    let mut together = b;
    assert_eq!(together.play(mv("d4", "d8")), Ok(()));
    assert_eq!(together.get(sq("d8")), Some(combo.white()));
    assert_eq!(together.get(sq("d4")), None);
}

#[test]
fn half_on_a_unitary_piece_has_no_moves() {
    let b = BoardRepr::default();
    assert_eq!(moves_from(&b, Color::White, sq("b1"), Some(PieceHalf::Left)).len(), 0);
    assert_eq!(moves_from(&b, Color::White, sq("e4"), None).len(), 0);
    assert_eq!(moves_from(&b, Color::White, sq("e7"), None).len(), 0);
    let mut prior = MovesList::new();
    prior.push(mv("a2", "a3"));
    let kept = get_moves_from_square(prior.clone(), &b, Color::White, sq("e4"), None);
    assert_eq!(kept.len(), 1);
    let grown = get_moves_from_square(prior.clone(), &b, Color::White, sq("b2"), None);
    assert_eq!(grown.len(), 3);
    assert_eq!(grown[0], mv("a2", "a3"));
    let dropped =
        get_moves_from_square(prior, &b, Color::White, sq("b1"), Some(PieceHalf::Right));
    assert_eq!(dropped.len(), 0);
}

#[test]
fn sliders_stop_at_pieces() {
    let mut b = kings_only();
    b.set(sq("d4"), Some(UnitaryPiece::Rook.white()));
    b.set(sq("d6"), Some(UnitaryPiece::Pawn.black()));
    b.set(sq("f4"), Some(UnitaryPiece::Knight.white()));
    let both = CombinationPiece::new(UnitaryPiece::Pawn, UnitaryPiece::Pawn).unwrap();
    b.set(sq("d2"), Some(both.white()));
    let mut rook = MovesList::new();
    get_rook_moves_from_square(&b, Color::White, sq("d4"), None, &mut rook);
    assert_eq!(
        targets(&rook),
        squares(&["c4", "b4", "a4", "e4", "f4", "d5", "d6", "d3"])
    );
    assert_eq!(rook[0], mv("d4", "c4"));

    let mut bishop = MovesList::new();
    get_bishop_moves_from_square(&b, Color::White, sq("d4"), None, &mut bishop);
    assert_eq!(
        targets(&bishop),
        squares(&["e5", "f6", "g7", "h8", "c5", "b6", "a7", "e3", "f2", "g1", "c3", "b2", "a1"])
    );
    assert_eq!(bishop[0], mv("d4", "e5"));
}

#[test]
fn knight_and_king_moves() {
    let mut b = kings_only();
    b.set(sq("b1"), Some(UnitaryPiece::Knight.white()));
    b.set(sq("d2"), Some(UnitaryPiece::Pawn.white()));
    b.set(sq("a3"), Some(UnitaryPiece::Pawn.black()));
    let mut knight = MovesList::new();
    get_knight_moves_from_square(&b, Color::White, sq("b1"), None, &mut knight);
    assert_eq!(targets(&knight), squares(&["d2", "a3", "c3"]));

    let mut king = MovesList::new();
    get_king_moves_from_square(&b, Color::White, sq("e1"), None, &mut king);
    assert_eq!(targets(&king), squares(&["d1", "f1", "e2", "f2"]));
}

#[test]
fn a_piece_never_merges_with_its_king() {
    let mut b = kings_only();
    b.set(sq("e4"), Some(UnitaryPiece::Rook.white()));
    let rook = moves_from(&b, Color::White, sq("e4"), None);
    assert!(!list_contains(&rook, mv("e4", "e1")));
    assert!(list_contains(&rook, mv("e4", "e2")));
    assert!(list_contains(&rook, mv("e4", "e8")));
}

#[test]
fn castling_moves_king_and_rook() {
    let mut b = kings_only();
    b.set(sq("h1"), Some(UnitaryPiece::Rook.white()));
    b.set(sq("a1"), Some(UnitaryPiece::Rook.white()));
    b.castling_rights = [true; 4];
    let king = moves_from(&b, Color::White, sq("e1"), None);
    assert!(list_contains(&king, mv("e1", "g1")));
    assert!(list_contains(&king, mv("e1", "c1")));

    let mut short = b;
    assert_eq!(short.play(mv("e1", "g1")), Ok(()));
    assert_eq!(short.get(sq("g1")), Some(UnitaryPiece::King.white()));
    assert_eq!(short.get(sq("f1")), Some(UnitaryPiece::Rook.white()));
    assert_eq!(short.get(sq("e1")), None);
    assert_eq!(short.get(sq("h1")), None);
    assert_eq!(short.castling_rights, [false, false, true, true]);

    let mut long = b;
    assert_eq!(long.play(mv("e1", "c1")), Ok(()));
    assert_eq!(long.get(sq("c1")), Some(UnitaryPiece::King.white()));
    assert_eq!(long.get(sq("d1")), Some(UnitaryPiece::Rook.white()));
    assert_eq!(long.get(sq("a1")), None);
    assert_eq!(long.castling_rights, [false, false, true, true]);

    let mut no_rook = kings_only();
    no_rook.castling_rights = [true; 4];
    let king = moves_from(&no_rook, Color::White, sq("e1"), None);
    assert!(!list_contains(&king, mv("e1", "g1")));
    assert_eq!(no_rook.play(mv("e1", "g1")), Err(IllegalMove));
}

#[test]
fn king_and_rook_moves_forfeit_castling() {
    let mut b = kings_only();
    b.set(sq("h1"), Some(UnitaryPiece::Rook.white()));
    b.set(sq("a1"), Some(UnitaryPiece::Rook.white()));
    b.set(sq("a8"), Some(UnitaryPiece::Rook.black()));
    b.castling_rights = [true; 4];
    assert_eq!(b.play(mv("h1", "h4")), Ok(()));
    assert_eq!(b.castling_rights, [false, true, true, true]);
    assert_eq!(b.play(mv("a8", "a7")), Ok(()));
    assert_eq!(b.castling_rights, [false, true, true, false]);
    assert_eq!(b.play(mv("e1", "e2")), Ok(()));
    assert_eq!(b.castling_rights, [false, false, true, false]);
    assert_eq!(b.play(mv("e8", "d8")), Ok(()));
    assert_eq!(b.castling_rights, [false, false, false, false]);
}

#[test]
fn pawn_promotes_to_a_queen() {
    let mut b = kings_only();
    b.set(sq("a7"), Some(UnitaryPiece::Pawn.white()));
    b.set(sq("h2"), Some(UnitaryPiece::Pawn.black()));
    assert_eq!(b.play(mv("a7", "a8")), Ok(()));
    assert_eq!(b.get(sq("a8")), Some(UnitaryPiece::Queen.white()));
    assert_eq!(b.get(sq("a7")), None);
    assert_eq!(b.play(mv("h2", "h1")), Ok(()));
    assert_eq!(b.get(sq("h1")), Some(UnitaryPiece::Queen.black()));
}

#[test]
fn only_pawns_promote() {
    let mut b = kings_only();
    b.set(sq("a8"), Some(UnitaryPiece::Rook.black()));
    b.side_to_move = Color::Black;
    assert_eq!(b.play(mv("a8", "a1")), Ok(()));
    assert_eq!(b.get(sq("a1")), Some(UnitaryPiece::Rook.black()));
}

#[test]
fn capture_replaces_the_enemy() {
    let mut b = kings_only();
    b.set(sq("d4"), Some(UnitaryPiece::Bishop.white()));
    b.set(sq("g7"), Some(UnitaryPiece::Rook.black()));
    assert_eq!(b.play(mv("d4", "g7")), Ok(()));
    assert_eq!(b.get(sq("g7")), Some(UnitaryPiece::Bishop.white()));
    assert_eq!(b.get(sq("d4")), None);
}

#[test]
fn check_is_detected() {
    let mut b = kings_only();
    assert!(!b.king_in_check(Color::White));
    b.set(sq("e5"), Some(UnitaryPiece::Rook.black()));
    assert!(b.king_in_check(Color::White));
    assert!(!b.king_in_check(Color::Black));
    b.set(sq("e3"), Some(UnitaryPiece::Pawn.white()));
    assert!(!b.king_in_check(Color::White));
}

#[test]
fn legal_moves_leave_the_king_safe() {
    let mut b = kings_only();
    b.set(sq("e5"), Some(UnitaryPiece::Rook.black()));
    b.set(sq("a2"), Some(UnitaryPiece::Pawn.white()));
    b.set(sq("h3"), Some(UnitaryPiece::Rook.white()));
    let pseudo = moves_from(&b, Color::White, sq("a2"), None);
    assert_eq!(pseudo.len(), 2);
    assert!(!b.is_safe_move(mv("a2", "a3"), Color::White));
    assert!(b.is_safe_move(mv("h3", "e3"), Color::White));
    assert!(b.is_safe_move(mv("e1", "d1"), Color::White));
    assert!(!b.is_safe_move(mv("e1", "e2"), Color::White));
    let legal = get_all_legal_moves(&b, Color::White);
    assert_eq!(
        targets(&legal),
        squares(&["d1", "f1", "d2", "f2", "e3"])
    );
    let from_rook =
        get_legal_moves_from_square(MovesList::new(), &b, Color::White, sq("h3"), None);
    assert_eq!(targets(&from_rook), squares(&["e3"]));
    assert_eq!(find_any_legal_move(&b, Color::White), Some(mv("e1", "d2")));
    assert_eq!(legal[0], mv("e1", "d2"));
}

#[test]
fn mate_in_one() {
    let mut b = BoardRepr::empty();
    b.set(sq("g6"), Some(UnitaryPiece::King.white()));
    b.set(sq("a1"), Some(UnitaryPiece::Rook.white()));
    b.set(sq("h8"), Some(UnitaryPiece::King.black()));
    let mut game = MergingChessStrategy::from(b);
    assert_eq!(game.get_winner(), None);
    assert!(!game.is_game_complete());
    assert!(game.is_a_valid_move(&mv("a1", "a8")));
    game.play(&mv("a1", "a8"), true);
    assert_eq!(game.get_winner(), Some(Color::White));
    assert!(game.get_available_moves().is_empty());
    assert!(game.get_board().king_in_check(Color::Black));
    assert!(!game.is_game_tied());
    assert!(game.is_game_complete());
    assert_eq!(find_any_legal_move(game.get_board(), Color::Black), None);
}

#[test]
fn stalemate_is_a_draw() {
    let mut b = BoardRepr::empty();
    b.set(sq("f7"), Some(UnitaryPiece::King.white()));
    b.set(sq("g6"), Some(UnitaryPiece::Queen.white()));
    b.set(sq("h8"), Some(UnitaryPiece::King.black()));
    b.side_to_move = Color::Black;
    let game = MergingChessStrategy::from(b);
    assert!(game.is_game_tied());
    assert!(game.get_available_moves().is_empty());
    assert!(!game.get_board().king_in_check(Color::Black));
    assert_eq!(game.get_winner(), None);
    assert!(game.is_game_complete());
}

#[test]
fn bare_kings_are_a_draw_whoever_is_to_move() {
    let mut b = kings_only();
    assert!(b.has_insufficient_material(Color::White));
    assert!(b.has_insufficient_material(Color::Black));
    assert!(MergingChessStrategy::from(b).is_game_tied());
    assert!(!MergingChessStrategy::from(b).get_available_moves().is_empty());
    b.side_to_move = Color::Black;
    assert!(MergingChessStrategy::from(b).is_game_tied());
    b.set(sq("a2"), Some(UnitaryPiece::Pawn.white()));
    assert!(!b.has_insufficient_material(Color::White));
    assert!(b.has_insufficient_material(Color::Black));
    assert!(!MergingChessStrategy::from(b).is_game_tied());
}

#[test]
fn evaluation_is_the_material_balance() {
    assert_eq!(MergingChessStrategy::from(BoardRepr::default()).evaluate(), 0);
    let mut b = kings_only();
    assert_eq!(MergingChessStrategy::from(b).evaluate(), 0);
    b.set(sq("a1"), Some(UnitaryPiece::Queen.white()));
    assert_eq!(MergingChessStrategy::from(b).evaluate(), 9);
    let combo = CombinationPiece::new(UnitaryPiece::Rook, UnitaryPiece::Bishop).unwrap();
    b.set(sq("h8"), Some(combo.black()));
    b.set(sq("h7"), Some(UnitaryPiece::Pawn.black()));
    b.set(sq("g7"), Some(UnitaryPiece::Knight.black()));
    assert_eq!(MergingChessStrategy::from(b).evaluate(), 9 - 8 - 1 - 3);
    b.set(sq("e8"), None);
    assert_eq!(MergingChessStrategy::from(b).evaluate(), 1000 - 3);
}

#[test]
fn apply_and_undo() {
    let start = BoardRepr::default();
    let mut game = MergingChessStrategy::from(start);
    assert_eq!(game.last_move(), None);
    game.play(&mv("e2", "e4"), true);
    let after_first = *game.get_board();
    assert_eq!(after_first.get(sq("e4")), Some(UnitaryPiece::Pawn.white()));
    game.play(&mv("e7", "e5"), false);
    assert_eq!(game.last_move(), Some(mv("e7", "e5")));
    game.clear(&mv("e7", "e5"));
    assert_eq!(*game.get_board(), after_first);
    assert_eq!(game.last_move(), Some(mv("e2", "e4")));
    game.clear(&mv("e2", "e4"));
    assert_eq!(*game.get_board(), start);
    assert_eq!(game.last_move(), None);
}

#[test]
fn sentinel_move_is_never_legal() {
    let game = MergingChessStrategy::from(BoardRepr::default());
    let sentinel = game.get_a_sentinel_move();
    assert_eq!(sentinel, mv("a1", "h7"));
    assert!(!game.is_a_valid_move(&sentinel));
    let mut b = kings_only();
    for piece in [UnitaryPiece::Queen, UnitaryPiece::Rook, UnitaryPiece::Bishop, UnitaryPiece::Knight] {
        b.set(sq("a1"), Some(piece.white()));
        let snapshot = b;
        assert_eq!(b.play(sentinel), Err(IllegalMove));
        assert_eq!(b, snapshot);
    }
}

#[test]
fn first_move_engine_plays_the_first_legal_move() {
    let b = BoardRepr::default();
    let mut engine = FirstMove::new();
    assert_eq!(engine.think(&b), get_all_legal_moves(&b, Color::White)[0]);
    assert_eq!(AlphaBetaMinimax::new().depth(), 2);
    assert!(AlphaBetaMinimax::maximizes(&b));
}

#[test]
fn walk_over_the_pieces() {
    let mut b = BoardRepr::empty();
    b.set(sq("c2"), Some(UnitaryPiece::Pawn.white()));
    b.set(sq("h8"), Some(UnitaryPiece::King.black()));
    b.set(sq("a1"), Some(UnitaryPiece::Rook.white()));
    let mut walk = b.iter_pieces();
    assert_eq!(walk.next(), Some((sq("a1"), UnitaryPiece::Rook.white())));
    assert_eq!(walk.next(), Some((sq("c2"), UnitaryPiece::Pawn.white())));
    assert_eq!(walk.next(), Some((sq("h8"), UnitaryPiece::King.black())));
    assert_eq!(walk.next(), None);
    assert_eq!(walk.next(), None);
    let mut again = b.iter_pieces();
    assert_eq!(again.next(), Some((sq("a1"), UnitaryPiece::Rook.white())));
    assert_eq!(b.occupied_squares().len(), 3);
    assert_eq!(UnitaryPiece::Knight.name(), "knight");
    assert_eq!(UnitaryPiece::King.name(), "king");
}

#[test]
fn board_from_cells() {
    let mut cells = vec![None; 64];
    cells[4] = Some(UnitaryPiece::King.white());
    let b = BoardRepr::with_pieces(&cells).unwrap();
    assert_eq!(b.get(sq("e1")), Some(UnitaryPiece::King.white()));
    assert_eq!(b.occupied_squares().len(), 1);
    assert_eq!(b.castling_rights, [false; 4]);
    cells.push(None);
    assert_eq!(BoardRepr::with_pieces(&cells), None);
    assert_eq!(BoardRepr::with_pieces(&vec![None; 63]), None);
}

#[test]
fn searchable_boards() {
    assert!(is_searchable(&BoardRepr::default(), Color::White));
    assert!(is_searchable(&BoardRepr::default(), Color::Black));
    assert!(!is_searchable(&BoardRepr::empty(), Color::White));
    // A pawn that steps onto its own king on the last rank is promoted in
    // the king's place.
    let mut b = kings_only();
    b.set(sq("e1"), None);
    b.set(sq("h8"), Some(UnitaryPiece::King.white()));
    b.set(sq("g7"), Some(UnitaryPiece::Pawn.white()));
    b.set(sq("e8"), None);
    b.set(sq("a1"), Some(UnitaryPiece::King.black()));
    assert!(!king_survives(&b, mv("g7", "h8"), Color::White));
    assert!(king_survives(&b, mv("g7", "g8"), Color::White));
    assert!(!is_searchable(&b, Color::White));
    assert!(is_searchable(&b, Color::Black));
    let pawn = moves_from(&b, Color::White, sq("g7"), None);
    assert!(!kings_survive(&b, &pawn, Color::White));
    assert!(list_reaches(&pawn, sq("h8")));
}
