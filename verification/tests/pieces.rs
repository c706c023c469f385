use merging_chess::pieces::UnitaryPiece as U;
use merging_chess::pieces::{
    Color, ColorPiece, CombinationPiece, Piece, PieceHalf, UnitaryPiece,
};
use merging_chess::square::{File, Rank, Square};
use merging_chess::termination::GameTermination;
use std::collections::HashSet;

#[test]
fn test_combination_piece_list() {
    let mut combo_pieces = vec![];
    for first in UnitaryPiece::all() {
        for second in UnitaryPiece::all() {
            if let Some(piece) = CombinationPiece::new(first, second) {
                combo_pieces.push(piece);
            }
        }
    }

    let target = vec![
        (U::Queen, U::Queen),
        (U::Queen, U::Bishop),
        (U::Queen, U::Knight),
        (U::Queen, U::Rook),
        (U::Queen, U::Pawn),
        (U::Bishop, U::Bishop),
        (U::Bishop, U::Knight),
        (U::Bishop, U::Rook),
        (U::Bishop, U::Pawn),
        (U::Knight, U::Knight),
        (U::Knight, U::Rook),
        (U::Knight, U::Pawn),
        (U::Rook, U::Rook),
        (U::Rook, U::Pawn),
        (U::Pawn, U::Pawn),
    ];

    let distinct: HashSet<CombinationPiece> = HashSet::from_iter(combo_pieces.iter().copied());
    assert_eq!(distinct.len(), 15);
    let combo_pieces: HashSet<(U, U)> =
        HashSet::from_iter(combo_pieces.iter().map(|c| (c.first(), c.second())));
    let target: HashSet<(U, U)> = HashSet::from_iter(target);

    assert_eq!(combo_pieces, target);
}

#[test]
fn combination_with_king_is_refused_for_every_pairing() {
    for first in UnitaryPiece::all() {
        for second in UnitaryPiece::all() {
            let made = CombinationPiece::new(first, second);
            let has_king = first == UnitaryPiece::King || second == UnitaryPiece::King;
            assert_eq!(made.is_none(), has_king);
        }
    }
}

#[test]
fn combination_is_canonical_in_either_order() {
    let a = CombinationPiece::new(UnitaryPiece::Rook, UnitaryPiece::Queen).unwrap();
    let b = CombinationPiece::new(UnitaryPiece::Queen, UnitaryPiece::Rook).unwrap();
    assert_eq!(a, b);
    assert_eq!(a.first(), UnitaryPiece::Queen);
    assert_eq!(a.second(), UnitaryPiece::Rook);
    assert_eq!(a.pieces(), (UnitaryPiece::Queen, UnitaryPiece::Rook));
    assert_eq!(a.get(PieceHalf::Left), UnitaryPiece::Queen);
    assert_eq!(a.get(PieceHalf::Right), UnitaryPiece::Rook);
    assert!(a.contains(UnitaryPiece::Rook));
    assert!(!a.contains(UnitaryPiece::Pawn));
}

#[test]
fn piece_queries() {
    let combo = CombinationPiece::new(UnitaryPiece::Pawn, UnitaryPiece::Knight).unwrap();
    let piece = Piece::from_combination(combo);
    assert!(piece.is_combination());
    assert!(!piece.is_unitary());
    assert!(piece.contains(UnitaryPiece::Pawn));
    assert!(piece.contains(UnitaryPiece::Knight));
    assert!(!piece.contains(UnitaryPiece::King));
    assert_eq!(piece.for_components(), vec![UnitaryPiece::Knight, UnitaryPiece::Pawn]);
    assert_eq!(piece.value(), 4);

    let king = Piece::from_unitary(UnitaryPiece::King);
    assert!(king.is_unitary());
    assert!(king.contains(UnitaryPiece::King));
    assert_eq!(king.for_components(), vec![UnitaryPiece::King]);
    assert_eq!(king.value(), 1000);
}

#[test]
fn material_values() {
    assert_eq!(UnitaryPiece::Pawn.value(), 1);
    assert_eq!(UnitaryPiece::Knight.value(), 3);
    assert_eq!(UnitaryPiece::Bishop.value(), 3);
    assert_eq!(UnitaryPiece::Rook.value(), 5);
    assert_eq!(UnitaryPiece::Queen.value(), 9);
    assert_eq!(UnitaryPiece::King.value(), 1000);
}

#[test]
fn color_piece_queries() {
    let white = UnitaryPiece::Rook.white();
    let black = UnitaryPiece::Rook.black();
    assert_eq!(white, ColorPiece::White(Piece::Unitary(UnitaryPiece::Rook)));
    assert_eq!(black, ColorPiece::Black(Piece::Unitary(UnitaryPiece::Rook)));
    assert!(white.is_white() && !white.is_black());
    assert!(black.is_black() && !black.is_white());
    assert_eq!(white.color(), Color::White);
    assert_eq!(black.color(), Color::Black);
    assert_eq!(white.piece(), Piece::Unitary(UnitaryPiece::Rook));
    assert!(white.is_unitary());

    let combo = CombinationPiece::new(UnitaryPiece::Rook, UnitaryPiece::Rook).unwrap();
    assert_eq!(combo.white(), ColorPiece::White(Piece::Combination(combo)));
    assert_eq!(combo.black(), ColorPiece::Black(Piece::Combination(combo)));
    assert!(!combo.white().is_unitary());
    assert_eq!(
        ColorPiece::with_color(Color::Black, Piece::Combination(combo)),
        combo.black()
    );
}

#[test]
fn opposites() {
    assert_eq!(Color::White.opposite(), Color::Black);
    assert_eq!(Color::Black.opposite(), Color::White);
    assert_eq!(PieceHalf::Left.opposite(), PieceHalf::Right);
    assert_eq!(PieceHalf::Right.opposite(), PieceHalf::Left);
}

#[test]
fn square_numbers_and_coordinates() {
    let a1 = Square::from_coords(File::A, Rank::First);
    let h1 = Square::from_coords(File::H, Rank::First);
    let e4 = Square::from_coords(File::E, Rank::Fourth);
    let h8 = Square::from_coords(File::H, Rank::Eighth);
    assert_eq!(a1.index(), 0);
    assert_eq!(h1.index(), 7);
    assert_eq!(e4.index(), 28);
    assert_eq!(h8.index(), 63);
    for i in 0..64u32 {
        let s = Square::new(i);
        assert_eq!(s.index(), i as usize);
        assert_eq!(s.file().index() as u32, i % 8);
        assert_eq!(s.rank().index() as u32, i / 8);
    }
    assert_eq!(File::from_index(8), None);
    assert_eq!(Rank::from_index(8), None);
    assert_eq!(File::A.distance(File::H), 7);
    assert_eq!(Rank::Seventh.distance(Rank::Fifth), 2);
}

#[test]
fn square_steps_stop_at_the_edges() {
    let a1 = Square::from_coords(File::A, Rank::First);
    let h8 = Square::from_coords(File::H, Rank::Eighth);
    let e4 = Square::from_coords(File::E, Rank::Fourth);
    assert_eq!(a1.left(), None);
    assert_eq!(a1.down(), None);
    assert_eq!(h8.right(), None);
    assert_eq!(h8.up(), None);
    assert_eq!(e4.up(), Some(Square::from_coords(File::E, Rank::Fifth)));
    assert_eq!(e4.down(), Some(Square::from_coords(File::E, Rank::Third)));
    assert_eq!(e4.left(), Some(Square::from_coords(File::D, Rank::Fourth)));
    assert_eq!(e4.right(), Some(Square::from_coords(File::F, Rank::Fourth)));
    assert_eq!(e4.shifted(2, -1), Some(Square::from_coords(File::G, Rank::Third)));
    assert_eq!(e4.shifted(4, 0), None);
}

#[test]
fn square_rotation() {
    for i in 0..64u32 {
        let s = Square::new(i);
        assert_eq!(s.rotate_180().index(), 63 - i as usize);
        assert_eq!(s.rotate_180().rotate_180(), s);
    }
}

#[test]
fn termination_winner() {
    assert_eq!(GameTermination::Aborted.winner(), None);
    assert_eq!(GameTermination::Stalemate.winner(), None);
    assert_eq!(GameTermination::CheckmateBy(Color::White).winner(), Some(Color::White));
    assert_eq!(GameTermination::ResignationBy(Color::White).winner(), Some(Color::Black));
    assert_eq!(GameTermination::TimeoutBy(Color::Black).winner(), Some(Color::White));
}
