//! The piece model: unitary pieces, composite pieces made of two of them,
//! colours, and the selector that names one half of a composite.

use vstd::prelude::*;

pub mod movement;

verus! {

/// A single traditional piece. The declaration order is the order used to put
/// the two components of a composite in canonical order.
#[derive(Debug, Clone, Copy, PartialEq, Eq, Hash, PartialOrd, Ord, Structural)]
pub enum UnitaryPiece {
    Queen,
    Bishop,
    Knight,
    Rook,
    Pawn,
    King,
}

/// A player colour.
#[derive(Debug, Clone, Copy, PartialEq, Eq, Hash, Structural)]
pub enum Color {
    White,
    Black,
}

/// Either the left (first) or the right (second) component of a composite.
#[derive(Debug, Clone, Copy, PartialEq, Eq, Hash, Structural)]
pub enum PieceHalf {
    Left,
    Right,
}

/// A composite of two unitary pieces, neither of them a king, held in
/// canonical order: the first component never comes after the second in the
/// order of `UnitaryPiece`.
#[derive(Debug, Clone, Copy, PartialEq, Eq, Hash, PartialOrd, Ord, Structural)]
pub struct CombinationPiece {
    first: UnitaryPiece,
    second: UnitaryPiece,
}

/// A single piece, or a composite of two.
#[derive(Debug, Clone, Copy, PartialEq, Eq, Hash, Structural)]
pub enum Piece {
    Unitary(UnitaryPiece),
    Combination(CombinationPiece),
}

/// A piece together with the colour that owns it.
#[derive(Debug, Clone, Copy, PartialEq, Eq, Hash, Structural)]
pub enum ColorPiece {
    White(Piece),
    Black(Piece),
}

impl Color {
    pub open spec fn other(self) -> Color {
        match self {
            Color::White => Color::Black,
            Color::Black => Color::White,
        }
    }

    pub fn opposite(self) -> (c: Color)
        ensures
            c == self.other(),
            c != self,
    {
        match self {
            Color::White => Color::Black,
            Color::Black => Color::White,
        }
    }
}

impl PieceHalf {
    pub open spec fn other(self) -> PieceHalf {
        match self {
            PieceHalf::Left => PieceHalf::Right,
            PieceHalf::Right => PieceHalf::Left,
        }
    }

    pub fn opposite(self) -> (h: PieceHalf)
        ensures
            h == self.other(),
            h != self,
    {
        match self {
            PieceHalf::Left => PieceHalf::Right,
            PieceHalf::Right => PieceHalf::Left,
        }
    }
}

impl UnitaryPiece {
    /// The piece's place in the canonical order, 0 for the queen up to 5 for
    /// the king.
    pub open spec fn ord(self) -> int {
        match self {
            UnitaryPiece::Queen => 0,
            UnitaryPiece::Bishop => 1,
            UnitaryPiece::Knight => 2,
            UnitaryPiece::Rook => 3,
            UnitaryPiece::Pawn => 4,
            UnitaryPiece::King => 5,
        }
    }

    /// The material value of the piece.
    pub open spec fn worth(self) -> int {
        match self {
            UnitaryPiece::Queen => 9,
            UnitaryPiece::Bishop => 3,
            UnitaryPiece::Knight => 3,
            UnitaryPiece::Rook => 5,
            UnitaryPiece::Pawn => 1,
            UnitaryPiece::King => 1000,
        }
    }

    /// The piece's name in lower case.
    pub open spec fn label(self) -> Seq<char> {
        match self {
            UnitaryPiece::Queen => "queen"@,
            UnitaryPiece::Bishop => "bishop"@,
            UnitaryPiece::Knight => "knight"@,
            UnitaryPiece::Rook => "rook"@,
            UnitaryPiece::Pawn => "pawn"@,
            UnitaryPiece::King => "king"@,
        }
    }

    /// The piece's name in lower case.
    pub fn name(self) -> (n: &'static str)
        ensures
            n@ == self.label(),
    {
        match self {
            UnitaryPiece::Queen => "queen",
            UnitaryPiece::Bishop => "bishop",
            UnitaryPiece::Knight => "knight",
            UnitaryPiece::Rook => "rook",
            UnitaryPiece::Pawn => "pawn",
            UnitaryPiece::King => "king",
        }
    }

    /// All six pieces, in canonical order.
    pub fn all() -> (a: [UnitaryPiece; 6])
        ensures
            a@ == seq![
                UnitaryPiece::Queen,
                UnitaryPiece::Bishop,
                UnitaryPiece::Knight,
                UnitaryPiece::Rook,
                UnitaryPiece::Pawn,
                UnitaryPiece::King,
            ],
    {
        [
            UnitaryPiece::Queen,
            UnitaryPiece::Bishop,
            UnitaryPiece::Knight,
            UnitaryPiece::Rook,
            UnitaryPiece::Pawn,
            UnitaryPiece::King,
        ]
    }

    pub fn rank_in_order(self) -> (n: u8)
        ensures
            n == self.ord(),
    {
        match self {
            UnitaryPiece::Queen => 0,
            UnitaryPiece::Bishop => 1,
            UnitaryPiece::Knight => 2,
            UnitaryPiece::Rook => 3,
            UnitaryPiece::Pawn => 4,
            UnitaryPiece::King => 5,
        }
    }

    /// The material value of the piece.
    pub fn value(self) -> (v: i64)
        ensures
            v == self.worth(),
    {
        match self {
            UnitaryPiece::Queen => 9,
            UnitaryPiece::Bishop => 3,
            UnitaryPiece::Knight => 3,
            UnitaryPiece::Rook => 5,
            UnitaryPiece::Pawn => 1,
            UnitaryPiece::King => 1000,
        }
    }

    pub fn white(self) -> (p: ColorPiece)
        ensures
            p == ColorPiece::White(Piece::Unitary(self)),
    {
        ColorPiece::White(Piece::Unitary(self))
    }

    pub fn black(self) -> (p: ColorPiece)
        ensures
            p == ColorPiece::Black(Piece::Unitary(self)),
    {
        ColorPiece::Black(Piece::Unitary(self))
    }
}

/// Whether `a` and `b` may be fused: neither is a king.
pub open spec fn can_combine(a: UnitaryPiece, b: UnitaryPiece) -> bool {
    a != UnitaryPiece::King && b != UnitaryPiece::King
}

impl CombinationPiece {
    /// The component that comes first in canonical order.
    pub closed spec fn left(self) -> UnitaryPiece {
        self.first
    }

    /// The component that comes second in canonical order.
    pub closed spec fn right(self) -> UnitaryPiece {
        self.second
    }

    /// The component that `half` names.
    pub open spec fn half(self, half: PieceHalf) -> UnitaryPiece {
        match half {
            PieceHalf::Left => self.left(),
            PieceHalf::Right => self.right(),
        }
    }

    /// The composite of `a` and `b`, whichever is given first. It is well
    /// formed where neither is a king.
    pub closed spec fn fuse(a: UnitaryPiece, b: UnitaryPiece) -> CombinationPiece {
        if a.ord() < b.ord() {
            CombinationPiece { first: a, second: b }
        } else {
            CombinationPiece { first: b, second: a }
        }
    }

    /// The invariant of a composite: no king, and canonical order.
    pub open spec fn wf(self) -> bool {
        &&& can_combine(self.left(), self.right())
        &&& self.left().ord() <= self.right().ord()
    }

    #[verifier::type_invariant]
    closed spec fn inv(self) -> bool {
        self.wf()
    }

    /// The composite of `first` and `second`, in either order of the
    /// arguments; `None` exactly when one of them is a king.
    pub fn new(first: UnitaryPiece, second: UnitaryPiece) -> (c: Option<CombinationPiece>)
        ensures
            c is Some <==> can_combine(first, second),
            c is Some ==> c.unwrap() == CombinationPiece::fuse(first, second),
            c is Some ==> {
                let p = c.unwrap();
                &&& p.wf()
                &&& p.left() == (if first.ord() < second.ord() {
                    first
                } else {
                    second
                })
                &&& p.right() == (if first.ord() < second.ord() {
                    second
                } else {
                    first
                })
            },
    {
        if first == UnitaryPiece::King || second == UnitaryPiece::King {
            return None;
        }
        proof {
            lemma_fuse(first, second);
        }
        if first.rank_in_order() < second.rank_in_order() {
            Some(CombinationPiece { first, second })
        } else {
            Some(CombinationPiece { first: second, second: first })
        }
    }

    pub fn first(&self) -> (p: UnitaryPiece)
        ensures
            p == self.left(),
            p != UnitaryPiece::King,
    {
        proof {
            use_type_invariant(self);
        }
        self.first
    }

    pub fn second(&self) -> (p: UnitaryPiece)
        ensures
            p == self.right(),
            p != UnitaryPiece::King,
    {
        proof {
            use_type_invariant(self);
        }
        self.second
    }

    pub fn pieces(&self) -> (p: (UnitaryPiece, UnitaryPiece))
        ensures
            p == (self.left(), self.right()),
            self.wf(),
    {
        proof {
            use_type_invariant(self);
        }
        (self.first, self.second)
    }

    /// The component that `half` names.
    pub fn get(&self, half: PieceHalf) -> (p: UnitaryPiece)
        ensures
            p == self.half(half),
            p != UnitaryPiece::King,
    {
        proof {
            use_type_invariant(self);
        }
        match half {
            PieceHalf::Left => self.first,
            PieceHalf::Right => self.second,
        }
    }

    pub fn black(self) -> (p: ColorPiece)
        ensures
            p == ColorPiece::Black(Piece::Combination(self)),
    {
        ColorPiece::Black(Piece::Combination(self))
    }

    pub fn white(self) -> (p: ColorPiece)
        ensures
            p == ColorPiece::White(Piece::Combination(self)),
    {
        ColorPiece::White(Piece::Combination(self))
    }

    pub fn contains(self, piece: UnitaryPiece) -> (b: bool)
        ensures
            b == (self.left() == piece || self.right() == piece),
    {
        self.first == piece || self.second == piece
    }
}

impl Piece {
    /// The unitary components of the piece: one, or the two of a composite
    /// in canonical order.
    pub open spec fn components(self) -> Seq<UnitaryPiece> {
        match self {
            Piece::Unitary(p) => seq![p],
            Piece::Combination(c) => seq![c.left(), c.right()],
        }
    }

    /// Whether `piece` is the piece or one of its components.
    pub open spec fn has(self, piece: UnitaryPiece) -> bool {
        match self {
            Piece::Unitary(p) => p == piece,
            Piece::Combination(c) => c.left() == piece || c.right() == piece,
        }
    }

    /// The material value of the piece: the sum over its components.
    pub open spec fn worth(self) -> int {
        match self {
            Piece::Unitary(p) => p.worth(),
            Piece::Combination(c) => c.left().worth() + c.right().worth(),
        }
    }

    /// The invariant of the piece model: a composite is well formed.
    pub open spec fn wf(self) -> bool {
        match self {
            Piece::Unitary(_) => true,
            Piece::Combination(c) => c.wf(),
        }
    }

    pub fn is_unitary(self) -> (b: bool)
        ensures
            b == (self is Unitary),
    {
        match self {
            Piece::Unitary(_) => true,
            Piece::Combination(_) => false,
        }
    }

    pub fn is_combination(self) -> (b: bool)
        ensures
            b == (self is Combination),
    {
        match self {
            Piece::Unitary(_) => false,
            Piece::Combination(_) => true,
        }
    }

    pub fn contains(self, piece: UnitaryPiece) -> (b: bool)
        ensures
            b == self.has(piece),
            self.wf(),
            piece == UnitaryPiece::King && b ==> self == Piece::Unitary(UnitaryPiece::King),
    {
        match self {
            Piece::Unitary(p) => p == piece,
            Piece::Combination(c) => {
                let (a, b) = c.pieces();
                a == piece || b == piece
            },
        }
    }

    /// The unitary components of the piece, in canonical order.
    pub fn for_components(self) -> (v: Vec<UnitaryPiece>)
        ensures
            v@ == self.components(),
    {
        let mut v: Vec<UnitaryPiece> = Vec::new();
        match self {
            Piece::Unitary(p) => {
                v.push(p);
            },
            Piece::Combination(c) => {
                v.push(c.first());
                v.push(c.second());
            },
        }
        v
    }

    /// The material value of the piece: the sum over its components.
    pub fn value(self) -> (v: i64)
        ensures
            v == self.worth(),
            0 < v <= 2000,
    {
        match self {
            Piece::Unitary(p) => p.value(),
            Piece::Combination(c) => c.first().value() + c.second().value(),
        }
    }

    /// The piece as the owner of one component.
    pub fn from_unitary(piece: UnitaryPiece) -> (p: Piece)
        ensures
            p == Piece::Unitary(piece),
    {
        Piece::Unitary(piece)
    }

    /// The piece as the owner of a composite.
    pub fn from_combination(piece: CombinationPiece) -> (p: Piece)
        ensures
            p == Piece::Combination(piece),
    {
        Piece::Combination(piece)
    }
}

impl ColorPiece {
    /// The colour that owns the piece.
    pub open spec fn side(self) -> Color {
        match self {
            ColorPiece::White(_) => Color::White,
            ColorPiece::Black(_) => Color::Black,
        }
    }

    /// The piece without its colour.
    pub open spec fn body(self) -> Piece {
        match self {
            ColorPiece::White(p) => p,
            ColorPiece::Black(p) => p,
        }
    }

    /// `piece` in the colour `side`.
    pub open spec fn of(side: Color, piece: Piece) -> ColorPiece {
        match side {
            Color::White => ColorPiece::White(piece),
            Color::Black => ColorPiece::Black(piece),
        }
    }

    /// `piece` in the colour `side`.
    pub fn with_color(side: Color, piece: Piece) -> (p: ColorPiece)
        ensures
            p == ColorPiece::of(side, piece),
            p.side() == side,
            p.body() == piece,
    {
        match side {
            Color::White => ColorPiece::White(piece),
            Color::Black => ColorPiece::Black(piece),
        }
    }

    pub fn is_white(self) -> (b: bool)
        ensures
            b == (self.side() == Color::White),
    {
        match self {
            ColorPiece::White(_) => true,
            ColorPiece::Black(_) => false,
        }
    }

    pub fn is_black(self) -> (b: bool)
        ensures
            b == (self.side() == Color::Black),
    {
        match self {
            ColorPiece::White(_) => false,
            ColorPiece::Black(_) => true,
        }
    }

    pub fn color(self) -> (c: Color)
        ensures
            c == self.side(),
    {
        match self {
            ColorPiece::White(_) => Color::White,
            ColorPiece::Black(_) => Color::Black,
        }
    }

    pub fn piece(self) -> (p: Piece)
        ensures
            p == self.body(),
            self == ColorPiece::of(self.side(), p),
    {
        match self {
            ColorPiece::White(piece) => piece,
            ColorPiece::Black(piece) => piece,
        }
    }

    pub fn is_unitary(self) -> (b: bool)
        ensures
            b == (self.body() is Unitary),
    {
        self.piece().is_unitary()
    }
}

/// The components of a fused pair: the one that comes first in canonical
/// order on the left, the other on the right. Where neither is a king the
/// pair is well formed.
pub proof fn lemma_fuse(a: UnitaryPiece, b: UnitaryPiece)
    ensures
        CombinationPiece::fuse(a, b).left() == (if a.ord() < b.ord() {
            a
        } else {
            b
        }),
        CombinationPiece::fuse(a, b).right() == (if a.ord() < b.ord() {
            b
        } else {
            a
        }),
        can_combine(a, b) ==> CombinationPiece::fuse(a, b).wf(),
{
}

/// A composite does not depend on the order in which its components are
/// given.
pub proof fn lemma_combination_unordered(a: UnitaryPiece, b: UnitaryPiece)
    ensures
        can_combine(a, b) == can_combine(b, a),
        CombinationPiece::fuse(a, b) == CombinationPiece::fuse(b, a),
{
}

} // verus!
