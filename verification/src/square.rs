//! The coordinate system: files, ranks and the 64 squares of the board.

use vstd::prelude::*;

verus! {

/// A column of the board, from `A` (index 0) to `H` (index 7).
#[derive(Clone, Copy, Debug, PartialEq, Eq, Hash, Structural)]
pub enum File {
    A,
    B,
    C,
    D,
    E,
    F,
    G,
    H,
}

/// A row of the board, from `First` (index 0, White's back rank) to `Eighth`
/// (index 7, Black's back rank).
#[derive(Clone, Copy, Debug, PartialEq, Eq, Hash, Structural)]
pub enum Rank {
    First,
    Second,
    Third,
    Fourth,
    Fifth,
    Sixth,
    Seventh,
    Eighth,
}

/// The absolute difference of two coordinates.
pub open spec fn gap(a: int, b: int) -> int {
    if a <= b {
        b - a
    } else {
        a - b
    }
}

impl File {
    /// The file's coordinate, 0 for `A` up to 7 for `H`.
    pub open spec fn idx(self) -> int {
        match self {
            File::A => 0,
            File::B => 1,
            File::C => 2,
            File::D => 3,
            File::E => 4,
            File::F => 5,
            File::G => 6,
            File::H => 7,
        }
    }

    /// The file with coordinate `i`; `H` for anything above 6.
    pub open spec fn of(i: int) -> File {
        if i <= 0 {
            File::A
        } else if i == 1 {
            File::B
        } else if i == 2 {
            File::C
        } else if i == 3 {
            File::D
        } else if i == 4 {
            File::E
        } else if i == 5 {
            File::F
        } else if i == 6 {
            File::G
        } else {
            File::H
        }
    }

    pub fn index(self) -> (i: u8)
        ensures
            i == self.idx(),
            i < 8,
    {
        match self {
            File::A => 0,
            File::B => 1,
            File::C => 2,
            File::D => 3,
            File::E => 4,
            File::F => 5,
            File::G => 6,
            File::H => 7,
        }
    }

    /// The file with coordinate `i`, if `i` is below 8.
    pub fn from_index(i: u8) -> (f: Option<File>)
        ensures
            f == (if i < 8 {
                Some(File::of(i as int))
            } else {
                None
            }),
            f is Some ==> f.unwrap().idx() == i,
    {
        match i {
            0 => Some(File::A),
            1 => Some(File::B),
            2 => Some(File::C),
            3 => Some(File::D),
            4 => Some(File::E),
            5 => Some(File::F),
            6 => Some(File::G),
            7 => Some(File::H),
            _ => None,
        }
    }

    /// How many files lie between `self` and `other`, counting one end.
    pub fn distance(self, other: File) -> (d: u8)
        ensures
            d == gap(self.idx(), other.idx()),
    {
        let a: u8 = self.index();
        let b: u8 = other.index();
        if a <= b {
            b - a
        } else {
            a - b
        }
    }
}

impl Rank {
    /// The rank's coordinate, 0 for `First` up to 7 for `Eighth`.
    pub open spec fn idx(self) -> int {
        match self {
            Rank::First => 0,
            Rank::Second => 1,
            Rank::Third => 2,
            Rank::Fourth => 3,
            Rank::Fifth => 4,
            Rank::Sixth => 5,
            Rank::Seventh => 6,
            Rank::Eighth => 7,
        }
    }

    /// The rank with coordinate `i`; `Eighth` for anything above 6.
    pub open spec fn of(i: int) -> Rank {
        if i <= 0 {
            Rank::First
        } else if i == 1 {
            Rank::Second
        } else if i == 2 {
            Rank::Third
        } else if i == 3 {
            Rank::Fourth
        } else if i == 4 {
            Rank::Fifth
        } else if i == 5 {
            Rank::Sixth
        } else if i == 6 {
            Rank::Seventh
        } else {
            Rank::Eighth
        }
    }

    pub fn index(self) -> (i: u8)
        ensures
            i == self.idx(),
            i < 8,
    {
        match self {
            Rank::First => 0,
            Rank::Second => 1,
            Rank::Third => 2,
            Rank::Fourth => 3,
            Rank::Fifth => 4,
            Rank::Sixth => 5,
            Rank::Seventh => 6,
            Rank::Eighth => 7,
        }
    }

    /// The rank with coordinate `i`, if `i` is below 8.
    pub fn from_index(i: u8) -> (r: Option<Rank>)
        ensures
            r == (if i < 8 {
                Some(Rank::of(i as int))
            } else {
                None
            }),
            r is Some ==> r.unwrap().idx() == i,
    {
        match i {
            0 => Some(Rank::First),
            1 => Some(Rank::Second),
            2 => Some(Rank::Third),
            3 => Some(Rank::Fourth),
            4 => Some(Rank::Fifth),
            5 => Some(Rank::Sixth),
            6 => Some(Rank::Seventh),
            7 => Some(Rank::Eighth),
            _ => None,
        }
    }

    /// How many ranks lie between `self` and `other`, counting one end.
    pub fn distance(self, other: Rank) -> (d: u8)
        ensures
            d == gap(self.idx(), other.idx()),
    {
        let a: u8 = self.index();
        let b: u8 = other.index();
        if a <= b {
            b - a
        } else {
            a - b
        }
    }
}

/// One of the 64 squares. Its number is `8 * rank + file`, so `A1` is 0,
/// `H1` is 7 and `H8` is 63.
#[derive(Clone, Copy, Debug, PartialEq, Eq, Hash, Structural)]
pub struct Square {
    pub file: File,
    pub rank: Rank,
}

/// Whether `(f, r)` are the coordinates of a square.
pub open spec fn on_board(f: int, r: int) -> bool {
    0 <= f < 8 && 0 <= r < 8
}

impl Square {
    /// The square's number, 0 to 63.
    pub open spec fn idx(self) -> int {
        8 * self.rank.idx() + self.file.idx()
    }

    /// The square with file coordinate `f` and rank coordinate `r`.
    pub open spec fn at(f: int, r: int) -> Square {
        Square { file: File::of(f), rank: Rank::of(r) }
    }

    /// The square numbered `i`.
    pub open spec fn of(i: int) -> Square {
        Square::at(i % 8, i / 8)
    }

    /// The square `df` files to the right and `dr` ranks up, or `None` where
    /// that leaves the board.
    pub open spec fn offset(self, df: int, dr: int) -> Option<Square> {
        if on_board(self.file.idx() + df, self.rank.idx() + dr) {
            Some(Square::at(self.file.idx() + df, self.rank.idx() + dr))
        } else {
            None
        }
    }

    /// The square numbered `index`.
    pub fn new(index: u32) -> (s: Square)
        requires
            index < 64,
        ensures
            s == Square::of(index as int),
            s.idx() == index,
    {
        let f: u8 = (index % 8) as u8;
        let r: u8 = (index / 8) as u8;
        Square { file: File::from_index(f).unwrap(), rank: Rank::from_index(r).unwrap() }
    }

    pub fn from_coords(file: File, rank: Rank) -> (s: Square)
        ensures
            s == (Square { file, rank }),
    {
        Square { file, rank }
    }

    pub fn file(self) -> (f: File)
        ensures
            f == self.file,
    {
        self.file
    }

    pub fn rank(self) -> (r: Rank)
        ensures
            r == self.rank,
    {
        self.rank
    }

    /// The square's number, 0 to 63.
    pub fn index(self) -> (i: usize)
        ensures
            i == self.idx(),
            i < 64,
    {
        let f: u8 = self.file.index();
        let r: u8 = self.rank.index();
        (8 * r + f) as usize
    }

    /// The square `df` files to the right and `dr` ranks up, if it is on the
    /// board.
    pub fn shifted(self, df: i8, dr: i8) -> (s: Option<Square>)
        requires
            -8 <= df <= 8,
            -8 <= dr <= 8,
        ensures
            s == self.offset(df as int, dr as int),
    {
        let f: i8 = self.file.index() as i8 + df;
        let r: i8 = self.rank.index() as i8 + dr;
        if 0 <= f && f < 8 && 0 <= r && r < 8 {
            Some(Square { file: File::from_index(f as u8).unwrap(), rank: Rank::from_index(r as u8).unwrap() })
        } else {
            None
        }
    }

    /// One rank towards Black's side, or `None` on the eighth rank.
    pub fn up(self) -> (s: Option<Square>)
        ensures
            s == self.offset(0, 1),
    {
        self.shifted(0, 1)
    }

    /// One rank towards White's side, or `None` on the first rank.
    pub fn down(self) -> (s: Option<Square>)
        ensures
            s == self.offset(0, -1),
    {
        self.shifted(0, -1)
    }

    /// One file towards the `A` file, or `None` on the `A` file.
    pub fn left(self) -> (s: Option<Square>)
        ensures
            s == self.offset(-1, 0),
    {
        self.shifted(-1, 0)
    }

    /// One file towards the `H` file, or `None` on the `H` file.
    pub fn right(self) -> (s: Option<Square>)
        ensures
            s == self.offset(1, 0),
    {
        self.shifted(1, 0)
    }

    /// The square that a half turn of the board about its centre puts in
    /// this square's place.
    pub fn rotate_180(self) -> (s: Square)
        ensures
            s.idx() == 63 - self.idx(),
            s == Square::at(7 - self.file.idx(), 7 - self.rank.idx()),
    {
        let f: u8 = 7 - self.file.index();
        let r: u8 = 7 - self.rank.index();
        Square { file: File::from_index(f).unwrap(), rank: Rank::from_index(r).unwrap() }
    }
}

/// Numbering the squares loses nothing: a square is the one its number names.
pub proof fn lemma_square_of_idx(s: Square)
    ensures
        Square::of(s.idx()) == s,
        0 <= s.idx() < 64,
        Square::at(s.file.idx(), s.rank.idx()) == s,
{
}

/// The coordinates of the square that an offset leads to.
pub proof fn lemma_offset_coords(s: Square, df: int, dr: int)
    ensures
        s.offset(df, dr) is Some <==> on_board(s.file.idx() + df, s.rank.idx() + dr),
        s.offset(df, dr) is Some ==> s.offset(df, dr).unwrap().file.idx() == s.file.idx() + df
            && s.offset(df, dr).unwrap().rank.idx() == s.rank.idx() + dr,
{
}

} // verus!
