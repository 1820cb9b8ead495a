//! Board coordinates and pieces as they appear in move text.
//!
//! A [`Square`] names a board coordinate of which either axis may be unknown:
//! move text such as `Ngf3` tells the file of the origin square but not its
//! rank. Its mathematical model is the pair `(file, rank)` of optional
//! coordinates, which [`Square::spec_file`] and [`Square::spec_rank`] give.

use vstd::prelude::*;

verus! {

/// A file of the board, `a` to `h`.
#[derive(PartialEq, Eq, Debug, Copy, Clone, Structural)]
pub enum File {
    A,
    B,
    C,
    D,
    E,
    F,
    G,
    H,
}

/// A rank of the board, `1` to `8`.
#[derive(PartialEq, Eq, Debug, Copy, Clone, Structural)]
pub enum Rank {
    R1,
    R2,
    R3,
    R4,
    R5,
    R6,
    R7,
    R8,
}

/// The kind of a piece.
#[derive(PartialEq, Eq, Debug, Copy, Clone, Structural)]
pub enum Piece {
    Pawn,
    Knight,
    Bishop,
    Rook,
    Queen,
    King,
}

/// A board coordinate whose file, rank or both may be unknown.
///
/// The variants are named by file letter and rank digit, with `X` standing
/// for an unknown axis: `BX` is the b-file with unknown rank, `XX` is wholly
/// unknown. They are laid out file by file, nine per file.
#[derive(PartialEq, Eq, Debug, Copy, Clone, Structural)]
pub enum Square {
    A1, A2, A3, A4, A5, A6, A7, A8, AX,
    B1, B2, B3, B4, B5, B6, B7, B8, BX,
    C1, C2, C3, C4, C5, C6, C7, C8, CX,
    D1, D2, D3, D4, D5, D6, D7, D8, DX,
    E1, E2, E3, E4, E5, E6, E7, E8, EX,
    F1, F2, F3, F4, F5, F6, F7, F8, FX,
    G1, G2, G3, G4, G5, G6, G7, G8, GX,
    H1, H2, H3, H4, H5, H6, H7, H8, HX,
    X1, X2, X3, X4, X5, X6, X7, X8, XX,
}

/// Number of values on one axis: eight known coordinates and "unknown".
pub const AXIS_VALUES: u32 = 9;

/// The axis value that stands for "unknown".
pub const UNKNOWN_AXIS: u32 = 8;

impl File {
    /// Position of the file on its axis, `a` being 0.
    pub open spec fn spec_index(self) -> nat {
        match self {
            File::A => 0,
            File::B => 1,
            File::C => 2,
            File::D => 3,
            File::E => 4,
            File::F => 5,
            File::G => 6,
            File::H => 7,
        }
    }

    /// The file at an axis position, `None` from the unknown value on.
    pub open spec fn spec_from_index(i: nat) -> Option<File> {
        if i == 0 {
            Some(File::A)
        } else if i == 1 {
            Some(File::B)
        } else if i == 2 {
            Some(File::C)
        } else if i == 3 {
            Some(File::D)
        } else if i == 4 {
            Some(File::E)
        } else if i == 5 {
            Some(File::F)
        } else if i == 6 {
            Some(File::G)
        } else if i == 7 {
            Some(File::H)
        } else {
            None
        }
    }

    /// Position of the file on its axis, `a` being 0.
    pub fn index(self) -> (i: u32)
        ensures
            i == self.spec_index(),
            i < UNKNOWN_AXIS,
    {
        match self {
            File::A => 0,
            File::B => 1,
            File::C => 2,
            File::D => 3,
            File::E => 4,
            File::F => 5,
            File::G => 6,
            File::H => 7,
        }
    }

    /// The file at an axis position, `None` from the unknown value on.
    pub fn from_index(i: u32) -> (file: Option<File>)
        ensures
            file == File::spec_from_index(i as nat),
    {
        match i {
            0 => Some(File::A),
            1 => Some(File::B),
            2 => Some(File::C),
            3 => Some(File::D),
            4 => Some(File::E),
            5 => Some(File::F),
            6 => Some(File::G),
            7 => Some(File::H),
            _ => None,
        }
    }
}

impl Rank {
    /// Position of the rank on its axis, rank 1 being 0.
    pub open spec fn spec_index(self) -> nat {
        match self {
            Rank::R1 => 0,
            Rank::R2 => 1,
            Rank::R3 => 2,
            Rank::R4 => 3,
            Rank::R5 => 4,
            Rank::R6 => 5,
            Rank::R7 => 6,
            Rank::R8 => 7,
        }
    }

    /// The rank at an axis position, `None` from the unknown value on.
    pub open spec fn spec_from_index(i: nat) -> Option<Rank> {
        if i == 0 {
            Some(Rank::R1)
        } else if i == 1 {
            Some(Rank::R2)
        } else if i == 2 {
            Some(Rank::R3)
        } else if i == 3 {
            Some(Rank::R4)
        } else if i == 4 {
            Some(Rank::R5)
        } else if i == 5 {
            Some(Rank::R6)
        } else if i == 6 {
            Some(Rank::R7)
        } else if i == 7 {
            Some(Rank::R8)
        } else {
            None
        }
    }

    /// Position of the rank on its axis, rank 1 being 0.
    pub fn index(self) -> (i: u32)
        ensures
            i == self.spec_index(),
            i < UNKNOWN_AXIS,
    {
        match self {
            Rank::R1 => 0,
            Rank::R2 => 1,
            Rank::R3 => 2,
            Rank::R4 => 3,
            Rank::R5 => 4,
            Rank::R6 => 5,
            Rank::R7 => 6,
            Rank::R8 => 7,
        }
    }

    /// The rank at an axis position, `None` from the unknown value on.
    pub fn from_index(i: u32) -> (rank: Option<Rank>)
        ensures
            rank == Rank::spec_from_index(i as nat),
    {
        match i {
            0 => Some(Rank::R1),
            1 => Some(Rank::R2),
            2 => Some(Rank::R3),
            3 => Some(Rank::R4),
            4 => Some(Rank::R5),
            5 => Some(Rank::R6),
            6 => Some(Rank::R7),
            7 => Some(Rank::R8),
            _ => None,
        }
    }
}

/// The axis value of an optional file: its index, or the unknown value.
pub open spec fn file_axis(file: Option<File>) -> nat {
    match file {
        Some(f) => f.spec_index(),
        None => UNKNOWN_AXIS as nat,
    }
}

/// The axis value of an optional rank: its index, or the unknown value.
pub open spec fn rank_axis(rank: Option<Rank>) -> nat {
    match rank {
        Some(r) => r.spec_index(),
        None => UNKNOWN_AXIS as nat,
    }
}

impl Square {
    /// Position of the square in the enumeration: nine times the file's axis
    /// value plus the rank's.
    pub open spec fn spec_index(self) -> nat {
        match self {
            Square::A1 => 0,
            Square::A2 => 1,
            Square::A3 => 2,
            Square::A4 => 3,
            Square::A5 => 4,
            Square::A6 => 5,
            Square::A7 => 6,
            Square::A8 => 7,
            Square::AX => 8,
            Square::B1 => 9,
            Square::B2 => 10,
            Square::B3 => 11,
            Square::B4 => 12,
            Square::B5 => 13,
            Square::B6 => 14,
            Square::B7 => 15,
            Square::B8 => 16,
            Square::BX => 17,
            Square::C1 => 18,
            Square::C2 => 19,
            Square::C3 => 20,
            Square::C4 => 21,
            Square::C5 => 22,
            Square::C6 => 23,
            Square::C7 => 24,
            Square::C8 => 25,
            Square::CX => 26,
            Square::D1 => 27,
            Square::D2 => 28,
            Square::D3 => 29,
            Square::D4 => 30,
            Square::D5 => 31,
            Square::D6 => 32,
            Square::D7 => 33,
            Square::D8 => 34,
            Square::DX => 35,
            Square::E1 => 36,
            Square::E2 => 37,
            Square::E3 => 38,
            Square::E4 => 39,
            Square::E5 => 40,
            Square::E6 => 41,
            Square::E7 => 42,
            Square::E8 => 43,
            Square::EX => 44,
            Square::F1 => 45,
            Square::F2 => 46,
            Square::F3 => 47,
            Square::F4 => 48,
            Square::F5 => 49,
            Square::F6 => 50,
            Square::F7 => 51,
            Square::F8 => 52,
            Square::FX => 53,
            Square::G1 => 54,
            Square::G2 => 55,
            Square::G3 => 56,
            Square::G4 => 57,
            Square::G5 => 58,
            Square::G6 => 59,
            Square::G7 => 60,
            Square::G8 => 61,
            Square::GX => 62,
            Square::H1 => 63,
            Square::H2 => 64,
            Square::H3 => 65,
            Square::H4 => 66,
            Square::H5 => 67,
            Square::H6 => 68,
            Square::H7 => 69,
            Square::H8 => 70,
            Square::HX => 71,
            Square::X1 => 72,
            Square::X2 => 73,
            Square::X3 => 74,
            Square::X4 => 75,
            Square::X5 => 76,
            Square::X6 => 77,
            Square::X7 => 78,
            Square::X8 => 79,
            Square::XX => 80,
        }
    }

    /// The square at a position of the enumeration, `None` past its end.
    pub open spec fn spec_from_index(i: nat) -> Option<Square> {
        if i == 0 {
            Some(Square::A1)
        } else if i == 1 {
            Some(Square::A2)
        } else if i == 2 {
            Some(Square::A3)
        } else if i == 3 {
            Some(Square::A4)
        } else if i == 4 {
            Some(Square::A5)
        } else if i == 5 {
            Some(Square::A6)
        } else if i == 6 {
            Some(Square::A7)
        } else if i == 7 {
            Some(Square::A8)
        } else if i == 8 {
            Some(Square::AX)
        } else if i == 9 {
            Some(Square::B1)
        } else if i == 10 {
            Some(Square::B2)
        } else if i == 11 {
            Some(Square::B3)
        } else if i == 12 {
            Some(Square::B4)
        } else if i == 13 {
            Some(Square::B5)
        } else if i == 14 {
            Some(Square::B6)
        } else if i == 15 {
            Some(Square::B7)
        } else if i == 16 {
            Some(Square::B8)
        } else if i == 17 {
            Some(Square::BX)
        } else if i == 18 {
            Some(Square::C1)
        } else if i == 19 {
            Some(Square::C2)
        } else if i == 20 {
            Some(Square::C3)
        } else if i == 21 {
            Some(Square::C4)
        } else if i == 22 {
            Some(Square::C5)
        } else if i == 23 {
            Some(Square::C6)
        } else if i == 24 {
            Some(Square::C7)
        } else if i == 25 {
            Some(Square::C8)
        } else if i == 26 {
            Some(Square::CX)
        } else if i == 27 {
            Some(Square::D1)
        } else if i == 28 {
            Some(Square::D2)
        } else if i == 29 {
            Some(Square::D3)
        } else if i == 30 {
            Some(Square::D4)
        } else if i == 31 {
            Some(Square::D5)
        } else if i == 32 {
            Some(Square::D6)
        } else if i == 33 {
            Some(Square::D7)
        } else if i == 34 {
            Some(Square::D8)
        } else if i == 35 {
            Some(Square::DX)
        } else if i == 36 {
            Some(Square::E1)
        } else if i == 37 {
            Some(Square::E2)
        } else if i == 38 {
            Some(Square::E3)
        } else if i == 39 {
            Some(Square::E4)
        } else if i == 40 {
            Some(Square::E5)
        } else if i == 41 {
            Some(Square::E6)
        } else if i == 42 {
            Some(Square::E7)
        } else if i == 43 {
            Some(Square::E8)
        } else if i == 44 {
            Some(Square::EX)
        } else if i == 45 {
            Some(Square::F1)
        } else if i == 46 {
            Some(Square::F2)
        } else if i == 47 {
            Some(Square::F3)
        } else if i == 48 {
            Some(Square::F4)
        } else if i == 49 {
            Some(Square::F5)
        } else if i == 50 {
            Some(Square::F6)
        } else if i == 51 {
            Some(Square::F7)
        } else if i == 52 {
            Some(Square::F8)
        } else if i == 53 {
            Some(Square::FX)
        } else if i == 54 {
            Some(Square::G1)
        } else if i == 55 {
            Some(Square::G2)
        } else if i == 56 {
            Some(Square::G3)
        } else if i == 57 {
            Some(Square::G4)
        } else if i == 58 {
            Some(Square::G5)
        } else if i == 59 {
            Some(Square::G6)
        } else if i == 60 {
            Some(Square::G7)
        } else if i == 61 {
            Some(Square::G8)
        } else if i == 62 {
            Some(Square::GX)
        } else if i == 63 {
            Some(Square::H1)
        } else if i == 64 {
            Some(Square::H2)
        } else if i == 65 {
            Some(Square::H3)
        } else if i == 66 {
            Some(Square::H4)
        } else if i == 67 {
            Some(Square::H5)
        } else if i == 68 {
            Some(Square::H6)
        } else if i == 69 {
            Some(Square::H7)
        } else if i == 70 {
            Some(Square::H8)
        } else if i == 71 {
            Some(Square::HX)
        } else if i == 72 {
            Some(Square::X1)
        } else if i == 73 {
            Some(Square::X2)
        } else if i == 74 {
            Some(Square::X3)
        } else if i == 75 {
            Some(Square::X4)
        } else if i == 76 {
            Some(Square::X5)
        } else if i == 77 {
            Some(Square::X6)
        } else if i == 78 {
            Some(Square::X7)
        } else if i == 79 {
            Some(Square::X8)
        } else if i == 80 {
            Some(Square::XX)
        } else {
            None
        }
    }

    /// The square with the given coordinates, each of which may be unknown.
    pub open spec fn spec_new(file: Option<File>, rank: Option<Rank>) -> Square {
        Square::spec_from_index((AXIS_VALUES * file_axis(file) + rank_axis(rank)) as nat).unwrap()
    }

    /// The file of the square, `None` when it is unknown.
    pub open spec fn spec_file(self) -> Option<File> {
        File::spec_from_index(self.spec_index() / (AXIS_VALUES as nat))
    }

    /// The rank of the square, `None` when it is unknown.
    pub open spec fn spec_rank(self) -> Option<Rank> {
        Rank::spec_from_index(self.spec_index() % (AXIS_VALUES as nat))
    }

    /// Whether both axes of the square are known.
    pub open spec fn is_known(self) -> bool {
        self.spec_file() is Some && self.spec_rank() is Some
    }

    /// Position of the square in the enumeration.
    pub fn index(self) -> (i: u32)
        ensures
            i == self.spec_index(),
            i < AXIS_VALUES * AXIS_VALUES,
    {
        match self {
            Square::A1 => 0,
            Square::A2 => 1,
            Square::A3 => 2,
            Square::A4 => 3,
            Square::A5 => 4,
            Square::A6 => 5,
            Square::A7 => 6,
            Square::A8 => 7,
            Square::AX => 8,
            Square::B1 => 9,
            Square::B2 => 10,
            Square::B3 => 11,
            Square::B4 => 12,
            Square::B5 => 13,
            Square::B6 => 14,
            Square::B7 => 15,
            Square::B8 => 16,
            Square::BX => 17,
            Square::C1 => 18,
            Square::C2 => 19,
            Square::C3 => 20,
            Square::C4 => 21,
            Square::C5 => 22,
            Square::C6 => 23,
            Square::C7 => 24,
            Square::C8 => 25,
            Square::CX => 26,
            Square::D1 => 27,
            Square::D2 => 28,
            Square::D3 => 29,
            Square::D4 => 30,
            Square::D5 => 31,
            Square::D6 => 32,
            Square::D7 => 33,
            Square::D8 => 34,
            Square::DX => 35,
            Square::E1 => 36,
            Square::E2 => 37,
            Square::E3 => 38,
            Square::E4 => 39,
            Square::E5 => 40,
            Square::E6 => 41,
            Square::E7 => 42,
            Square::E8 => 43,
            Square::EX => 44,
            Square::F1 => 45,
            Square::F2 => 46,
            Square::F3 => 47,
            Square::F4 => 48,
            Square::F5 => 49,
            Square::F6 => 50,
            Square::F7 => 51,
            Square::F8 => 52,
            Square::FX => 53,
            Square::G1 => 54,
            Square::G2 => 55,
            Square::G3 => 56,
            Square::G4 => 57,
            Square::G5 => 58,
            Square::G6 => 59,
            Square::G7 => 60,
            Square::G8 => 61,
            Square::GX => 62,
            Square::H1 => 63,
            Square::H2 => 64,
            Square::H3 => 65,
            Square::H4 => 66,
            Square::H5 => 67,
            Square::H6 => 68,
            Square::H7 => 69,
            Square::H8 => 70,
            Square::HX => 71,
            Square::X1 => 72,
            Square::X2 => 73,
            Square::X3 => 74,
            Square::X4 => 75,
            Square::X5 => 76,
            Square::X6 => 77,
            Square::X7 => 78,
            Square::X8 => 79,
            Square::XX => 80,
        }
    }

    /// The square at a position of the enumeration, `None` past its end.
    pub fn from_index(i: u32) -> (square: Option<Square>)
        ensures
            square == Square::spec_from_index(i as nat),
    {
        match i {
            0 => Some(Square::A1),
            1 => Some(Square::A2),
            2 => Some(Square::A3),
            3 => Some(Square::A4),
            4 => Some(Square::A5),
            5 => Some(Square::A6),
            6 => Some(Square::A7),
            7 => Some(Square::A8),
            8 => Some(Square::AX),
            9 => Some(Square::B1),
            10 => Some(Square::B2),
            11 => Some(Square::B3),
            12 => Some(Square::B4),
            13 => Some(Square::B5),
            14 => Some(Square::B6),
            15 => Some(Square::B7),
            16 => Some(Square::B8),
            17 => Some(Square::BX),
            18 => Some(Square::C1),
            19 => Some(Square::C2),
            20 => Some(Square::C3),
            21 => Some(Square::C4),
            22 => Some(Square::C5),
            23 => Some(Square::C6),
            24 => Some(Square::C7),
            25 => Some(Square::C8),
            26 => Some(Square::CX),
            27 => Some(Square::D1),
            28 => Some(Square::D2),
            29 => Some(Square::D3),
            30 => Some(Square::D4),
            31 => Some(Square::D5),
            32 => Some(Square::D6),
            33 => Some(Square::D7),
            34 => Some(Square::D8),
            35 => Some(Square::DX),
            36 => Some(Square::E1),
            37 => Some(Square::E2),
            38 => Some(Square::E3),
            39 => Some(Square::E4),
            40 => Some(Square::E5),
            41 => Some(Square::E6),
            42 => Some(Square::E7),
            43 => Some(Square::E8),
            44 => Some(Square::EX),
            45 => Some(Square::F1),
            46 => Some(Square::F2),
            47 => Some(Square::F3),
            48 => Some(Square::F4),
            49 => Some(Square::F5),
            50 => Some(Square::F6),
            51 => Some(Square::F7),
            52 => Some(Square::F8),
            53 => Some(Square::FX),
            54 => Some(Square::G1),
            55 => Some(Square::G2),
            56 => Some(Square::G3),
            57 => Some(Square::G4),
            58 => Some(Square::G5),
            59 => Some(Square::G6),
            60 => Some(Square::G7),
            61 => Some(Square::G8),
            62 => Some(Square::GX),
            63 => Some(Square::H1),
            64 => Some(Square::H2),
            65 => Some(Square::H3),
            66 => Some(Square::H4),
            67 => Some(Square::H5),
            68 => Some(Square::H6),
            69 => Some(Square::H7),
            70 => Some(Square::H8),
            71 => Some(Square::HX),
            72 => Some(Square::X1),
            73 => Some(Square::X2),
            74 => Some(Square::X3),
            75 => Some(Square::X4),
            76 => Some(Square::X5),
            77 => Some(Square::X6),
            78 => Some(Square::X7),
            79 => Some(Square::X8),
            80 => Some(Square::XX),
            _ => None,
        }
    }

    /// The square with the given coordinates, each of which may be unknown.
    pub fn new(file: Option<File>, rank: Option<Rank>) -> (square: Square)
        ensures
            square == Square::spec_new(file, rank),
            square.spec_file() == file,
            square.spec_rank() == rank,
    {
        let f: u32 = match file {
            Some(value) => value.index(),
            None => UNKNOWN_AXIS,
        };
        let r: u32 = match rank {
            Some(value) => value.index(),
            None => UNKNOWN_AXIS,
        };
        Square::new_u32(f, r)
    }

    /// The fully known square on the given file and rank.
    pub fn new_known(file: File, rank: Rank) -> (square: Square)
        ensures
            square == Square::spec_new(Some(file), Some(rank)),
            square.spec_file() == Some(file),
            square.spec_rank() == Some(rank),
            square.is_known(),
    {
        Square::new_u32(file.index(), rank.index())
    }

    /// The square on the given file whose rank is unknown.
    pub fn new_file(file: File) -> (square: Square)
        ensures
            square == Square::spec_new(Some(file), None),
            square.spec_file() == Some(file),
            square.spec_rank() == None::<Rank>,
    {
        Square::new_u32(file.index(), UNKNOWN_AXIS)
    }

    /// The square on the given rank whose file is unknown.
    pub fn new_rank(rank: Rank) -> (square: Square)
        ensures
            square == Square::spec_new(None, Some(rank)),
            square.spec_file() == None::<File>,
            square.spec_rank() == Some(rank),
    {
        Square::new_u32(UNKNOWN_AXIS, rank.index())
    }

    /// The square with the given axis values, 8 standing for "unknown".
    pub fn new_u32(file: u32, rank: u32) -> (square: Square)
        requires
            file <= UNKNOWN_AXIS,
            rank <= UNKNOWN_AXIS,
        ensures
            Some(square) == Square::spec_from_index((AXIS_VALUES * file + rank) as nat),
            square.spec_index() == AXIS_VALUES * file + rank,
            square.spec_file() == File::spec_from_index(file as nat),
            square.spec_rank() == Rank::spec_from_index(rank as nat),
    {
        let i: u32 = AXIS_VALUES * file + rank;
        match Square::from_index(i) {
            Some(square) => square,
            None => Square::XX,
        }
    }

    /// The file of the square, `None` when it is unknown.
    pub fn file(self: &Square) -> (file: Option<File>)
        ensures
            file == self.spec_file(),
    {
        File::from_index(self.index() / AXIS_VALUES)
    }

    /// The rank of the square, `None` when it is unknown.
    pub fn rank(self: &Square) -> (rank: Option<Rank>)
        ensures
            rank == self.spec_rank(),
    {
        Rank::from_index(self.index() % AXIS_VALUES)
    }
}

/// A square is determined by its two coordinates: squares that agree on file
/// and rank are the same square.
pub proof fn lemma_square_determined_by_coordinates(a: Square, b: Square)
    requires
        a.spec_file() == b.spec_file(),
        a.spec_rank() == b.spec_rank(),
    ensures
        a == b,
{
    lemma_index_from_coordinates(a);
    lemma_index_from_coordinates(b);
    lemma_square_determined_by_index(a, b);
}

/// The position of a square is nine times its file's axis value plus its
/// rank's axis value.
pub proof fn lemma_index_from_coordinates(a: Square)
    ensures
        a.spec_index() == AXIS_VALUES * file_axis(a.spec_file()) + rank_axis(a.spec_rank()),
        a.spec_index() < AXIS_VALUES * AXIS_VALUES,
{
}

/// The square made of two coordinates has these coordinates, and a square is
/// the one made of its coordinates.
pub proof fn lemma_square_new_coordinates(file: Option<File>, rank: Option<Rank>, a: Square)
    ensures
        Square::spec_new(file, rank).spec_file() == file,
        Square::spec_new(file, rank).spec_rank() == rank,
        Square::spec_new(a.spec_file(), a.spec_rank()) == a,
{
}

/// Squares at the same position of the enumeration are the same square.
pub proof fn lemma_square_determined_by_index(a: Square, b: Square)
    requires
        a.spec_index() == b.spec_index(),
    ensures
        a == b,
{
}

} // verus!
