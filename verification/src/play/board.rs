//! Squares of a real board, numbered rank by rank from a1.

use vstd::prelude::*;

verus! {

broadcast use vstd::string::group_string_axioms;

/// Number of files, and of ranks, of the board.
pub const BOARD_SIDE: u8 = 8;

/// A square of the board by its number: the file counts from 0 for the
/// a-file, the rank from 0 for the first rank, and the number is eight
/// times the rank plus the file.
#[derive(PartialEq, Eq, Hash, Copy, Clone, Debug, Structural)]
pub struct Square {
    sq: u8,
}

/// Why two numbers do not name a square.
#[derive(PartialEq, Eq, Debug, Copy, Clone)]
pub enum SquareIndexError {
    /// The file is not one of the eight files.
    InvalidFile,
    /// The rank is not one of the eight ranks.
    InvalidRank,
}

/// Why a text does not name a square.
#[derive(PartialEq, Eq, Debug, Clone)]
pub enum SquareFormatError {
    /// The text has two characters that are not a file letter of `A` to `H`
    /// and a rank digit of `1` to `8`.
    OutOfRange { found: String },
    /// The text does not have two characters.
    InvalidLength { found: String },
}

/// The file that an upper-case letter of `A` to `H` names, counted from 0.
pub open spec fn spec_file_letter(c: char) -> Option<u8> {
    if 'A' <= c && c <= 'H' {
        Some((c as u8 - 'A' as u8) as u8)
    } else {
        None
    }
}

/// The rank that a digit of `1` to `8` names, counted from 0.
pub open spec fn spec_rank_digit(c: char) -> Option<u8> {
    if '1' <= c && c <= '8' {
        Some((c as u8 - '1' as u8) as u8)
    } else {
        None
    }
}

/// The file that an upper-case letter of `A` to `H` names, counted from 0.
pub fn file_letter(c: char) -> (file: Option<u8>)
    ensures
        file == spec_file_letter(c),
        file matches Some(i) ==> i < BOARD_SIDE,
{
    if 'A' <= c && c <= 'H' {
        Some((c as u8) - ('A' as u8))
    } else {
        None
    }
}

/// The rank that a digit of `1` to `8` names, counted from 0.
pub fn rank_digit(c: char) -> (rank: Option<u8>)
    ensures
        rank == spec_rank_digit(c),
        rank matches Some(i) ==> i < BOARD_SIDE,
{
    if '1' <= c && c <= '8' {
        Some((c as u8) - ('1' as u8))
    } else {
        None
    }
}

impl Square {
    /// The number of the square.
    pub closed spec fn spec_index(self) -> u8 {
        self.sq
    }

    /// The square with the given number.
    pub closed spec fn spec_from_index(index: u8) -> Square {
        Square { sq: index }
    }

    /// The file of the square, counted from 0.
    pub open spec fn spec_x(self) -> u8 {
        self.spec_index() % BOARD_SIDE
    }

    /// The rank of the square, counted from 0. Numbers past the board fold
    /// back onto it.
    pub open spec fn spec_y(self) -> u8 {
        (self.spec_index() / BOARD_SIDE) % BOARD_SIDE
    }

    /// The square that two numbers name, each taken by its lowest eight
    /// bits: the file `x` and the rank `y`, both of 0 to 7.
    pub open spec fn spec_new(x: usize, y: usize) -> Result<u8, SquareIndexError> {
        if x % 256 >= BOARD_SIDE {
            Err(SquareIndexError::InvalidFile)
        } else if y % 256 >= BOARD_SIDE {
            Err(SquareIndexError::InvalidRank)
        } else {
            Ok((BOARD_SIDE * (y % 256) + x % 256) as u8)
        }
    }

    /// The square with the given number.
    pub fn from_index(index: u8) -> (square: Square)
        ensures
            square == Square::spec_from_index(index),
            square.spec_index() == index,
    {
        Square { sq: index }
    }

    /// The number of the square.
    pub fn index(&self) -> (index: u8)
        ensures
            index == self.spec_index(),
    {
        self.sq
    }

    /// The square on file `x` and rank `y`, both counted from 0 and taken by
    /// their lowest eight bits. Fails where the file, or else the rank, is
    /// not below eight.
    pub fn new(x: usize, y: usize) -> (r: Result<Square, SquareIndexError>)
        ensures
            match Square::spec_new(x, y) {
                Ok(index) => r matches Ok(square) && square.spec_index() == index
                    && square.spec_x() == x % 256 && square.spec_y() == y % 256,
                Err(e) => r == Err::<Square, SquareIndexError>(e),
            },
    {
        let file: u8 = (x % 256) as u8;
        let rank: u8 = (y % 256) as u8;
        if file >= BOARD_SIDE {
            return Err(SquareIndexError::InvalidFile);
        }
        if rank >= BOARD_SIDE {
            return Err(SquareIndexError::InvalidRank);
        }
        Ok(Square { sq: BOARD_SIDE * rank + file })
    }

    /// The file of the square, counted from 0.
    pub fn x(&self) -> (x: u8)
        ensures
            x == self.spec_x(),
            x < BOARD_SIDE,
    {
        self.sq % BOARD_SIDE
    }

    /// The rank of the square, counted from 0.
    pub fn y(&self) -> (y: u8)
        ensures
            y == self.spec_y(),
            y < BOARD_SIDE,
    {
        (self.sq / BOARD_SIDE) % BOARD_SIDE
    }

    /// The square that a text of two characters names: a file letter of `A`
    /// to `H` and a rank digit of `1` to `8`. Every other text is refused,
    /// and the error holds the text.
    pub fn from_str(s: &str) -> (r: Result<Square, SquareFormatError>)
        ensures
            match r {
                Ok(square) => s@.len() == 2 && spec_file_letter(s@[0]) == Some(square.spec_x())
                    && spec_rank_digit(s@[1]) == Some(square.spec_y()) && square.spec_index() < 64,
                Err(SquareFormatError::InvalidLength { found }) => s@.len() != 2 && found@ == s@,
                Err(SquareFormatError::OutOfRange { found }) => s@.len() == 2 && found@ == s@ && (
                spec_file_letter(s@[0]) is None || spec_rank_digit(s@[1]) is None),
            },
    {
        let mut chars = s.chars();
        let first = chars.next();
        let second = chars.next();
        let third = chars.next();
        match (first, second, third) {
            (Some(c0), Some(c1), None) => {
                assert(s@.len() == 2) by {
                    assert(s@.drop_first().drop_first().len() == 0);
                }
                assert(c0 == s@[0]);
                assert(c1 == s@[1]) by {
                    assert(s@.drop_first()[0] == s@[1]);
                }
                match (file_letter(c0), rank_digit(c1)) {
                    (Some(file), Some(rank)) => Ok(Square { sq: BOARD_SIDE * rank + file }),
                    _ => Err(SquareFormatError::OutOfRange { found: s.to_owned() }),
                }
            },
            _ => {
                assert(s@.len() != 2) by {
                    if s@.len() == 2 {
                        assert(s@.drop_first().len() == 1);
                        assert(s@.drop_first().drop_first().len() == 0);
                    }
                }
                Err(SquareFormatError::InvalidLength { found: s.to_owned() })
            },
        }
    }
}

/// A square is the square with its number.
pub proof fn lemma_square_is_its_number(index: u8, square: Square)
    ensures
        Square::spec_from_index(index).spec_index() == index,
        Square::spec_from_index(square.spec_index()) == square,
{
}

/// A square made of a file and a rank of the board has them as its file and
/// rank and lies on the board, and a square that lies on the board is the
/// one made of its file and rank.
pub proof fn lemma_square_of_coordinates(x: usize, y: usize, square: Square)
    ensures
        x < 8 && y < 8 ==> Square::spec_new(x, y) == Ok::<u8, SquareIndexError>((8 * y + x) as u8)
            && 8 * y + x < 64,
        square.spec_index() < 64 ==> Square::spec_new(
            square.spec_x() as usize,
            square.spec_y() as usize,
        ) == Ok::<u8, SquareIndexError>(square.spec_index()),
{
}

} // verus!
