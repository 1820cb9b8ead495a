//! Chess game records in portable game notation: a parser that turns the
//! text of one or more games into typed values, and the rules by which games
//! are replayed once they are read.
//!
//! The text is read by [`reader::read_games`]. Each rule of the notation is
//! a function of [`parser`], proved against its definition in [`grammar`];
//! the values that the rules build are those of [`model`] and [`square`].
//! Games are written by [`writer::write_games`], as text that reads back as
//! the games: [`writing`] and [`notation`] hold the proof. [`laws`] and
//! [`progress`] hold what else is proved of the grammar on every text, and
//! [`play`] what is done with games once they are read.

pub mod grammar;
pub mod laws;
pub mod model;
pub mod notation;
pub mod parser;
pub mod play;
pub mod progress;
pub mod quoting;
pub mod reader;
pub mod scan;
pub mod square;
pub mod writer;
pub mod writing;

pub use model::{
    AnnotationSymbol, Game, GameMove, GameTermination, MarkedMove, Move, MoveNumber, MoveSequence,
    NAG,
};
pub use reader::read_games;
pub use scan::{ParseError, ParseResult};
pub use square::{File, Piece, Rank, Square};
