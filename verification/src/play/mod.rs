//! What is done with games once they are read: the sides of a game, squares
//! of a real board, the outcome of a game in play, the choice of the move
//! that a record means, the replay of a record move by move, lists of
//! games shown page by page, and a board on a touch screen.

pub mod board;
pub mod outcome;
pub mod paging;
pub mod player;
pub mod proto;
pub mod record;
pub mod replay;
pub mod resolve;
pub mod savestates;
pub mod touch;
