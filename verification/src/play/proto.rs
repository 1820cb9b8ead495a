//! What the players of a game and its host say to each other, and who may
//! ask for what.

use crate::play::board::Square;
use crate::play::outcome::ChessOutcome;
use crate::play::player::Player;
use vstd::prelude::*;

verus! {

/// The rules that a game is played under.
#[derive(Clone, Debug)]
pub struct ChessConfig {
    pub starting_fen: Option<String>,
    pub can_black_undo: bool,
    pub can_white_undo: bool,
    pub allow_undo_after_loose: bool,
}

/// What a player or a spectator asks of the host of a game.
#[derive(Clone, Debug, PartialEq)]
pub enum ChessRequest {
    CurrentBoard,
    CurrentTotalMoves,
    CurrentOutcome,
    MovePiece { source: Square, destination: Square },
    Abort { message: String },
    UndoMoves { moves: u16 },
}

/// What the host of a game tells the players and the spectators.
#[derive(Clone, Debug, PartialEq)]
pub enum ChessUpdate {
    /// The position, as the answer to `ChessRequest::CurrentBoard` or at
    /// any other time.
    Board { fen: String },
    PlayerMovedAPiece { player: Player, moved_piece_source: Square, moved_piece_destination: Square },
    /// Another player is to move now, in the given position.
    PlayerSwitch { player: Player, fen: String },
    /// The answer to `ChessRequest::MovePiece` where the move was refused.
    MovePieceFailedResponse { message: String, fen: String },
    Outcome { outcome: Option<ChessOutcome> },
    PossibleMoves { possible_moves: Vec<(Square, Square)> },
    /// Something went wrong at the host.
    GenericErrorResponse { message: String },
    UndoMovesFailedResponse { message: String },
    MovesUndone { who: Player, moves: u16 },
    CurrentTotalMovesReponse { total_moves: u16 },
}

/// What the host decides on a request to take moves back.
#[derive(PartialEq, Eq, Debug, Copy, Clone, Structural)]
pub enum UndoVerdict {
    /// The moves may be taken back.
    Allowed,
    /// The rules of the game do not let this player take moves back.
    NotPermitted,
    /// It is neither the player's turn nor is the game over, under rules
    /// that allow taking back after the end of the game.
    OnlyWhenPlayingOrGameOver,
    /// It is not the player's turn, or the game is over, under rules that
    /// do not allow taking back after the end of the game.
    OnlyWhenPlaying,
}

impl ChessRequest {
    /// Whether a spectator may send this request: only the requests for the
    /// position and for the number of moves.
    pub open spec fn spec_available_to_spectator(self) -> bool {
        self is CurrentBoard || self is CurrentTotalMoves
    }

    /// Whether a spectator may send this request.
    pub fn available_to_spectator(&self) -> (available: bool)
        ensures
            available == self.spec_available_to_spectator(),
    {
        match self {
            ChessRequest::CurrentBoard | ChessRequest::CurrentTotalMoves => true,
            _ => false,
        }
    }
}

impl ChessConfig {
    /// Whether the rules let `player` take moves back at all.
    pub open spec fn spec_may_undo(self, player: Player) -> bool {
        match player {
            Player::Black => self.can_black_undo,
            Player::White => self.can_white_undo,
        }
    }

    /// What is decided on a request of `sender` to take moves back, when
    /// `turn` is to move and the game has the given outcome. A player who
    /// may take moves back may do so on their own turn while the game goes
    /// on, and after its end where the rules allow that.
    pub open spec fn spec_undo_verdict(
        self,
        sender: Player,
        turn: Player,
        outcome: Option<ChessOutcome>,
    ) -> UndoVerdict {
        if !self.spec_may_undo(sender) {
            UndoVerdict::NotPermitted
        } else if (turn == sender && outcome is None) || (outcome is Some
            && self.allow_undo_after_loose) {
            UndoVerdict::Allowed
        } else if self.allow_undo_after_loose {
            UndoVerdict::OnlyWhenPlayingOrGameOver
        } else {
            UndoVerdict::OnlyWhenPlaying
        }
    }

    /// What is decided on a request of `sender` to take moves back.
    pub fn undo_verdict(&self, sender: Player, turn: Player, outcome: Option<ChessOutcome>) -> (v:
        UndoVerdict)
        ensures
            v == self.spec_undo_verdict(sender, turn, outcome),
    {
        let player_allowed = match sender {
            Player::Black => self.can_black_undo,
            Player::White => self.can_white_undo,
        };
        if !player_allowed {
            UndoVerdict::NotPermitted
        } else if !(turn == sender && outcome.is_none() || outcome.is_some()
            && self.allow_undo_after_loose) {
            if self.allow_undo_after_loose {
                UndoVerdict::OnlyWhenPlayingOrGameOver
            } else {
                UndoVerdict::OnlyWhenPlaying
            }
        } else {
            UndoVerdict::Allowed
        }
    }
}

impl UndoVerdict {
    /// The words in which a refusal is told to the player who asked; empty
    /// where the moves may be taken back.
    pub fn message(&self) -> (text: &'static str)
        ensures
            text@ == self.spec_message(),
    {
        match self {
            UndoVerdict::Allowed => "",
            UndoVerdict::NotPermitted => "You are not permitted to do that in this game.",
            UndoVerdict::OnlyWhenPlayingOrGameOver => {
                "You can only undo when you are playing or it's game over."
            },
            UndoVerdict::OnlyWhenPlaying => "You can only undo when you are playing.",
        }
    }

    /// The words in which a refusal is told.
    pub open spec fn spec_message(self) -> Seq<char> {
        match self {
            UndoVerdict::Allowed => ""@,
            UndoVerdict::NotPermitted => "You are not permitted to do that in this game."@,
            UndoVerdict::OnlyWhenPlayingOrGameOver => "You can only undo when you are playing or it's game over."@,
            UndoVerdict::OnlyWhenPlaying => "You can only undo when you are playing."@,
        }
    }
}

/// No player takes moves back on the opponent's turn while the game goes
/// on, whatever the rules; and a player whom the rules do not let take
/// moves back never does.
pub proof fn lemma_undo_needs_turn_or_end(config: ChessConfig, sender: Player, turn: Player)
    ensures
        turn != sender ==> config.spec_undo_verdict(sender, turn, None) != UndoVerdict::Allowed,
        !config.spec_may_undo(sender) ==> forall|o: Option<ChessOutcome>|
            #[trigger] config.spec_undo_verdict(sender, turn, o) == UndoVerdict::NotPermitted,
{
}

} // verus!
