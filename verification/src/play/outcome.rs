//! The outcome of a game in play, and the rules on taking moves back.

use crate::play::player::Player;
use vstd::prelude::*;

verus! {

/// How a game in play has ended.
#[derive(PartialEq, Eq, Debug, Copy, Clone, Structural)]
pub enum ChessOutcome {
    Checkmate { winner: Player },
    Stalemate,
    /// The game was given up, by a player if one is named.
    Aborted { who: Option<Player> },
}

/// Why moves cannot be taken back.
#[derive(PartialEq, Eq, Debug, Copy, Clone, Structural)]
pub enum UndoError {
    /// More moves than were played in the whole game.
    BeforeStart,
    /// More moves than were played since the position was set up: the moves
    /// that led to a position given at the start are not known.
    BeforeSetup,
}

/// The outcome of a game after `player` has left it: a game that has no
/// outcome yet is aborted by the player, a game that has one keeps it.
pub open spec fn spec_player_left(outcome: Option<ChessOutcome>, player: Player) -> Option<
    ChessOutcome,
> {
    match outcome {
        None => Some(ChessOutcome::Aborted { who: Some(player) }),
        Some(_) => outcome,
    }
}

/// The outcome of a game after a change of the position. `checkmate` and
/// `stalemate` tell what the position is for the side `turn` that is to
/// move. A checkmate is won by the other side. Without either, a game that
/// was aborted stays so, and any other game goes on.
pub open spec fn spec_update_outcome(
    checkmate: bool,
    stalemate: bool,
    turn: Player,
    outcome: Option<ChessOutcome>,
) -> Option<ChessOutcome> {
    if checkmate {
        Some(ChessOutcome::Checkmate { winner: turn.spec_other_player() })
    } else if stalemate {
        Some(ChessOutcome::Stalemate)
    } else {
        match outcome {
            Some(ChessOutcome::Aborted { who }) => outcome,
            _ => None,
        }
    }
}

/// Whether `count` moves can be taken back in a game of `moves_played` moves
/// of which the first `setup_moves` came with the position at the start.
pub open spec fn spec_check_undo(count: u16, moves_played: u16, setup_moves: u16) -> Result<
    (),
    UndoError,
> {
    if count > moves_played {
        Err(UndoError::BeforeStart)
    } else if count > moves_played - setup_moves {
        Err(UndoError::BeforeSetup)
    } else {
        Ok(())
    }
}

/// The outcome of a game after `player` has left it.
pub fn player_left(outcome: Option<ChessOutcome>, player: Player) -> (r: Option<ChessOutcome>)
    ensures
        r == spec_player_left(outcome, player),
{
    match outcome {
        None => Some(ChessOutcome::Aborted { who: Some(player) }),
        Some(_) => outcome,
    }
}

/// The outcome of a game after a change of the position.
pub fn update_game_outcome(
    checkmate: bool,
    stalemate: bool,
    turn: Player,
    outcome: Option<ChessOutcome>,
) -> (r: Option<ChessOutcome>)
    ensures
        r == spec_update_outcome(checkmate, stalemate, turn, outcome),
{
    if checkmate {
        Some(ChessOutcome::Checkmate { winner: turn.other_player() })
    } else if stalemate {
        Some(ChessOutcome::Stalemate)
    } else {
        match outcome {
            Some(ChessOutcome::Aborted { who: _ }) => outcome,
            _ => None,
        }
    }
}

/// The number of moves that can be taken back.
pub fn total_undoable_moves(moves_played: u16, setup_moves: u16) -> (n: u16)
    requires
        setup_moves <= moves_played,
    ensures
        n == moves_played - setup_moves,
{
    moves_played - setup_moves
}

/// Whether `count` moves can be taken back, and if not, why.
pub fn check_undo(count: u16, moves_played: u16, setup_moves: u16) -> (r: Result<(), UndoError>)
    requires
        setup_moves <= moves_played,
    ensures
        r == spec_check_undo(count, moves_played, setup_moves),
{
    if count > moves_played {
        return Err(UndoError::BeforeStart);
    }
    if count > total_undoable_moves(moves_played, setup_moves) {
        return Err(UndoError::BeforeSetup);
    }
    Ok(())
}

/// An aborted game stays aborted whatever becomes of the position, short of
/// a checkmate or a stalemate; and a player who leaves changes nothing of a
/// game that has an outcome.
pub proof fn lemma_abort_is_final(
    who: Option<Player>,
    turn: Player,
    player: Player,
    outcome: ChessOutcome,
)
    ensures
        spec_update_outcome(false, false, turn, Some(ChessOutcome::Aborted { who: who })) == Some(
            ChessOutcome::Aborted { who: who },
        ),
        spec_player_left(Some(outcome), player) == Some(outcome),
{
}

/// Taking back no move is always possible, and taking back `count` moves is
/// possible exactly where no more than `count` moves were played since the
/// position was set up.
pub proof fn lemma_undo_within_played(count: u16, moves_played: u16, setup_moves: u16)
    requires
        setup_moves <= moves_played,
    ensures
        spec_check_undo(0, moves_played, setup_moves) is Ok,
        spec_check_undo(count, moves_played, setup_moves) is Ok <==> count <= moves_played
            - setup_moves,
{
}

} // verus!
