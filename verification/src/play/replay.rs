//! The replay of a game move by move: which move of the record is next,
//! what it asks of the board, and what is told about it.
//!
//! The board itself is kept elsewhere. Here stands what is decided around
//! it: a cursor through the moves of the record, which also counts the
//! moves that a viewer has tried on the board by hand.

use crate::model::{Game, GameTermination, Move};
use crate::play::board;
use crate::square::{File, Piece, Rank, Square};
use vstd::prelude::*;
use vstd::string::StringExecFns;

verus! {

/// What a viewer is shown after a step of a replay.
pub struct ReplayResponse {
    pub fen: String,
    pub comment: Option<String>,
    pub last_move_from: Option<board::Square>,
    pub last_move_to: Option<board::Square>,
}

/// Where a replay stands.
#[derive(PartialEq, Eq, Debug, Copy, Clone, Structural)]
pub struct ReplayCursor {
    /// How many moves of the record have been played.
    pub replay_moves_played_offset: usize,
    /// How many moves the viewer has played by hand on top of them.
    pub player_moves_played_offset: usize,
    pub is_white_turn: bool,
}

/// What a replay does next.
#[derive(PartialEq, Eq, Debug, Copy, Clone, Structural)]
pub enum ReplayStep {
    /// The move of the record at this place is played.
    Play { index: usize },
    /// The viewer's own moves stand in the way and have to be taken back.
    Blocked,
    /// The record has no further move.
    Finished,
}

/// What a move of a record asks of the board: a piece of a kind and a side
/// that moves to a square, and what is known of where it comes from.
#[derive(PartialEq, Eq, Debug, Copy, Clone, Structural)]
pub struct ReplayTarget {
    pub piece: Piece,
    pub is_white: bool,
    pub destination: board::Square,
    pub src_col: Option<u8>,
    pub src_row: Option<u8>,
}

/// The number of a file on the board, `None` for an unknown file.
pub open spec fn spec_file_number(file: Option<File>) -> Option<u8> {
    match file {
        Some(f) => Some(f.spec_index() as u8),
        None => None,
    }
}

/// The number of a rank on the board, `None` for an unknown rank.
pub open spec fn spec_rank_number(rank: Option<Rank>) -> Option<u8> {
    match rank {
        Some(r) => Some(r.spec_index() as u8),
        None => None,
    }
}

/// The number of the home rank of a side: the first rank for White, the
/// eighth for Black.
pub open spec fn spec_home_rank(is_white: bool) -> u8 {
    if is_white {
        0
    } else {
        7
    }
}

/// What a move asks of the board when the side `is_white` is to move. A
/// move of a piece asks for that piece to reach its destination, from the
/// file and rank that the record tells. Castling asks for the king on the
/// e-file of the home rank to reach the rook's square: that of the h-file
/// on the king's side, that of the a-file on the queen's side.
pub open spec fn spec_target(m: Move, is_white: bool) -> ReplayTarget {
    match m {
        Move::BasicMove { piece, to, from, .. } => ReplayTarget {
            piece: piece,
            is_white: is_white,
            destination: board::Square::spec_from_index(
                (8 * spec_rank_number(to.spec_rank()).unwrap() + spec_file_number(
                    to.spec_file(),
                ).unwrap()) as u8,
            ),
            src_col: spec_file_number(from.spec_file()),
            src_row: spec_rank_number(from.spec_rank()),
        },
        Move::CastleKingside => ReplayTarget {
            piece: Piece::King,
            is_white: is_white,
            destination: board::Square::spec_from_index((8 * spec_home_rank(is_white) + 7) as u8),
            src_col: Some(4),
            src_row: Some(spec_home_rank(is_white)),
        },
        Move::CastleQueenside => ReplayTarget {
            piece: Piece::King,
            is_white: is_white,
            destination: board::Square::spec_from_index((8 * spec_home_rank(is_white)) as u8),
            src_col: Some(4),
            src_row: Some(spec_home_rank(is_white)),
        },
    }
}

/// The number of a file on the board, `None` for an unknown file.
pub fn file_number(file: Option<File>) -> (n: Option<u8>)
    ensures
        n == spec_file_number(file),
        n matches Some(i) ==> i < 8,
{
    match file {
        Some(f) => Some(f.index() as u8),
        None => None,
    }
}

/// The number of a rank on the board, `None` for an unknown rank.
pub fn rank_number(rank: Option<Rank>) -> (n: Option<u8>)
    ensures
        n == spec_rank_number(rank),
        n matches Some(i) ==> i < 8,
{
    match rank {
        Some(r) => Some(r.index() as u8),
        None => None,
    }
}

/// What a move asks of the board when the side `is_white` is to move. The
/// destination of a move of a piece must be a known square, as it is in
/// every move that the parser reads.
pub fn target(m: &Move, is_white: bool) -> (t: ReplayTarget)
    requires
        m matches Move::BasicMove { to, .. } ==> to.is_known(),
    ensures
        t == spec_target(*m, is_white),
        t.destination.spec_index() < 64,
{
    let home: u8 = if is_white {
        0
    } else {
        7
    };
    match m {
        Move::BasicMove { piece, to, from, .. } => {
            let file = match file_number(to.file()) {
                Some(f) => f,
                None => 0,
            };
            let rank = match rank_number(to.rank()) {
                Some(r) => r,
                None => 0,
            };
            ReplayTarget {
                piece: *piece,
                is_white: is_white,
                destination: board::Square::from_index(8 * rank + file),
                src_col: file_number(from.file()),
                src_row: rank_number(from.rank()),
            }
        },
        Move::CastleKingside => ReplayTarget {
            piece: Piece::King,
            is_white: is_white,
            destination: board::Square::from_index(8 * home + 7),
            src_col: Some(4),
            src_row: Some(home),
        },
        Move::CastleQueenside => ReplayTarget {
            piece: Piece::King,
            is_white: is_white,
            destination: board::Square::from_index(8 * home),
            src_col: Some(4),
            src_row: Some(home),
        },
    }
}

impl ReplayCursor {
    /// The cursor at the start of a replay: no move played, White to move.
    pub open spec fn spec_start() -> ReplayCursor {
        ReplayCursor {
            replay_moves_played_offset: 0,
            player_moves_played_offset: 0,
            is_white_turn: true,
        }
    }

    /// What comes next in a record of `total_moves` moves: its next move,
    /// unless the viewer's own moves stand in the way or the record is at
    /// its end.
    pub open spec fn spec_next_step(self, total_moves: usize) -> ReplayStep {
        if self.replay_moves_played_offset < total_moves && self.player_moves_played_offset == 0 {
            ReplayStep::Play { index: self.replay_moves_played_offset }
        } else if self.player_moves_played_offset > 0 {
            ReplayStep::Blocked
        } else {
            ReplayStep::Finished
        }
    }

    /// The cursor after the board has taken, or refused, a move of the
    /// record: a move that was taken is counted and the turn passes on.
    pub open spec fn spec_after_replay_move(self, accepted: bool) -> ReplayCursor {
        if accepted {
            ReplayCursor {
                replay_moves_played_offset: (self.replay_moves_played_offset + 1) as usize,
                player_moves_played_offset: self.player_moves_played_offset,
                is_white_turn: !self.is_white_turn,
            }
        } else {
            self
        }
    }

    /// The cursor after the board has taken, or refused, a move of the
    /// viewer: a move that was taken is counted.
    pub open spec fn spec_after_player_move(self, accepted: bool) -> ReplayCursor {
        if accepted {
            ReplayCursor {
                player_moves_played_offset: (self.player_moves_played_offset + 1) as usize,
                ..self
            }
        } else {
            self
        }
    }

    /// The cursor after a move is taken back: the viewer's last move if
    /// there is one, else the last move of the record, with which the turn
    /// passes back. At the start nothing changes.
    pub open spec fn spec_after_undo(self) -> ReplayCursor {
        if self.player_moves_played_offset > 0 {
            ReplayCursor {
                player_moves_played_offset: (self.player_moves_played_offset - 1) as usize,
                ..self
            }
        } else if self.replay_moves_played_offset > 0 {
            ReplayCursor {
                replay_moves_played_offset: (self.replay_moves_played_offset - 1) as usize,
                player_moves_played_offset: 0,
                is_white_turn: !self.is_white_turn,
            }
        } else {
            self
        }
    }

    /// The cursor at the start of a replay.
    pub fn new() -> (cursor: ReplayCursor)
        ensures
            cursor == ReplayCursor::spec_start(),
    {
        ReplayCursor {
            replay_moves_played_offset: 0,
            player_moves_played_offset: 0,
            is_white_turn: true,
        }
    }

    /// Puts the cursor back to the start.
    pub fn reset(&mut self)
        ensures
            *final(self) == ReplayCursor::spec_start(),
    {
        self.replay_moves_played_offset = 0;
        self.player_moves_played_offset = 0;
        self.is_white_turn = true;
    }

    /// What comes next in a record of `total_moves` moves.
    pub fn next_step(&self, total_moves: usize) -> (step: ReplayStep)
        ensures
            step == self.spec_next_step(total_moves),
    {
        if self.replay_moves_played_offset < total_moves && self.player_moves_played_offset == 0 {
            ReplayStep::Play { index: self.replay_moves_played_offset }
        } else if self.player_moves_played_offset > 0 {
            ReplayStep::Blocked
        } else {
            ReplayStep::Finished
        }
    }

    /// Records that the board has taken, or refused, the move of the record
    /// at the cursor, and tells whether a move that was taken was the last
    /// of the `total_moves` moves of the record.
    pub fn replay_move_played(&mut self, accepted: bool, total_moves: usize) -> (finished: bool)
        requires
            old(self).replay_moves_played_offset < total_moves,
        ensures
            *final(self) == old(self).spec_after_replay_move(accepted),
            finished == (accepted && old(self).replay_moves_played_offset + 1 == total_moves),
    {
        if accepted {
            self.is_white_turn = !self.is_white_turn;
            self.replay_moves_played_offset = self.replay_moves_played_offset + 1;
            self.replay_moves_played_offset == total_moves
        } else {
            false
        }
    }

    /// Records that the board has taken, or refused, a move of the viewer.
    pub fn player_moved(&mut self, accepted: bool)
        requires
            old(self).player_moves_played_offset < usize::MAX,
        ensures
            *final(self) == old(self).spec_after_player_move(accepted),
    {
        if accepted {
            self.player_moves_played_offset = self.player_moves_played_offset + 1;
        }
    }

    /// Takes one move back in the count, and tells whether there was one:
    /// whether the board has a move to take back.
    pub fn undo_move(&mut self) -> (undone: bool)
        ensures
            *final(self) == old(self).spec_after_undo(),
            undone == (old(self).player_moves_played_offset > 0
                || old(self).replay_moves_played_offset > 0),
    {
        if self.player_moves_played_offset > 0 {
            self.player_moves_played_offset = self.player_moves_played_offset - 1;
            true
        } else if self.replay_moves_played_offset > 0 {
            self.replay_moves_played_offset = self.replay_moves_played_offset - 1;
            self.is_white_turn = !self.is_white_turn;
            true
        } else {
            false
        }
    }
}

/// The words that tell how a game ended.
pub open spec fn spec_termination_string(termination: GameTermination) -> Seq<char> {
    match termination {
        GameTermination::WhiteWins => " Game Over: White Won"@,
        GameTermination::BlackWins => " Game Over: Black Won"@,
        GameTermination::DrawnGame => " Game Over: Draw"@,
        GameTermination::Unknown => " Game Over: Unknown"@,
    }
}

/// The words that tell how a game ended.
pub fn termination_string_from(term_info: GameTermination) -> (text: &'static str)
    ensures
        text@ == spec_termination_string(term_info),
{
    match term_info {
        GameTermination::WhiteWins => " Game Over: White Won",
        GameTermination::BlackWins => " Game Over: Black Won",
        GameTermination::DrawnGame => " Game Over: Draw",
        GameTermination::Unknown => " Game Over: Unknown",
    }
}

/// What is told about a move of the record after the board has taken or
/// refused it: the comment of the move, with the end of the game added
/// behind the last move; or, for a move that was refused, a warning.
pub open spec fn spec_replay_comment(
    comment: Option<Seq<char>>,
    accepted: bool,
    finished: bool,
    termination: GameTermination,
) -> Option<Seq<char>> {
    if !accepted {
        Some("Error playing replay move, please check your PGN's validity"@)
    } else if finished {
        Some(
            match comment {
                Some(text) => text,
                None => Seq::empty(),
            } + spec_termination_string(termination),
        )
    } else {
        comment
    }
}

/// What is told about a move of the record after the board has taken or
/// refused it.
pub fn replay_comment(
    comment: Option<String>,
    accepted: bool,
    finished: bool,
    termination: GameTermination,
) -> (told: Option<String>)
    ensures
        crate::model::text_view(told) == spec_replay_comment(
            crate::model::text_view(comment),
            accepted,
            finished,
            termination,
        ),
{
    if !accepted {
        Some("Error playing replay move, please check your PGN's validity".to_owned())
    } else if finished {
        let mut text = match comment {
            Some(text) => text,
            None => String::new(),
        };
        text.append(termination_string_from(termination));
        Some(text)
    } else {
        comment
    }
}

/// The place of the first tag with the given name.
pub open spec fn spec_find_tag(tags: Seq<(Seq<char>, Seq<char>)>, name: Seq<char>) -> Option<int>
    decreases tags.len(),
{
    if tags.len() == 0 {
        None
    } else if tags[0].0 == name {
        Some(0)
    } else {
        match spec_find_tag(tags.drop_first(), name) {
            Some(i) => Some(i + 1),
            None => None,
        }
    }
}

/// The value of the first tag with the given name, or the words `N/A`.
pub open spec fn spec_tag_or_unknown(tags: Seq<(Seq<char>, Seq<char>)>, name: Seq<char>) -> Seq<char> {
    match spec_find_tag(tags, name) {
        Some(i) => tags[i].1,
        None => "N/A"@,
    }
}

/// The line that names a game in a list of games: who played whom, at which
/// event and in which round.
pub open spec fn spec_text_for_replay(tags: Seq<(Seq<char>, Seq<char>)>) -> Seq<char> {
    spec_tag_or_unknown(tags, "White"@) + " vs "@ + spec_tag_or_unknown(tags, "Black"@) + " at "@
        + spec_tag_or_unknown(tags, "Event"@) + " "@ + spec_tag_or_unknown(tags, "Round"@)
}

/// The place of the first tag with the given name. Names are compared
/// character by character: letter case counts.
pub fn find_tag(tags: &Vec<(String, String)>, name: &str) -> (r: Option<usize>)
    ensures
        match r {
            Some(i) => spec_find_tag(crate::model::tags_view(tags@), name@) == Some(i as int) && i < tags@.len(),
            None => spec_find_tag(crate::model::tags_view(tags@), name@) is None,
        },
{
    let wanted = name.to_owned();
    let ghost all = crate::model::tags_view(tags@);
    let mut i: usize = 0;
    proof {
        assert(all.skip(0) =~= all);
    }
    while i < tags.len()
        invariant
            i <= tags.len(),
            wanted@ == name@,
            all == crate::model::tags_view(tags@),
            match spec_find_tag(all.skip(i as int), name@) {
                Some(k) => spec_find_tag(all, name@) == Some(k + i),
                None => spec_find_tag(all, name@) is None,
            },
        decreases tags.len() - i,
    {
        proof {
            assert(all.skip(i as int)[0] == all[i as int]);
            assert(all.skip(i as int).drop_first() =~= all.skip(i + 1));
        }
        if tags[i].0 == wanted {
            return Some(i);
        }
        i += 1;
    }
    proof {
        assert(all.skip(i as int).len() == 0);
    }
    None
}

/// The position that a game starts from, if its tags give one: the value
/// of the first tag named `FEN`.
pub fn starting_fen(game: &Game) -> (fen: Option<&String>)
    ensures
        match spec_find_tag(game@.tags, "FEN"@) {
            Some(i) => fen matches Some(text) && text@ == game@.tags[i].1,
            None => fen is None,
        },
{
    match find_tag(&game.tags, "FEN") {
        Some(i) => {
            assert(game@.tags[i as int] == (game.tags@[i as int].0@, game.tags@[i as int].1@));
            let text = &game.tags[i].1;
            assert(text@ == game@.tags[i as int].1);
            Some(text)
        },
        None => None,
    }
}

/// The value of the first tag with the given name, or the words `N/A`.
pub fn tag_or_unknown<'a>(tags: &'a Vec<(String, String)>, name: &str) -> (value: &'a str)
    ensures
        value@ == spec_tag_or_unknown(crate::model::tags_view(tags@), name@),
{
    match find_tag(tags, name) {
        Some(i) => {
            assert(crate::model::tags_view(tags@)[i as int] == (
                tags@[i as int].0@,
                tags@[i as int].1@,
            ));
            tags[i].1.as_str()
        },
        None => "N/A",
    }
}

/// The line that names a game in a list of games, made of the values of its
/// tags `White`, `Black`, `Event` and `Round`, each replaced by `N/A` where
/// the game has no such tag.
pub fn construct_text_for_replay(game: &Game) -> (text: String)
    ensures
        text@ == spec_text_for_replay(game@.tags),
{
    let mut replay_text = tag_or_unknown(&game.tags, "White").to_owned();
    replay_text.append(" vs ");
    replay_text.append(tag_or_unknown(&game.tags, "Black"));
    replay_text.append(" at ");
    replay_text.append(tag_or_unknown(&game.tags, "Event"));
    replay_text.append(" ");
    replay_text.append(tag_or_unknown(&game.tags, "Round"));
    replay_text
}

/// Taking back a move that the board took puts the cursor where it was.
pub proof fn lemma_undo_reverts_a_move(cursor: ReplayCursor)
    requires
        cursor.replay_moves_played_offset < usize::MAX,
        cursor.player_moves_played_offset < usize::MAX,
    ensures
        cursor.spec_after_player_move(true).spec_after_undo() == cursor,
        cursor.player_moves_played_offset == 0 ==> cursor.spec_after_replay_move(
            true,
        ).spec_after_undo() == cursor,
        cursor.spec_after_replay_move(false) == cursor,
        cursor.spec_after_player_move(false) == cursor,
{
}

/// A move of the record is played only while the viewer has no move of
/// their own on the board, and then it is the move at the cursor.
pub proof fn lemma_replay_waits_for_undo(cursor: ReplayCursor, total_moves: usize)
    ensures
        cursor.player_moves_played_offset > 0 ==> cursor.spec_next_step(total_moves)
            == ReplayStep::Blocked,
        cursor.spec_next_step(total_moves) matches ReplayStep::Play { index } ==> index
            == cursor.replay_moves_played_offset && index < total_moves,
{
}

} // verus!
