//! The typed form of a game record: moves, their marks and annotations,
//! nested variations, tag pairs and the result.
//!
//! Moves form a tree. A [`GameMove`] owns its variations, each of them a
//! [`MoveSequence`] of further moves. The types that own text or lists have
//! a view over `Seq`, in which contracts are stated; the plain ones stand
//! for themselves.

use crate::square::{Piece, Square};
use vstd::prelude::*;

verus! {

/// A move as written in move text, before it is resolved against a position.
#[derive(PartialEq, Eq, Debug, Copy, Clone)]
pub enum Move {
    BasicMove {
        piece: Piece,
        to: Square,
        /// What the text tells of the origin square; `Square::XX` if nothing.
        from: Square,
        is_capture: bool,
        promoted_to: Option<Piece>,
    },
    CastleKingside,
    CastleQueenside,
}

/// A judgement of a move, written with `!` and `?`.
#[derive(PartialEq, Eq, Debug, Copy, Clone)]
pub enum AnnotationSymbol {
    Blunder,
    Mistake,
    Dubious,
    Interesting,
    Good,
    Brilliant,
}

/// A move with its check and checkmate marks and its annotation.
#[derive(PartialEq, Eq, Debug, Copy, Clone)]
pub struct MarkedMove {
    pub move_: Move,
    pub is_check: bool,
    pub is_checkmate: bool,
    pub annotation_symbol: Option<AnnotationSymbol>,
}

/// A move number, and the side whose move it numbers.
#[derive(PartialEq, Eq, Debug, Copy, Clone)]
pub enum MoveNumber {
    White(u32),
    Black(u32),
}

/// A numeric annotation glyph.
#[derive(PartialEq, Eq, Debug, Copy, Clone)]
pub struct NAG(pub u32);

/// A move of a game with all that the record attaches to it.
#[derive(PartialEq, Eq, Debug)]
pub struct GameMove {
    pub number: Option<MoveNumber>,
    pub move_: MarkedMove,
    pub nag: Option<NAG>,
    pub comment: Option<String>,
    pub variations: Vec<MoveSequence>,
}

/// A line of play: the main line of a game, or the body of a variation.
#[derive(PartialEq, Eq, Debug)]
pub struct MoveSequence {
    pub comment: Option<String>,
    pub moves: Vec<GameMove>,
}

/// How a game ended.
#[derive(PartialEq, Eq, Debug, Copy, Clone)]
pub enum GameTermination {
    WhiteWins,
    BlackWins,
    DrawnGame,
    Unknown,
}

/// One game of a record.
#[derive(PartialEq, Eq, Debug)]
pub struct Game {
    pub tags: Vec<(String, String)>,
    pub comment: Option<String>,
    pub moves: Vec<GameMove>,
    pub termination: GameTermination,
}

/// The mathematical value of a [`GameMove`].
pub struct GameMoveView {
    pub number: Option<MoveNumber>,
    pub move_: MarkedMove,
    pub nag: Option<NAG>,
    pub comment: Option<Seq<char>>,
    pub variations: Seq<MoveSequenceView>,
}

/// The mathematical value of a [`MoveSequence`].
pub struct MoveSequenceView {
    pub comment: Option<Seq<char>>,
    pub moves: Seq<GameMoveView>,
}

/// The mathematical value of a [`Game`].
pub struct GameView {
    pub tags: Seq<(Seq<char>, Seq<char>)>,
    pub comment: Option<Seq<char>>,
    pub moves: Seq<GameMoveView>,
    pub termination: GameTermination,
}

/// The text of an optional string.
pub open spec fn text_view(text: Option<String>) -> Option<Seq<char>> {
    match text {
        Some(s) => Some(s@),
        None => None,
    }
}

/// The value of a move: its own fields, and the values of its variations in
/// order.
pub open spec fn game_move_view(m: GameMove) -> GameMoveView
    decreases m,
{
    GameMoveView {
        number: m.number,
        move_: m.move_,
        nag: m.nag,
        comment: text_view(m.comment),
        variations: Seq::new(
            m.variations@.len(),
            |i: int|
                if 0 <= i < m.variations@.len() {
                    move_sequence_view(m.variations@[i])
                } else {
                    arbitrary()
                },
        ),
    }
}

/// The value of a line: its comment, and the values of its moves in order.
pub open spec fn move_sequence_view(s: MoveSequence) -> MoveSequenceView
    decreases s,
{
    MoveSequenceView {
        comment: text_view(s.comment),
        moves: Seq::new(
            s.moves@.len(),
            |i: int|
                if 0 <= i < s.moves@.len() {
                    game_move_view(s.moves@[i])
                } else {
                    arbitrary()
                },
        ),
    }
}

/// The values of a list of moves, in order.
pub open spec fn moves_view(moves: Seq<GameMove>) -> Seq<GameMoveView> {
    Seq::new(moves.len(), |i: int| game_move_view(moves[i]))
}

/// The values of a list of lines, in order.
pub open spec fn lines_view(lines: Seq<MoveSequence>) -> Seq<MoveSequenceView> {
    Seq::new(lines.len(), |i: int| move_sequence_view(lines[i]))
}

/// The texts of a list of tag pairs, in order.
pub open spec fn tags_view(tags: Seq<(String, String)>) -> Seq<(Seq<char>, Seq<char>)> {
    Seq::new(tags.len(), |i: int| (tags[i].0@, tags[i].1@))
}

/// The values of a list of games, in order.
pub open spec fn games_view(games: Seq<Game>) -> Seq<GameView> {
    Seq::new(games.len(), |i: int| games[i]@)
}

impl View for GameMove {
    type V = GameMoveView;

    open spec fn view(&self) -> GameMoveView {
        game_move_view(*self)
    }
}

impl View for MoveSequence {
    type V = MoveSequenceView;

    open spec fn view(&self) -> MoveSequenceView {
        move_sequence_view(*self)
    }
}

impl View for Game {
    type V = GameView;

    open spec fn view(&self) -> GameView {
        GameView {
            tags: tags_view(self.tags@),
            comment: text_view(self.comment),
            moves: moves_view(self.moves@),
            termination: self.termination,
        }
    }
}

/// The value of a move is made of its fields as `moves_view`, `lines_view`
/// and `text_view` give them.
pub proof fn lemma_game_move_view(m: GameMove)
    ensures
        m@ == (GameMoveView {
            number: m.number,
            move_: m.move_,
            nag: m.nag,
            comment: text_view(m.comment),
            variations: lines_view(m.variations@),
        }),
{
    assert(game_move_view(m).variations =~= lines_view(m.variations@));
}

/// The value of a line is made of its fields as `moves_view` and `text_view`
/// give them.
pub proof fn lemma_move_sequence_view(s: MoveSequence)
    ensures
        s@ == (MoveSequenceView { comment: text_view(s.comment), moves: moves_view(s.moves@) }),
{
    assert(move_sequence_view(s).moves =~= moves_view(s.moves@));
}

/// A copy of an optional string.
pub fn clone_text(text: &Option<String>) -> (copy: Option<String>)
    ensures
        text_view(copy) == text_view(*text),
{
    match text {
        Some(s) => Some(s.clone()),
        None => None,
    }
}

/// A copy of a list of moves, variations included.
pub fn clone_moves(moves: &Vec<GameMove>) -> (copy: Vec<GameMove>)
    ensures
        moves_view(copy@) == moves_view(moves@),
    decreases moves, 0nat,
{
    let mut copy: Vec<GameMove> = Vec::new();
    let mut i: usize = 0;
    while i < moves.len()
        invariant
            i <= moves.len(),
            copy@.len() == i,
            forall|j: int| 0 <= j < i ==> copy@[j]@ == moves@[j]@,
        decreases moves.len() - i,
    {
        let m = moves[i].clone();
        copy.push(m);
        i += 1;
    }
    assert(moves_view(copy@) =~= moves_view(moves@));
    copy
}

/// A copy of a list of lines, with all their moves.
pub fn clone_lines(lines: &Vec<MoveSequence>) -> (copy: Vec<MoveSequence>)
    ensures
        lines_view(copy@) == lines_view(lines@),
    decreases lines, 0nat,
{
    let mut copy: Vec<MoveSequence> = Vec::new();
    let mut i: usize = 0;
    while i < lines.len()
        invariant
            i <= lines.len(),
            copy@.len() == i,
            forall|j: int| 0 <= j < i ==> copy@[j]@ == lines@[j]@,
        decreases lines.len() - i,
    {
        let line = lines[i].clone();
        copy.push(line);
        i += 1;
    }
    assert(lines_view(copy@) =~= lines_view(lines@));
    copy
}

/// A copy of a list of tag pairs.
pub fn clone_tags(tags: &Vec<(String, String)>) -> (copy: Vec<(String, String)>)
    ensures
        tags_view(copy@) == tags_view(tags@),
{
    let mut copy: Vec<(String, String)> = Vec::new();
    let mut i: usize = 0;
    while i < tags.len()
        invariant
            i <= tags.len(),
            copy@.len() == i,
            forall|j: int| 0 <= j < i ==> copy@[j].0@ == tags@[j].0@ && copy@[j].1@ == tags@[j].1@,
        decreases tags.len() - i,
    {
        let name = tags[i].0.clone();
        let value = tags[i].1.clone();
        copy.push((name, value));
        i += 1;
    }
    assert(tags_view(copy@) =~= tags_view(tags@));
    copy
}

impl Clone for GameMove {
    /// A copy with the same value, variations included.
    fn clone(&self) -> (copy: Self)
        ensures
            copy@ == self@,
        decreases self, 1nat,
    {
        let copy = GameMove {
            number: self.number,
            move_: self.move_,
            nag: self.nag,
            comment: clone_text(&self.comment),
            variations: clone_lines(&self.variations),
        };
        proof {
            lemma_game_move_view(copy);
            lemma_game_move_view(*self);
        }
        copy
    }
}

impl Clone for MoveSequence {
    /// A copy with the same value, with all its moves.
    fn clone(&self) -> (copy: Self)
        ensures
            copy@ == self@,
        decreases self, 1nat,
    {
        let copy = MoveSequence {
            comment: clone_text(&self.comment),
            moves: clone_moves(&self.moves),
        };
        proof {
            lemma_move_sequence_view(copy);
            lemma_move_sequence_view(*self);
        }
        copy
    }
}

impl Clone for Game {
    /// A copy with the same value.
    fn clone(&self) -> (copy: Self)
        ensures
            copy@ == self@,
    {
        Game {
            tags: clone_tags(&self.tags),
            comment: clone_text(&self.comment),
            moves: clone_moves(&self.moves),
            termination: self.termination,
        }
    }
}

impl Move {
    /// The move of `piece` to `to`, with nothing known of its origin, no
    /// capture and no promotion.
    pub fn new(piece: Piece, to: Square) -> (m: Move)
        ensures
            m == (Move::BasicMove {
                piece: piece,
                to: to,
                from: Square::XX,
                is_capture: false,
                promoted_to: None,
            }),
    {
        Move::BasicMove { piece: piece, to: to, from: Square::XX, is_capture: false, promoted_to: None }
    }

    /// What `from`, `capture` and `with_promotion` leave of a move when they
    /// set the origin, the capture flag and the promotion to the given values:
    /// a castling move is left as it is.
    pub open spec fn spec_with(
        self,
        from: Square,
        is_capture: bool,
        promoted_to: Option<Piece>,
    ) -> Move {
        match self {
            Move::BasicMove { piece, to, .. } => Move::BasicMove {
                piece: piece,
                to: to,
                from: from,
                is_capture: is_capture,
                promoted_to: promoted_to,
            },
            _ => self,
        }
    }

    /// The origin that the text gives, `Square::XX` for a castling move.
    pub open spec fn spec_from(self) -> Square {
        match self {
            Move::BasicMove { from, .. } => from,
            _ => Square::XX,
        }
    }

    /// Whether the move is marked as a capture.
    pub open spec fn spec_is_capture(self) -> bool {
        match self {
            Move::BasicMove { is_capture, .. } => is_capture,
            _ => false,
        }
    }

    /// The piece that the move promotes to, if any.
    pub open spec fn spec_promoted_to(self) -> Option<Piece> {
        match self {
            Move::BasicMove { promoted_to, .. } => promoted_to,
            _ => None,
        }
    }

    /// The same move with `square` as its origin; a castling move unchanged.
    pub fn from(&self, square: Square) -> (m: Move)
        ensures
            m == self.spec_with(square, self.spec_is_capture(), self.spec_promoted_to()),
    {
        match *self {
            Move::BasicMove { piece, to, from: _, is_capture, promoted_to } => Move::BasicMove {
                piece: piece,
                to: to,
                from: square,
                is_capture: is_capture,
                promoted_to: promoted_to,
            },
            _ => *self,
        }
    }

    /// The same move marked as a capture; a castling move unchanged.
    pub fn capture(&self) -> (m: Move)
        ensures
            m == self.spec_with(self.spec_from(), true, self.spec_promoted_to()),
    {
        match *self {
            Move::BasicMove { piece, to, from, is_capture: _, promoted_to } => Move::BasicMove {
                piece: piece,
                to: to,
                from: from,
                is_capture: true,
                promoted_to: promoted_to,
            },
            _ => *self,
        }
    }

    /// The same move promoting to `piece`; a castling move unchanged.
    pub fn with_promotion(&self, piece: Piece) -> (m: Move)
        ensures
            m == self.spec_with(self.spec_from(), self.spec_is_capture(), Some(piece)),
    {
        match *self {
            Move::BasicMove { piece: piece_, to, from, is_capture, promoted_to: _ } => Move::BasicMove {
                piece: piece_,
                to: to,
                from: from,
                is_capture: is_capture,
                promoted_to: Some(piece),
            },
            _ => *self,
        }
    }

    /// The move without check mark, checkmate mark or annotation.
    pub fn no_mark(&self) -> (marked: MarkedMove)
        ensures
            marked == (MarkedMove {
                move_: *self,
                is_check: false,
                is_checkmate: false,
                annotation_symbol: None,
            }),
    {
        MarkedMove { move_: *self, is_check: false, is_checkmate: false, annotation_symbol: None }
    }

    /// The move marked as giving check.
    pub fn check(&self) -> (marked: MarkedMove)
        ensures
            marked == (MarkedMove {
                move_: *self,
                is_check: true,
                is_checkmate: false,
                annotation_symbol: None,
            }),
    {
        MarkedMove { move_: *self, is_check: true, is_checkmate: false, annotation_symbol: None }
    }

    /// The move marked as giving checkmate.
    pub fn checkmate(&self) -> (marked: MarkedMove)
        ensures
            marked == (MarkedMove {
                move_: *self,
                is_check: false,
                is_checkmate: true,
                annotation_symbol: None,
            }),
    {
        MarkedMove { move_: *self, is_check: false, is_checkmate: true, annotation_symbol: None }
    }
}

impl MarkedMove {
    /// The same marked move with `symbol` as its annotation.
    pub fn annotated(&self, symbol: AnnotationSymbol) -> (marked: MarkedMove)
        ensures
            marked == (MarkedMove { annotation_symbol: Some(symbol), ..*self }),
    {
        MarkedMove {
            move_: self.move_,
            is_check: self.is_check,
            is_checkmate: self.is_checkmate,
            annotation_symbol: Some(symbol),
        }
    }

    /// The move of a game that has this marked move and the given number,
    /// and neither glyph, comment nor variations.
    pub fn numbered(&self, number: Option<MoveNumber>) -> (m: GameMove)
        ensures
            m@ == (GameMoveView {
                number: number,
                move_: *self,
                nag: None,
                comment: None,
                variations: Seq::empty(),
            }),
    {
        let m = GameMove {
            number: number,
            move_: *self,
            nag: None,
            comment: None,
            variations: Vec::new(),
        };
        proof {
            lemma_game_move_view(m);
            assert(lines_view(m.variations@) =~= Seq::empty());
        }
        m
    }
}

impl GameMove {
    /// The same move with `value` as its glyph.
    pub fn nag(&self, value: NAG) -> (m: GameMove)
        ensures
            m@ == (GameMoveView { nag: Some(value), ..self@ }),
    {
        let m = GameMove {
            number: self.number,
            move_: self.move_,
            nag: Some(value),
            comment: clone_text(&self.comment),
            variations: clone_lines(&self.variations),
        };
        proof {
            lemma_game_move_view(m);
            lemma_game_move_view(*self);
        }
        m
    }

    /// The same move with `value` as its comment.
    pub fn comment(&self, value: String) -> (m: GameMove)
        ensures
            m@ == (GameMoveView { comment: Some(value@), ..self@ }),
    {
        let m = GameMove {
            number: self.number,
            move_: self.move_,
            nag: self.nag,
            comment: Some(value),
            variations: clone_lines(&self.variations),
        };
        proof {
            lemma_game_move_view(m);
            lemma_game_move_view(*self);
        }
        m
    }

    /// The same move with `variations` in place of its own.
    pub fn with_variations(&self, variations: Vec<MoveSequence>) -> (m: GameMove)
        ensures
            m@ == (GameMoveView { variations: lines_view(variations@), ..self@ }),
    {
        let m = GameMove {
            number: self.number,
            move_: self.move_,
            nag: self.nag,
            comment: clone_text(&self.comment),
            variations: variations,
        };
        proof {
            lemma_game_move_view(m);
            lemma_game_move_view(*self);
        }
        m
    }
}

} // verus!
