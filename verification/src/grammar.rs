//! The grammar of game records, as functions on sequences of characters.
//!
//! Each rule takes a text and gives either the value that it reads off the
//! front of the text together with the text left behind it, or nothing.
//! Alternatives are ordered: the first that matches wins, and the others are
//! not tried. A repetition takes as many items as match. The rules here are
//! the definition that the parser is proved against.
//!
//! A rule that repeats, or that holds a line of play in brackets, goes on
//! only where the text has become shorter. This is what lets the rules be
//! defined by recursion on the text. It never stops a rule: `progress`
//! proves that every item of a repetition, and everything that stands before
//! a bracketed line, takes at least one character.

use crate::model::{
    AnnotationSymbol, GameMoveView, GameTermination, GameView, MarkedMove, Move, MoveNumber,
    MoveSequenceView, NAG,
};
use crate::scan::{run_len, CharClass};
use crate::square::{File, Piece, Rank, Square};
use vstd::prelude::*;

verus! {

/// What a rule reads: a value and the text left behind it, or nothing.
pub type Parsed<T> = Option<(T, Seq<char>)>;

/// An optional rule: the value if the rule matches, and the text left; no
/// value and the whole text if it does not.
pub open spec fn optional<T>(r: Parsed<T>, s: Seq<char>) -> (Option<T>, Seq<char>) {
    match r {
        Some((value, rest)) => (Some(value), rest),
        None => (None, s),
    }
}

/// The text with the character `c` taken off its front.
pub open spec fn spec_char(s: Seq<char>, c: char) -> Parsed<()> {
    if s.len() > 0 && s[0] == c {
        Some(((), s.skip(1)))
    } else {
        None
    }
}

/// The text with `token` taken off its front.
pub open spec fn spec_literal(s: Seq<char>, token: Seq<char>) -> Parsed<()> {
    if token.is_prefix_of(s) {
        Some(((), s.skip(token.len() as int)))
    } else {
        None
    }
}

/// The text behind its leading white space, if any.
pub open spec fn skip_whitespace(s: Seq<char>) -> Seq<char> {
    s.skip(run_len(s, CharClass::Whitespace) as int)
}

/// The digit that a character of `0` to `9` stands for.
pub open spec fn digit_value(c: char) -> nat {
    (c as nat - '0' as nat) as nat
}

/// The number that a sequence of digits writes in base ten.
pub open spec fn decimal_value(digits: Seq<char>) -> nat
    decreases digits.len(),
{
    if digits.len() == 0 {
        0
    } else {
        10 * decimal_value(digits.drop_last()) + digit_value(digits.last())
    }
}

/// An unsigned integer: the longest run of digits at the front, which must
/// not be empty and must write a number that fits in 32 bits.
pub open spec fn spec_pgn_integer(s: Seq<char>) -> Parsed<u32> {
    let n = run_len(s, CharClass::Digit) as int;
    if n > 0 && decimal_value(s.take(n)) <= u32::MAX {
        Some((decimal_value(s.take(n)) as u32, s.skip(n)))
    } else {
        None
    }
}

/// A symbol token: the longest run of symbol characters, not empty.
pub open spec fn spec_pgn_symbol(s: Seq<char>) -> Parsed<Seq<char>> {
    let n = run_len(s, CharClass::Symbol) as int;
    if n > 0 {
        Some((s.take(n), s.skip(n)))
    } else {
        None
    }
}

/// White space: the longest run of white space, not empty.
pub open spec fn spec_whitespace(s: Seq<char>) -> Parsed<()> {
    let n = run_len(s, CharClass::Whitespace) as int;
    if n > 0 {
        Some(((), s.skip(n)))
    } else {
        None
    }
}

/// The text of a line comment: all up to the first carriage return or line
/// feed.
pub open spec fn spec_inline_comment_contents(s: Seq<char>) -> (Seq<char>, Seq<char>) {
    let n = run_len(s, CharClass::LineText) as int;
    (s.take(n), s.skip(n))
}

/// The text of a block comment: all up to the first `}`.
pub open spec fn spec_block_comment_contents(s: Seq<char>) -> (Seq<char>, Seq<char>) {
    let n = run_len(s, CharClass::BlockText) as int;
    (s.take(n), s.skip(n))
}

/// One character of a quoted string: `\"` stands for `"`, `\\` for `\`, and
/// any other character but `"` for itself.
pub open spec fn spec_pgn_string_char(s: Seq<char>) -> Parsed<char> {
    if s.len() >= 2 && s[0] == '\\' && s[1] == '"' {
        Some(('"', s.skip(2)))
    } else if s.len() >= 2 && s[0] == '\\' && s[1] == '\\' {
        Some(('\\', s.skip(2)))
    } else if s.len() >= 1 && s[0] != '"' {
        Some((s[0], s.skip(1)))
    } else {
        None
    }
}

/// As many string characters as match.
pub open spec fn spec_pgn_string_chars(s: Seq<char>) -> (Seq<char>, Seq<char>)
    decreases s.len(),
{
    match spec_pgn_string_char(s) {
        Some((c, rest)) => {
            let (cs, left) = spec_pgn_string_chars(rest);
            (seq![c] + cs, left)
        },
        None => (Seq::empty(), s),
    }
}

/// A quoted string: `"`, string characters, `"`.
pub open spec fn spec_pgn_string(s: Seq<char>) -> Parsed<Seq<char>> {
    match spec_char(s, '"') {
        Some((_, s1)) => {
            let (cs, s2) = spec_pgn_string_chars(s1);
            match spec_char(s2, '"') {
                Some((_, s3)) => Some((cs, s3)),
                None => None,
            }
        },
        None => None,
    }
}

/// A tag pair: `[`, a symbol, white space, a quoted string, `]`, with
/// optional white space inside the brackets.
pub open spec fn spec_tag_pair(s: Seq<char>) -> Parsed<(Seq<char>, Seq<char>)> {
    match spec_char(s, '[') {
        Some((_, s1)) => match spec_pgn_symbol(skip_whitespace(s1)) {
            Some((name, s2)) => match spec_whitespace(s2) {
                Some((_, s3)) => match spec_pgn_string(s3) {
                    Some((value, s4)) => match spec_char(skip_whitespace(s4), ']') {
                        Some((_, s5)) => Some(((name, value), s5)),
                        None => None,
                    },
                    None => None,
                },
                None => None,
            },
            None => None,
        },
        None => None,
    }
}

/// The tag section: as many tag pairs as match, each with the white space
/// behind it.
pub open spec fn spec_tag_section(s: Seq<char>) -> (Seq<(Seq<char>, Seq<char>)>, Seq<char>)
    decreases s.len(),
{
    match spec_tag_pair(s) {
        Some((pair, rest)) => {
            let s1 = skip_whitespace(rest);
            if s1.len() < s.len() {
                let (pairs, left) = spec_tag_section(s1);
                (seq![pair] + pairs, left)
            } else {
                (seq![pair], s1)
            }
        },
        None => (Seq::empty(), s),
    }
}

/// The result of a game: `1-0`, `0-1`, `1/2-1/2` or `*`, tried in this
/// order.
pub open spec fn spec_game_termination(s: Seq<char>) -> Parsed<GameTermination> {
    if let Some((_, rest)) = spec_literal(s, seq!['1', '-', '0']) {
        Some((GameTermination::WhiteWins, rest))
    } else if let Some((_, rest)) = spec_literal(s, seq!['0', '-', '1']) {
        Some((GameTermination::BlackWins, rest))
    } else if let Some((_, rest)) = spec_literal(s, seq!['1', '/', '2', '-', '1', '/', '2']) {
        Some((GameTermination::DrawnGame, rest))
    } else if let Some((_, rest)) = spec_char(s, '*') {
        Some((GameTermination::Unknown, rest))
    } else {
        None
    }
}

/// A move number: an integer and a dot. Two more dots make it the number
/// of a move of Black.
pub open spec fn spec_move_number(s: Seq<char>) -> Parsed<MoveNumber> {
    match spec_pgn_integer(s) {
        Some((number, s1)) => match spec_char(s1, '.') {
            Some((_, s2)) => match spec_literal(s2, seq!['.', '.']) {
                Some((_, s3)) => Some((MoveNumber::Black(number), s3)),
                None => Some((MoveNumber::White(number), s2)),
            },
            None => None,
        },
        None => None,
    }
}

/// The file that a letter of `a` to `h` names.
pub open spec fn file_of_char(c: char) -> Option<File> {
    if c == 'a' {
        Some(File::A)
    } else if c == 'b' {
        Some(File::B)
    } else if c == 'c' {
        Some(File::C)
    } else if c == 'd' {
        Some(File::D)
    } else if c == 'e' {
        Some(File::E)
    } else if c == 'f' {
        Some(File::F)
    } else if c == 'g' {
        Some(File::G)
    } else if c == 'h' {
        Some(File::H)
    } else {
        None
    }
}

/// The rank that a digit of `1` to `8` names.
pub open spec fn rank_of_char(c: char) -> Option<Rank> {
    if c == '1' {
        Some(Rank::R1)
    } else if c == '2' {
        Some(Rank::R2)
    } else if c == '3' {
        Some(Rank::R3)
    } else if c == '4' {
        Some(Rank::R4)
    } else if c == '5' {
        Some(Rank::R5)
    } else if c == '6' {
        Some(Rank::R6)
    } else if c == '7' {
        Some(Rank::R7)
    } else if c == '8' {
        Some(Rank::R8)
    } else {
        None
    }
}

/// The piece that a letter of `PNBRQK` names.
pub open spec fn piece_of_char(c: char) -> Option<Piece> {
    if c == 'P' {
        Some(Piece::Pawn)
    } else if c == 'N' {
        Some(Piece::Knight)
    } else if c == 'B' {
        Some(Piece::Bishop)
    } else if c == 'R' {
        Some(Piece::Rook)
    } else if c == 'Q' {
        Some(Piece::Queen)
    } else if c == 'K' {
        Some(Piece::King)
    } else {
        None
    }
}

/// A file letter.
pub open spec fn spec_file(s: Seq<char>) -> Parsed<File> {
    if s.len() > 0 && file_of_char(s[0]) is Some {
        Some((file_of_char(s[0]).unwrap(), s.skip(1)))
    } else {
        None
    }
}

/// A rank digit.
pub open spec fn spec_rank(s: Seq<char>) -> Parsed<Rank> {
    if s.len() > 0 && rank_of_char(s[0]) is Some {
        Some((rank_of_char(s[0]).unwrap(), s.skip(1)))
    } else {
        None
    }
}

/// A piece letter.
pub open spec fn spec_piece(s: Seq<char>) -> Parsed<Piece> {
    if s.len() > 0 && piece_of_char(s[0]) is Some {
        Some((piece_of_char(s[0]).unwrap(), s.skip(1)))
    } else {
        None
    }
}

/// A square: a file letter and a rank digit.
pub open spec fn spec_square(s: Seq<char>) -> Parsed<Square> {
    match spec_file(s) {
        Some((file, s1)) => match spec_rank(s1) {
            Some((rank, s2)) => Some((Square::spec_new(Some(file), Some(rank)), s2)),
            None => None,
        },
        None => None,
    }
}

/// What a move tells of its origin: a square, else a file, else a rank.
pub open spec fn spec_origin(s: Seq<char>) -> Parsed<Square> {
    if spec_square(s) is Some {
        spec_square(s)
    } else if let Some((file, rest)) = spec_file(s) {
        Some((Square::spec_new(Some(file), None), rest))
    } else if let Some((rank, rest)) = spec_rank(s) {
        Some((Square::spec_new(None, Some(rank)), rest))
    } else {
        None
    }
}

/// The origin of a move, which counts as such only where `x` or a file
/// letter follows it. What follows is looked at and left in the text.
pub open spec fn spec_move_disambiguation(s: Seq<char>) -> Parsed<Square> {
    match spec_origin(s) {
        Some((from, rest)) => if spec_char(rest, 'x') is Some || spec_file(rest) is Some {
            Some((from, rest))
        } else {
            None
        },
        None => None,
    }
}

/// A promotion: `=` and a piece letter.
pub open spec fn spec_promotion(s: Seq<char>) -> Parsed<Piece> {
    match spec_char(s, '=') {
        Some((_, rest)) => spec_piece(rest),
        None => None,
    }
}

/// A move of a piece: optional piece letter (a pawn without), optional
/// origin, optional `x`, the destination square, optional promotion.
pub open spec fn spec_basic_move(s: Seq<char>) -> Parsed<Move> {
    let (piece, s1) = optional(spec_piece(s), s);
    let (from, s2) = optional(spec_move_disambiguation(s1), s1);
    let (capture, s3) = optional(spec_char(s2, 'x'), s2);
    match spec_square(s3) {
        Some((to, s4)) => {
            let (promoted_to, s5) = optional(spec_promotion(s4), s4);
            Some(
                (
                    Move::BasicMove {
                        piece: match piece {
                            Some(p) => p,
                            None => Piece::Pawn,
                        },
                        to: to,
                        from: match from {
                            Some(sq) => sq,
                            None => Square::XX,
                        },
                        is_capture: capture is Some,
                        promoted_to: promoted_to,
                    },
                    s5,
                ),
            )
        },
        None => None,
    }
}

/// An annotation symbol. The symbols of two characters are tried before
/// those of one that begin them.
pub open spec fn spec_annotation_symbol(s: Seq<char>) -> Parsed<AnnotationSymbol> {
    if let Some((_, rest)) = spec_literal(s, seq!['?', '?']) {
        Some((AnnotationSymbol::Blunder, rest))
    } else if let Some((_, rest)) = spec_literal(s, seq!['?', '!']) {
        Some((AnnotationSymbol::Dubious, rest))
    } else if let Some((_, rest)) = spec_char(s, '?') {
        Some((AnnotationSymbol::Mistake, rest))
    } else if let Some((_, rest)) = spec_literal(s, seq!['!', '?']) {
        Some((AnnotationSymbol::Interesting, rest))
    } else if let Some((_, rest)) = spec_literal(s, seq!['!', '!']) {
        Some((AnnotationSymbol::Brilliant, rest))
    } else if let Some((_, rest)) = spec_char(s, '!') {
        Some((AnnotationSymbol::Good, rest))
    } else {
        None
    }
}

/// A move without its marks: a move of a piece, else `O-O-O`, else `O-O`.
pub open spec fn spec_bare_move(s: Seq<char>) -> Parsed<Move> {
    if spec_basic_move(s) is Some {
        spec_basic_move(s)
    } else if let Some((_, rest)) = spec_literal(s, seq!['O', '-', 'O', '-', 'O']) {
        Some((Move::CastleQueenside, rest))
    } else if let Some((_, rest)) = spec_literal(s, seq!['O', '-', 'O']) {
        Some((Move::CastleKingside, rest))
    } else {
        None
    }
}

/// A move with its marks: the move, optional `+`, optional `#`, optional
/// annotation symbol.
pub open spec fn spec_marked_move(s: Seq<char>) -> Parsed<MarkedMove> {
    match spec_bare_move(s) {
        Some((move_, s1)) => {
            let (check, s2) = optional(spec_char(s1, '+'), s1);
            let (checkmate, s3) = optional(spec_char(s2, '#'), s2);
            let (annotation_symbol, s4) = optional(spec_annotation_symbol(s3), s3);
            Some(
                (
                    MarkedMove {
                        move_: move_,
                        is_check: check is Some,
                        is_checkmate: checkmate is Some,
                        annotation_symbol: annotation_symbol,
                    },
                    s4,
                ),
            )
        },
        None => None,
    }
}

/// A numeric annotation glyph: `$` and an integer.
pub open spec fn spec_nag(s: Seq<char>) -> Parsed<NAG> {
    match spec_char(s, '$') {
        Some((_, s1)) => match spec_pgn_integer(s1) {
            Some((value, s2)) => Some((NAG(value), s2)),
            None => None,
        },
        None => None,
    }
}

/// The end of a line: carriage return and line feed, or either alone.
pub open spec fn spec_line_end(s: Seq<char>) -> Parsed<()> {
    if spec_literal(s, seq!['\r', '\n']) is Some {
        spec_literal(s, seq!['\r', '\n'])
    } else if spec_char(s, '\r') is Some {
        spec_char(s, '\r')
    } else {
        spec_char(s, '\n')
    }
}

/// A line comment: `;`, its text, the end of the line.
pub open spec fn spec_inline_comment(s: Seq<char>) -> Parsed<Seq<char>> {
    match spec_char(s, ';') {
        Some((_, s1)) => {
            let (text, s2) = spec_inline_comment_contents(s1);
            match spec_line_end(s2) {
                Some((_, s3)) => Some((text, s3)),
                None => None,
            }
        },
        None => None,
    }
}

/// A block comment: `{`, its text, `}`.
pub open spec fn spec_block_comment(s: Seq<char>) -> Parsed<Seq<char>> {
    match spec_char(s, '{') {
        Some((_, s1)) => {
            let (text, s2) = spec_block_comment_contents(s1);
            match spec_char(s2, '}') {
                Some((_, s3)) => Some((text, s3)),
                None => None,
            }
        },
        None => None,
    }
}

/// A comment: a line comment, else a block comment.
pub open spec fn spec_comment(s: Seq<char>) -> Parsed<Seq<char>> {
    if spec_inline_comment(s) is Some {
        spec_inline_comment(s)
    } else {
        spec_block_comment(s)
    }
}

/// A rule followed by optional white space.
pub open spec fn then_whitespace<T>(r: Parsed<T>) -> Parsed<T> {
    match r {
        Some((value, rest)) => Some((value, skip_whitespace(rest))),
        None => None,
    }
}

/// A move number and the white space behind it.
pub open spec fn spec_move_number_ws(s: Seq<char>) -> Parsed<MoveNumber> {
    then_whitespace(spec_move_number(s))
}

/// A marked move and the white space behind it.
pub open spec fn spec_marked_move_ws(s: Seq<char>) -> Parsed<MarkedMove> {
    then_whitespace(spec_marked_move(s))
}

/// A glyph and the white space behind it.
pub open spec fn spec_nag_ws(s: Seq<char>) -> Parsed<NAG> {
    then_whitespace(spec_nag(s))
}

/// A comment and the white space behind it.
pub open spec fn spec_comment_ws(s: Seq<char>) -> Parsed<Seq<char>> {
    then_whitespace(spec_comment(s))
}

/// A move of a game: optional number, the marked move, optional glyph,
/// optional comment, and as many variations as match.
pub open spec fn spec_game_move(s: Seq<char>) -> Parsed<GameMoveView>
    decreases s.len(), 0nat,
{
    let (number, s1) = optional(spec_move_number_ws(s), s);
    match spec_marked_move_ws(s1) {
        Some((move_, s2)) => {
            let (nag, s3) = optional(spec_nag_ws(s2), s2);
            let (comment, s4) = optional(spec_comment_ws(s3), s3);
            if s4.len() < s.len() {
                let (variations, s5) = spec_variations(s4);
                Some(
                    (
                        GameMoveView {
                            number: number,
                            move_: move_,
                            nag: nag,
                            comment: comment,
                            variations: variations,
                        },
                        s5,
                    ),
                )
            } else {
                None
            }
        },
        None => None,
    }
}

/// As many moves as match, each with the white space behind it.
pub open spec fn spec_game_moves(s: Seq<char>) -> (Seq<GameMoveView>, Seq<char>)
    decreases s.len(), 1nat,
{
    match spec_game_move(s) {
        Some((m, rest)) => {
            let s1 = skip_whitespace(rest);
            if s1.len() < s.len() {
                let (moves, left) = spec_game_moves(s1);
                (seq![m] + moves, left)
            } else {
                (seq![m], s1)
            }
        },
        None => (Seq::empty(), s),
    }
}

/// A line of play: optional comment, then as many moves as match.
pub open spec fn spec_move_sequence(s: Seq<char>) -> (MoveSequenceView, Seq<char>)
    decreases s.len(), 2nat,
{
    let (comment, s1) = optional(spec_comment_ws(s), s);
    if s1.len() <= s.len() {
        let (moves, s2) = spec_game_moves(s1);
        (MoveSequenceView { comment: comment, moves: moves }, s2)
    } else {
        (MoveSequenceView { comment: comment, moves: Seq::empty() }, s1)
    }
}

/// A variation: a line of play in round brackets, with optional white
/// space behind each bracket.
pub open spec fn spec_variation(s: Seq<char>) -> Parsed<MoveSequenceView>
    decreases s.len(), 3nat,
{
    match spec_char(s, '(') {
        Some((_, s1)) => {
            let s2 = skip_whitespace(s1);
            if s2.len() < s.len() {
                let (line, s3) = spec_move_sequence(s2);
                match spec_char(s3, ')') {
                    Some((_, s4)) => Some((line, skip_whitespace(s4))),
                    None => None,
                }
            } else {
                None
            }
        },
        None => None,
    }
}

/// As many variations as match.
pub open spec fn spec_variations(s: Seq<char>) -> (Seq<MoveSequenceView>, Seq<char>)
    decreases s.len(), 4nat,
{
    match spec_variation(s) {
        Some((line, rest)) => {
            if rest.len() < s.len() {
                let (lines, left) = spec_variations(rest);
                (seq![line] + lines, left)
            } else {
                (seq![line], rest)
            }
        },
        None => (Seq::empty(), s),
    }
}

/// A game: the tag section, the main line, the result, and optional white
/// space behind it.
pub open spec fn spec_game(s: Seq<char>) -> Parsed<GameView> {
    let (tags, s1) = spec_tag_section(s);
    let (line, s2) = spec_move_sequence(s1);
    match spec_game_termination(s2) {
        Some((termination, s3)) => Some(
            (
                GameView {
                    tags: tags,
                    comment: line.comment,
                    moves: line.moves,
                    termination: termination,
                },
                skip_whitespace(s3),
            ),
        ),
        None => None,
    }
}

} // verus!
