//! The parser: one function for each rule of the grammar.
//!
//! A function takes the text and gives the value of its rule together with
//! the text left behind it, or fails. It consumes nothing when it fails, so
//! an alternative is tried from the same place. The contract of each is its
//! rule in [`crate::grammar`].

use crate::grammar::{
    decimal_value, digit_value, file_of_char, piece_of_char, rank_of_char, skip_whitespace,
    spec_annotation_symbol, spec_bare_move, spec_basic_move, spec_block_comment,
    spec_block_comment_contents, spec_char, spec_comment, spec_comment_ws, spec_file, spec_game,
    spec_game_move, spec_game_moves, spec_game_termination, spec_inline_comment,
    spec_inline_comment_contents, spec_line_end, spec_literal, spec_marked_move,
    spec_marked_move_ws, spec_move_disambiguation, spec_move_number, spec_move_number_ws,
    spec_move_sequence, spec_nag, spec_nag_ws, spec_origin, spec_pgn_integer, spec_pgn_string,
    spec_pgn_string_char, spec_pgn_string_chars, spec_pgn_symbol, spec_piece, spec_promotion,
    spec_rank, spec_square, spec_tag_pair, spec_tag_section, spec_variation, spec_variations,
    spec_whitespace, Parsed,
};
use crate::model::{
    lemma_game_move_view, lemma_move_sequence_view, lines_view, moves_view, tags_view,
    AnnotationSymbol, Game, GameMove, GameTermination, MarkedMove, Move, MoveNumber, MoveSequence,
    NAG,
};
use crate::progress::{
    lemma_game_move_shrinks, lemma_move_head_shrinks, lemma_skip_whitespace_keeps,
    lemma_spaced_rules_shrink, lemma_tags_shrink, lemma_variation_shrinks,
};
use crate::scan::{any_char, lemma_run_len, scan_class, CharClass, ParseError, ParseResult};
use crate::square::{File, Piece, Rank, Square};
use vstd::prelude::*;
use vstd::std_specs::iter::IteratorSpec;
use vstd::string::{StringExecFns, StrSliceExecFns};

verus! {

broadcast use vstd::string::group_string_axioms;

/// The result of a parser is what the rule reads: the same value and the
/// same text left, or a failure where the rule reads nothing.
pub open spec fn parsed_as<'a, T>(r: ParseResult<'a, T>, expected: Parsed<T>) -> bool {
    match expected {
        Some((value, rest)) => r matches Ok((v, left)) && v == value && left@ == rest,
        None => r is Err,
    }
}

/// As [`parsed_as`], for a parser whose value has a view: the view of the
/// value is what the rule reads.
pub open spec fn parsed_as_view<'a, T: View>(r: ParseResult<'a, T>, expected: Parsed<T::V>) -> bool {
    match expected {
        Some((value, rest)) => r matches Ok((v, left)) && v@ == value && left@ == rest,
        None => r is Err,
    }
}

/// Takes the character `c` off the front of the input.
pub fn expect_char(input: &str, c: char) -> (r: ParseResult<'_, ()>)
    ensures
        parsed_as(r, spec_char(input@, c)),
{
    match any_char(input) {
        Ok((first, rest)) => {
            if first == c {
                Ok(((), rest))
            } else {
                Err(ParseError)
            }
        },
        Err(e) => Err(e),
    }
}

/// Takes `token` off the front of the input.
pub fn literal<'a>(input: &'a str, token: &str) -> (r: ParseResult<'a, ()>)
    ensures
        parsed_as(r, spec_literal(input@, token@)),
{
    let mut text = input.chars();
    let mut expected = token.chars();
    let ghost mut n: int = 0;
    loop
        invariant
            0 <= n <= token@.len(),
            n <= input@.len(),
            text.remaining() == input@.skip(n),
            expected.remaining() == token@.skip(n),
            token@.take(n) == input@.take(n),
        decreases token@.len() - n,
    {
        match expected.next() {
            None => {
                proof {
                    assert(token@.take(n) =~= token@);
                    assert(input@.take(n) =~= input@.subrange(0, token@.len() as int));
                }
                return Ok(((), text.as_str()));
            },
            Some(t) => {
                assert(t == token@[n]);
                match text.next() {
                    Some(c) => {
                        assert(c == input@[n]);
                        if c != t {
                            proof {
                                if token@.is_prefix_of(input@) {
                                    assert(input@.subrange(0, token@.len() as int)[n] == token@[n]);
                                }
                            }
                            return Err(ParseError);
                        }
                        proof {
                            assert(token@.take(n + 1) =~= token@.take(n).push(t));
                            assert(input@.take(n + 1) =~= input@.take(n).push(c));
                            assert(input@.skip(n).drop_first() =~= input@.skip(n + 1));
                            assert(token@.skip(n).drop_first() =~= token@.skip(n + 1));
                            n = n + 1;
                        }
                    },
                    None => {
                        return Err(ParseError);
                    },
                }
            },
        }
    }
}

/// The input behind its leading white space, if any.
pub fn skip_space(input: &str) -> (rest: &str)
    ensures
        rest@ == skip_whitespace(input@),
{
    scan_class(input, CharClass::Whitespace).1
}

/// Adding a digit to a number written in base ten does not make it smaller:
/// the number that a prefix of the digits writes is at most the number that
/// all of them write.
pub proof fn lemma_decimal_value_grows(digits: Seq<char>, n: int)
    requires
        0 <= n <= digits.len(),
    ensures
        decimal_value(digits.take(n)) <= decimal_value(digits),
    decreases digits.len() - n,
{
    if n < digits.len() {
        lemma_decimal_value_grows(digits, n + 1);
        assert(digits.take(n + 1).drop_last() =~= digits.take(n));
    } else {
        assert(digits.take(n) =~= digits);
    }
}

/// The number that a run of digits writes in base ten, `None` if it does
/// not fit in 32 bits.
fn decimal(digits: &str) -> (r: Option<u32>)
    requires
        forall|i: int| 0 <= i < digits@.len() ==> CharClass::Digit.contains(#[trigger] digits@[i]),
    ensures
        match r {
            Some(value) => value == decimal_value(digits@),
            None => decimal_value(digits@) > u32::MAX,
        },
{
    let mut chars = digits.chars();
    let mut value: u32 = 0;
    let ghost mut n: int = 0;
    loop
        invariant
            0 <= n <= digits@.len(),
            chars.remaining() == digits@.skip(n),
            value == decimal_value(digits@.take(n)),
            forall|i: int|
                0 <= i < digits@.len() ==> CharClass::Digit.contains(#[trigger] digits@[i]),
        decreases digits@.len() - n,
    {
        match chars.next() {
            None => {
                assert(digits@.take(n) =~= digits@);
                return Some(value);
            },
            Some(c) => {
                assert(c == digits@[n]);
                assert(CharClass::Digit.contains(c));
                let d: u32 = (c as u32) - ('0' as u32);
                assert(d == digit_value(c));
                proof {
                    assert(digits@.take(n + 1).drop_last() =~= digits@.take(n));
                    assert(digits@.take(n + 1).last() == c);
                    assert(digits@.skip(n).drop_first() =~= digits@.skip(n + 1));
                    lemma_decimal_value_grows(digits@, n + 1);
                }
                let next: u64 = (value as u64) * 10 + (d as u64);
                if next > u32::MAX as u64 {
                    return None;
                }
                value = next as u32;
                proof {
                    n = n + 1;
                }
            },
        }
    }
}

/// An unsigned integer: the longest run of digits at the front of the
/// input. Fails where the input does not begin with a digit, and where the
/// digits write a number that does not fit in 32 bits.
pub fn pgn_integer(input: &str) -> (r: ParseResult<'_, u32>)
    ensures
        parsed_as(r, spec_pgn_integer(input@)),
{
    let (digits, rest) = scan_class(input, CharClass::Digit);
    if digits.is_empty() {
        return Err(ParseError);
    }
    proof {
        lemma_run_len(input@, CharClass::Digit);
    }
    match decimal(digits) {
        Some(value) => Ok((value, rest)),
        None => Err(ParseError),
    }
}

/// A symbol token: the longest run of symbol characters, not empty.
pub fn pgn_symbol(input: &str) -> (r: ParseResult<'_, String>)
    ensures
        parsed_as_view(r, spec_pgn_symbol(input@)),
{
    let (symbol, rest) = scan_class(input, CharClass::Symbol);
    if symbol.is_empty() {
        return Err(ParseError);
    }
    Ok((symbol.to_owned(), rest))
}

/// White space: the longest run of white space, not empty.
pub fn whitespace(input: &str) -> (r: ParseResult<'_, ()>)
    ensures
        parsed_as(r, spec_whitespace(input@)),
{
    let (space, rest) = scan_class(input, CharClass::Whitespace);
    if space.is_empty() {
        return Err(ParseError);
    }
    Ok(((), rest))
}

/// The text of a line comment: all up to the first carriage return or line
/// feed. Never fails.
pub fn inline_comment_contents(input: &str) -> (r: ParseResult<'_, String>)
    ensures
        r matches Ok((text, rest)) && (text@, rest@) == spec_inline_comment_contents(input@),
{
    let (text, rest) = scan_class(input, CharClass::LineText);
    Ok((text.to_owned(), rest))
}

/// The text of a block comment: all up to the first `}`. Never fails.
pub fn block_comment_contents(input: &str) -> (r: ParseResult<'_, String>)
    ensures
        r matches Ok((text, rest)) && (text@, rest@) == spec_block_comment_contents(input@),
{
    let (text, rest) = scan_class(input, CharClass::BlockText);
    Ok((text.to_owned(), rest))
}

/// One character of a quoted string, as the piece of the input that holds
/// the character it stands for: the second character of an escape, the
/// first otherwise.
fn string_char_piece(input: &str) -> (r: ParseResult<'_, &str>)
    ensures
        match spec_pgn_string_char(input@) {
            Some((c, rest)) => r matches Ok((piece, left)) && piece@ == seq![c] && left@ == rest,
            None => r is Err,
        },
{
    match any_char(input) {
        Ok((first, rest)) => {
            if first == '\\' {
                match any_char(rest) {
                    Ok((second, left)) => {
                        if second == '"' || second == '\\' {
                            let piece = input.substring_char(1, 2);
                            proof {
                                assert(piece@ =~= seq![second]);
                                assert(left@ =~= input@.skip(2));
                            }
                            return Ok((piece, left));
                        }
                    },
                    Err(_) => {},
                }
            }
            if first == '"' {
                return Err(ParseError);
            }
            let piece = input.substring_char(0, 1);
            proof {
                assert(piece@ =~= seq![first]);
                assert(rest@ =~= input@.skip(1));
            }
            Ok((piece, rest))
        },
        Err(e) => Err(e),
    }
}

/// One character of a quoted string: `\"` stands for `"`, `\\` for `\`, and
/// any other character but `"` for itself.
pub fn pgn_string_char(input: &str) -> (r: ParseResult<'_, char>)
    ensures
        parsed_as(r, spec_pgn_string_char(input@)),
{
    match string_char_piece(input) {
        Ok((piece, rest)) => {
            let c = piece.get_char(0);
            Ok((c, rest))
        },
        Err(e) => Err(e),
    }
}

/// A quoted string: `"`, string characters, `"`. The value is the text
/// between the quotes with its escapes resolved.
pub fn pgn_string(input: &str) -> (r: ParseResult<'_, String>)
    ensures
        parsed_as_view(r, spec_pgn_string(input@)),
{
    let (_, body) = expect_char(input, '"')?;
    let mut value = String::new();
    let mut cur = body;
    loop
        invariant
            spec_char(input@, '"') == Some(((), body@)),
            spec_pgn_string_chars(body@) == (
                value@ + spec_pgn_string_chars(cur@).0,
                spec_pgn_string_chars(cur@).1,
            ),
        decreases cur@.len(),
    {
        match string_char_piece(cur) {
            Ok((piece, rest)) => {
                proof {
                    let c = piece@[0];
                    assert(spec_pgn_string_chars(cur@).0 == seq![c] + spec_pgn_string_chars(rest@).0);
                    assert((value@ + piece@) + spec_pgn_string_chars(rest@).0 =~= value@ + (seq![c]
                        + spec_pgn_string_chars(rest@).0));
                }
                value.append(piece);
                cur = rest;
            },
            Err(_) => {
                proof {
                    assert(value@ + Seq::<char>::empty() =~= value@);
                }
                let (_, rest) = expect_char(cur, '"')?;
                return Ok((value, rest));
            },
        }
    }
}

/// A tag pair: `[`, a symbol, white space, a quoted string, `]`, with
/// optional white space inside the brackets. The value is the name and the
/// value of the tag.
pub fn tag_pair(input: &str) -> (r: ParseResult<'_, (String, String)>)
    ensures
        match spec_tag_pair(input@) {
            Some((pair, rest)) => r matches Ok((tag, left)) && tag.0@ == pair.0 && tag.1@ == pair.1
                && left@ == rest,
            None => r is Err,
        },
{
    let (_, s1) = expect_char(input, '[')?;
    let (name, s2) = pgn_symbol(skip_space(s1))?;
    let (_, s3) = whitespace(s2)?;
    let (value, s4) = pgn_string(s3)?;
    let (_, s5) = expect_char(skip_space(s4), ']')?;
    Ok(((name, value), s5))
}

/// The tag section: as many tag pairs as match, each with the white space
/// behind it, in the order of the text. Never fails.
pub fn tag_section(input: &str) -> (r: ParseResult<'_, Vec<(String, String)>>)
    ensures
        r matches Ok((tags, rest)) && (tags_view(tags@), rest@) == spec_tag_section(input@),
{
    let mut tags: Vec<(String, String)> = Vec::new();
    let mut cur = input;
    loop
        invariant
            spec_tag_section(input@) == (
                tags_view(tags@) + spec_tag_section(cur@).0,
                spec_tag_section(cur@).1,
            ),
        decreases cur@.len(),
    {
        match tag_pair(cur) {
            Ok((tag, rest)) => {
                let next = skip_space(rest);
                proof {
                    lemma_tags_shrink(cur@);
                    lemma_skip_whitespace_keeps(rest@);
                    let pair = (tag.0@, tag.1@);
                    assert(spec_tag_section(cur@).0 == seq![pair] + spec_tag_section(next@).0);
                    assert(tags_view(tags@.push(tag)) =~= tags_view(tags@) + seq![pair]);
                    assert((tags_view(tags@) + seq![pair]) + spec_tag_section(next@).0 =~= tags_view(
                        tags@,
                    ) + (seq![pair] + spec_tag_section(next@).0));
                }
                tags.push(tag);
                cur = next;
            },
            Err(_) => {
                proof {
                    assert(tags_view(tags@) + Seq::<(Seq<char>, Seq<char>)>::empty() =~= tags_view(
                        tags@,
                    ));
                }
                return Ok((tags, cur));
            },
        }
    }
}

/// The result of a game: `1-0`, `0-1`, `1/2-1/2` or `*`.
pub fn game_termination(input: &str) -> (r: ParseResult<'_, GameTermination>)
    ensures
        parsed_as(r, spec_game_termination(input@)),
{
    proof {
        reveal_strlit("1-0");
        reveal_strlit("0-1");
        reveal_strlit("1/2-1/2");
        assert("1-0"@ =~= seq!['1', '-', '0']);
        assert("0-1"@ =~= seq!['0', '-', '1']);
        assert("1/2-1/2"@ =~= seq!['1', '/', '2', '-', '1', '/', '2']);
    }
    if let Ok((_, rest)) = literal(input, "1-0") {
        return Ok((GameTermination::WhiteWins, rest));
    }
    if let Ok((_, rest)) = literal(input, "0-1") {
        return Ok((GameTermination::BlackWins, rest));
    }
    if let Ok((_, rest)) = literal(input, "1/2-1/2") {
        return Ok((GameTermination::DrawnGame, rest));
    }
    if let Ok((_, rest)) = expect_char(input, '*') {
        return Ok((GameTermination::Unknown, rest));
    }
    Err(ParseError)
}

/// A move number: an integer and a dot, for a move of White; with two more
/// dots, for a move of Black.
pub fn move_number(input: &str) -> (r: ParseResult<'_, MoveNumber>)
    ensures
        parsed_as(r, spec_move_number(input@)),
{
    let (number, s1) = pgn_integer(input)?;
    let (_, s2) = expect_char(s1, '.')?;
    proof {
        reveal_strlit("..");
        assert(".."@ =~= seq!['.', '.']);
    }
    match literal(s2, "..") {
        Ok((_, s3)) => Ok((MoveNumber::Black(number), s3)),
        Err(_) => Ok((MoveNumber::White(number), s2)),
    }
}

/// The file that a letter of `a` to `h` names.
pub fn file_of(c: char) -> (file: Option<File>)
    ensures
        file == file_of_char(c),
{
    match c {
        'a' => Some(File::A),
        'b' => Some(File::B),
        'c' => Some(File::C),
        'd' => Some(File::D),
        'e' => Some(File::E),
        'f' => Some(File::F),
        'g' => Some(File::G),
        'h' => Some(File::H),
        _ => None,
    }
}

/// The rank that a digit of `1` to `8` names.
pub fn rank_of(c: char) -> (rank: Option<Rank>)
    ensures
        rank == rank_of_char(c),
{
    match c {
        '1' => Some(Rank::R1),
        '2' => Some(Rank::R2),
        '3' => Some(Rank::R3),
        '4' => Some(Rank::R4),
        '5' => Some(Rank::R5),
        '6' => Some(Rank::R6),
        '7' => Some(Rank::R7),
        '8' => Some(Rank::R8),
        _ => None,
    }
}

/// The piece that a letter of `PNBRQK` names.
pub fn piece_of(c: char) -> (piece: Option<Piece>)
    ensures
        piece == piece_of_char(c),
{
    match c {
        'P' => Some(Piece::Pawn),
        'N' => Some(Piece::Knight),
        'B' => Some(Piece::Bishop),
        'R' => Some(Piece::Rook),
        'Q' => Some(Piece::Queen),
        'K' => Some(Piece::King),
        _ => None,
    }
}

/// A file letter.
pub fn file(input: &str) -> (r: ParseResult<'_, File>)
    ensures
        parsed_as(r, spec_file(input@)),
{
    let (c, rest) = any_char(input)?;
    match file_of(c) {
        Some(file) => Ok((file, rest)),
        None => Err(ParseError),
    }
}

/// A rank digit.
pub fn rank(input: &str) -> (r: ParseResult<'_, Rank>)
    ensures
        parsed_as(r, spec_rank(input@)),
{
    let (c, rest) = any_char(input)?;
    match rank_of(c) {
        Some(rank) => Ok((rank, rest)),
        None => Err(ParseError),
    }
}

/// A piece letter.
pub fn piece(input: &str) -> (r: ParseResult<'_, Piece>)
    ensures
        parsed_as(r, spec_piece(input@)),
{
    let (c, rest) = any_char(input)?;
    match piece_of(c) {
        Some(piece) => Ok((piece, rest)),
        None => Err(ParseError),
    }
}

/// A square: a file letter and a rank digit. Both its axes are known.
pub fn square(input: &str) -> (r: ParseResult<'_, Square>)
    ensures
        parsed_as(r, spec_square(input@)),
        r matches Ok((sq, _)) ==> sq.is_known(),
{
    let (file, s1) = file(input)?;
    let (rank, s2) = rank(s1)?;
    Ok((Square::new_known(file, rank), s2))
}

/// What a move tells of its origin: a square, else a file, else a rank.
pub fn origin(input: &str) -> (r: ParseResult<'_, Square>)
    ensures
        parsed_as(r, spec_origin(input@)),
{
    if let Ok((sq, rest)) = square(input) {
        return Ok((sq, rest));
    }
    if let Ok((file, rest)) = file(input) {
        return Ok((Square::new_file(file), rest));
    }
    if let Ok((rank, rest)) = rank(input) {
        return Ok((Square::new_rank(rank), rest));
    }
    Err(ParseError)
}

/// The origin of a move: a square, a file or a rank that is followed by `x`
/// or by a file letter. What follows it is left in the input.
pub fn move_disambiguation(input: &str) -> (r: ParseResult<'_, Square>)
    ensures
        parsed_as(r, spec_move_disambiguation(input@)),
{
    let (from, rest) = origin(input)?;
    if let Ok(_) = expect_char(rest, 'x') {
        return Ok((from, rest));
    }
    if let Ok(_) = file(rest) {
        return Ok((from, rest));
    }
    Err(ParseError)
}

/// A promotion: `=` and a piece letter.
pub fn promotion(input: &str) -> (r: ParseResult<'_, Piece>)
    ensures
        parsed_as(r, spec_promotion(input@)),
{
    let (_, rest) = expect_char(input, '=')?;
    piece(rest)
}

/// A move of a piece: optional piece letter, optional origin, optional `x`,
/// the destination square, optional promotion. Without a piece letter the
/// piece is a pawn; without an origin the origin is `Square::XX`.
pub fn basic_move(input: &str) -> (r: ParseResult<'_, Move>)
    ensures
        parsed_as(r, spec_basic_move(input@)),
{
    let (piece_, s1) = match piece(input) {
        Ok((p, rest)) => (p, rest),
        Err(_) => (Piece::Pawn, input),
    };
    let (from, s2) = match move_disambiguation(s1) {
        Ok((sq, rest)) => (sq, rest),
        Err(_) => (Square::XX, s1),
    };
    let (is_capture, s3) = match expect_char(s2, 'x') {
        Ok((_, rest)) => (true, rest),
        Err(_) => (false, s2),
    };
    let (to, s4) = square(s3)?;
    let (promoted_to, s5) = match promotion(s4) {
        Ok((p, rest)) => (Some(p), rest),
        Err(_) => (None, s4),
    };
    Ok(
        (
            Move::BasicMove {
                piece: piece_,
                to: to,
                from: from,
                is_capture: is_capture,
                promoted_to: promoted_to,
            },
            s5,
        ),
    )
}

/// An annotation symbol: `??`, `?!`, `?`, `!?`, `!!` or `!`.
pub fn annotation_symbol(input: &str) -> (r: ParseResult<'_, AnnotationSymbol>)
    ensures
        parsed_as(r, spec_annotation_symbol(input@)),
{
    proof {
        reveal_strlit("??");
        reveal_strlit("?!");
        reveal_strlit("!?");
        reveal_strlit("!!");
        assert("??"@ =~= seq!['?', '?']);
        assert("?!"@ =~= seq!['?', '!']);
        assert("!?"@ =~= seq!['!', '?']);
        assert("!!"@ =~= seq!['!', '!']);
    }
    if let Ok((_, rest)) = literal(input, "??") {
        return Ok((AnnotationSymbol::Blunder, rest));
    }
    if let Ok((_, rest)) = literal(input, "?!") {
        return Ok((AnnotationSymbol::Dubious, rest));
    }
    if let Ok((_, rest)) = expect_char(input, '?') {
        return Ok((AnnotationSymbol::Mistake, rest));
    }
    if let Ok((_, rest)) = literal(input, "!?") {
        return Ok((AnnotationSymbol::Interesting, rest));
    }
    if let Ok((_, rest)) = literal(input, "!!") {
        return Ok((AnnotationSymbol::Brilliant, rest));
    }
    if let Ok((_, rest)) = expect_char(input, '!') {
        return Ok((AnnotationSymbol::Good, rest));
    }
    Err(ParseError)
}

/// A move without its marks: a move of a piece, else `O-O-O`, else `O-O`.
pub fn bare_move(input: &str) -> (r: ParseResult<'_, Move>)
    ensures
        parsed_as(r, spec_bare_move(input@)),
{
    if let Ok((m, rest)) = basic_move(input) {
        return Ok((m, rest));
    }
    proof {
        reveal_strlit("O-O-O");
        reveal_strlit("O-O");
        assert("O-O-O"@ =~= seq!['O', '-', 'O', '-', 'O']);
        assert("O-O"@ =~= seq!['O', '-', 'O']);
    }
    if let Ok((_, rest)) = literal(input, "O-O-O") {
        return Ok((Move::CastleQueenside, rest));
    }
    if let Ok((_, rest)) = literal(input, "O-O") {
        return Ok((Move::CastleKingside, rest));
    }
    Err(ParseError)
}

/// A move with its marks: the move, optional `+` for check, optional `#`
/// for checkmate, optional annotation symbol.
pub fn marked_move(input: &str) -> (r: ParseResult<'_, MarkedMove>)
    ensures
        parsed_as(r, spec_marked_move(input@)),
{
    let (move_, s1) = bare_move(input)?;
    let (is_check, s2) = match expect_char(s1, '+') {
        Ok((_, rest)) => (true, rest),
        Err(_) => (false, s1),
    };
    let (is_checkmate, s3) = match expect_char(s2, '#') {
        Ok((_, rest)) => (true, rest),
        Err(_) => (false, s2),
    };
    let (annotation, s4) = match annotation_symbol(s3) {
        Ok((a, rest)) => (Some(a), rest),
        Err(_) => (None, s3),
    };
    Ok(
        (
            MarkedMove {
                move_: move_,
                is_check: is_check,
                is_checkmate: is_checkmate,
                annotation_symbol: annotation,
            },
            s4,
        ),
    )
}

/// A numeric annotation glyph: `$` and an integer.
pub fn nag(input: &str) -> (r: ParseResult<'_, NAG>)
    ensures
        parsed_as(r, spec_nag(input@)),
{
    let (_, s1) = expect_char(input, '$')?;
    let (value, s2) = pgn_integer(s1)?;
    Ok((NAG(value), s2))
}

/// The end of a line: carriage return and line feed, or either alone.
pub fn line_end(input: &str) -> (r: ParseResult<'_, ()>)
    ensures
        parsed_as(r, spec_line_end(input@)),
{
    proof {
        reveal_strlit("\r\n");
        assert("\r\n"@ =~= seq!['\r', '\n']);
    }
    if let Ok((_, rest)) = literal(input, "\r\n") {
        return Ok(((), rest));
    }
    if let Ok((_, rest)) = expect_char(input, '\r') {
        return Ok(((), rest));
    }
    expect_char(input, '\n')
}

/// A line comment: `;`, its text, the end of the line. The value is the
/// text, without the `;` and the line end.
pub fn inline_comment(input: &str) -> (r: ParseResult<'_, String>)
    ensures
        parsed_as_view(r, spec_inline_comment(input@)),
{
    let (_, s1) = expect_char(input, ';')?;
    let (text, s2) = inline_comment_contents(s1)?;
    let (_, s3) = line_end(s2)?;
    Ok((text, s3))
}

/// A block comment: `{`, its text, `}`. The value is the text between the
/// braces.
pub fn block_comment(input: &str) -> (r: ParseResult<'_, String>)
    ensures
        parsed_as_view(r, spec_block_comment(input@)),
{
    let (_, s1) = expect_char(input, '{')?;
    let (text, s2) = block_comment_contents(s1)?;
    let (_, s3) = expect_char(s2, '}')?;
    Ok((text, s3))
}

/// A comment: a line comment, else a block comment.
pub fn comment(input: &str) -> (r: ParseResult<'_, String>)
    ensures
        parsed_as_view(r, spec_comment(input@)),
{
    if let Ok((text, rest)) = inline_comment(input) {
        return Ok((text, rest));
    }
    block_comment(input)
}

/// A move number and the white space behind it.
pub fn move_number_ws(input: &str) -> (r: ParseResult<'_, MoveNumber>)
    ensures
        parsed_as(r, spec_move_number_ws(input@)),
{
    let (x, rest) = move_number(input)?;
    Ok((x, skip_space(rest)))
}

/// A marked move and the white space behind it.
pub fn marked_move_ws(input: &str) -> (r: ParseResult<'_, MarkedMove>)
    ensures
        parsed_as(r, spec_marked_move_ws(input@)),
{
    let (x, rest) = marked_move(input)?;
    Ok((x, skip_space(rest)))
}

/// A glyph and the white space behind it.
pub fn nag_ws(input: &str) -> (r: ParseResult<'_, NAG>)
    ensures
        parsed_as(r, spec_nag_ws(input@)),
{
    let (x, rest) = nag(input)?;
    Ok((x, skip_space(rest)))
}

/// A comment and the white space behind it.
pub fn comment_ws(input: &str) -> (r: ParseResult<'_, String>)
    ensures
        parsed_as_view(r, spec_comment_ws(input@)),
{
    let (x, rest) = comment(input)?;
    Ok((x, skip_space(rest)))
}

/// A variation: a line of play in round brackets, with optional white
/// space behind each bracket.
pub fn variation(input: &str) -> (r: ParseResult<'_, MoveSequence>)
    ensures
        parsed_as_view(r, spec_variation(input@)),
    decreases input@.len(), 3nat,
{
    let (_, s1) = expect_char(input, '(')?;
    let s2 = skip_space(s1);
    proof {
        lemma_skip_whitespace_keeps(s1@);
    }
    let (line, s3) = move_sequence(s2)?;
    let (_, s4) = expect_char(s3, ')')?;
    Ok((line, skip_space(s4)))
}

/// As many variations as match, in the order of the text.
pub fn variations(input: &str) -> (r: (Vec<MoveSequence>, &str))
    ensures
        (lines_view(r.0@), r.1@) == spec_variations(input@),
    decreases input@.len(), 4nat,
{
    let mut lines: Vec<MoveSequence> = Vec::new();
    let mut cur = input;
    loop
        invariant
            cur@.len() <= input@.len(),
            spec_variations(input@) == (
                lines_view(lines@) + spec_variations(cur@).0,
                spec_variations(cur@).1,
            ),
        decreases cur@.len(),
    {
        match variation(cur) {
            Ok((line, rest)) => {
                proof {
                    lemma_variation_shrinks(cur@);
                    assert(spec_variations(cur@).0 == seq![line@] + spec_variations(rest@).0);
                    assert(lines_view(lines@.push(line)) =~= lines_view(lines@) + seq![line@]);
                    assert((lines_view(lines@) + seq![line@]) + spec_variations(rest@).0
                        =~= lines_view(lines@) + (seq![line@] + spec_variations(rest@).0));
                }
                lines.push(line);
                cur = rest;
            },
            Err(_) => {
                proof {
                    assert(lines_view(lines@) + Seq::<crate::model::MoveSequenceView>::empty()
                        =~= lines_view(lines@));
                }
                return (lines, cur);
            },
        }
    }
}

/// A move of a game: optional number, the marked move, optional glyph,
/// optional comment, and its variations, each with the white space behind
/// it.
pub fn game_move(input: &str) -> (r: ParseResult<'_, GameMove>)
    ensures
        parsed_as_view(r, spec_game_move(input@)),
    decreases input@.len(), 0nat,
{
    let (number, s1) = match move_number_ws(input) {
        Ok((n, rest)) => (Some(n), rest),
        Err(_) => (None, input),
    };
    let (move_, s2) = marked_move_ws(s1)?;
    let (nag, s3) = match nag_ws(s2) {
        Ok((n, rest)) => (Some(n), rest),
        Err(_) => (None, s2),
    };
    let (comment, s4) = match comment_ws(s3) {
        Ok((c, rest)) => (Some(c), rest),
        Err(_) => (None, s3),
    };
    proof {
        lemma_move_head_shrinks(input@);
    }
    let (variations, s5) = variations(s4);
    let m = GameMove {
        number: number,
        move_: move_,
        nag: nag,
        comment: comment,
        variations: variations,
    };
    proof {
        lemma_game_move_view(m);
    }
    Ok((m, s5))
}

/// As many moves as match, each with the white space behind it, in the
/// order of the text.
pub fn game_moves(input: &str) -> (r: (Vec<GameMove>, &str))
    ensures
        (moves_view(r.0@), r.1@) == spec_game_moves(input@),
    decreases input@.len(), 1nat,
{
    let mut moves: Vec<GameMove> = Vec::new();
    let mut cur = input;
    loop
        invariant
            cur@.len() <= input@.len(),
            spec_game_moves(input@) == (
                moves_view(moves@) + spec_game_moves(cur@).0,
                spec_game_moves(cur@).1,
            ),
        decreases cur@.len(),
    {
        match game_move(cur) {
            Ok((m, rest)) => {
                let next = skip_space(rest);
                proof {
                    lemma_game_move_shrinks(cur@);
                    lemma_skip_whitespace_keeps(rest@);
                    assert(spec_game_moves(cur@).0 == seq![m@] + spec_game_moves(next@).0);
                    assert(moves_view(moves@.push(m)) =~= moves_view(moves@) + seq![m@]);
                    assert((moves_view(moves@) + seq![m@]) + spec_game_moves(next@).0
                        =~= moves_view(moves@) + (seq![m@] + spec_game_moves(next@).0));
                }
                moves.push(m);
                cur = next;
            },
            Err(_) => {
                proof {
                    assert(moves_view(moves@) + Seq::<crate::model::GameMoveView>::empty()
                        =~= moves_view(moves@));
                }
                return (moves, cur);
            },
        }
    }
}

/// A line of play: optional comment, then as many moves as match. Never
/// fails.
pub fn move_sequence(input: &str) -> (r: ParseResult<'_, MoveSequence>)
    ensures
        r matches Ok((line, rest)) && (line@, rest@) == spec_move_sequence(input@),
    decreases input@.len(), 2nat,
{
    let (comment, s1) = match comment_ws(input) {
        Ok((c, rest)) => (Some(c), rest),
        Err(_) => (None, input),
    };
    proof {
        lemma_spaced_rules_shrink(input@);
    }
    let (moves, s2) = game_moves(s1);
    let line = MoveSequence { comment: comment, moves: moves };
    proof {
        lemma_move_sequence_view(line);
    }
    Ok((line, s2))
}

/// A game: the tag section, the main line, the result, and optional white
/// space behind it. The comment and the moves of the game are those of its
/// main line.
pub fn game(input: &str) -> (r: ParseResult<'_, Game>)
    ensures
        parsed_as_view(r, spec_game(input@)),
{
    let (tags, s1) = tag_section(input)?;
    let (line, s2) = move_sequence(s1)?;
    let (termination, s3) = game_termination(s2)?;
    proof {
        lemma_move_sequence_view(line);
    }
    let g = Game {
        tags: tags,
        comment: line.comment,
        moves: line.moves,
        termination: termination,
    };
    Ok((g, skip_space(s3)))
}

} // verus!
