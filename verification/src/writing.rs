//! Writing whole records in the notation that the grammar reads, and the
//! proof that a game that is written reads back as itself.
//!
//! The parts of a game are written one behind the other, each followed by a
//! space, so that a part ends where the next begins. White space is what
//! `char::is_whitespace` says it is, of which nothing is known here. What
//! the proofs need of it is asked of the characters themselves before a
//! game is written: that the space and the line feed are white space, and
//! that no character with which a part begins is.

use crate::grammar::{
    decimal_value, optional, skip_whitespace, spec_bare_move, spec_basic_move, spec_block_comment,
    spec_char, spec_comment, spec_comment_ws, spec_game, spec_game_move, spec_game_moves,
    spec_game_termination, spec_inline_comment, spec_line_end, spec_marked_move,
    spec_marked_move_ws, spec_move_number, spec_move_number_ws, spec_move_sequence, spec_nag,
    spec_nag_ws, spec_pgn_integer, spec_pgn_symbol, spec_square, spec_tag_pair, spec_tag_section,
    spec_variation, spec_variations, spec_whitespace,
};
use crate::laws::lemma_quote_then_read;
use crate::model::{
    GameMoveView, GameTermination, GameView, MarkedMove, Move, MoveNumber, MoveSequenceView, NAG,
};
use crate::notation::{
    lemma_join_parts, lemma_write_then_read_marked_move, marked_move_text, writable,
};
use crate::progress::{lemma_game_move_shrinks, lemma_tags_shrink, lemma_variation_shrinks};
use crate::quoting::quote;
use crate::reader::{spec_read_games, spec_resume};
use crate::scan::{
    char_is_alphanumeric, char_is_whitespace, lemma_run_len, lemma_run_len_is, run_len, CharClass,
};
use crate::square::{lemma_square_new_coordinates, Piece, Square};
use vstd::prelude::*;

verus! {

/// Whether a part of a record, or what stands behind a record, can begin
/// with the character.
pub open spec fn is_token_start(c: char) -> bool {
    ('0' <= c && c <= '9') || ('a' <= c && c <= 'h') || c == 'P' || c == 'N' || c == 'B' || c
        == 'R' || c == 'Q' || c == 'K' || c == 'x' || c == 'O' || c == '$' || c == '{' || c == ';'
        || c == '(' || c == ')' || c == '*' || c == '[' || c == ']' || c == '"'
}

/// What is asked of white space: the space and the line feed are white
/// space, the space is no letter or digit, and no character with which a
/// part of a record begins is white space.
pub open spec fn separators_hold() -> bool {
    &&& char_is_whitespace(' ')
    &&& char_is_whitespace('\n')
    &&& !char_is_alphanumeric(' ')
    &&& forall|c: char| is_token_start(c) ==> !#[trigger] char_is_whitespace(c)
}

/// Whether a text is empty or begins with a character with which a part of
/// a record can begin.
pub open spec fn begins_token(t: Seq<char>) -> bool {
    t.len() == 0 || is_token_start(t[0])
}

/// A space, or a line feed, before a part of a record is skipped as white
/// space, and nothing of the part is.
pub proof fn lemma_skip_separator(t: Seq<char>)
    requires
        separators_hold(),
        begins_token(t),
    ensures
        skip_whitespace(seq![' '] + t) == t,
        skip_whitespace(seq!['\n'] + t) == t,
        skip_whitespace(t) == t,
{
    lemma_run_len_is(seq![' '] + t, CharClass::Whitespace, 1);
    lemma_run_len_is(seq!['\n'] + t, CharClass::Whitespace, 1);
    lemma_run_len_is(t, CharClass::Whitespace, 0);
    assert((seq![' '] + t).skip(1) =~= t);
    assert((seq!['\n'] + t).skip(1) =~= t);
    assert(t.skip(0) =~= t);
}

/// The character of a digit.
pub open spec fn digit_char(d: nat) -> char {
    if d == 0 {
        '0'
    } else if d == 1 {
        '1'
    } else if d == 2 {
        '2'
    } else if d == 3 {
        '3'
    } else if d == 4 {
        '4'
    } else if d == 5 {
        '5'
    } else if d == 6 {
        '6'
    } else if d == 7 {
        '7'
    } else if d == 8 {
        '8'
    } else {
        '9'
    }
}

/// A number written in base ten, without leading zeros.
pub open spec fn decimal_text(n: nat) -> Seq<char>
    decreases n,
{
    if n < 10 {
        seq![digit_char(n)]
    } else {
        decimal_text(n / 10).push(digit_char(n % 10))
    }
}

/// The text of a number is a run of digits, not empty, that writes the
/// number.
pub proof fn lemma_decimal_text(n: nat)
    ensures
        decimal_text(n).len() > 0,
        forall|i: int|
            0 <= i < decimal_text(n).len() ==> CharClass::Digit.contains(
                #[trigger] decimal_text(n)[i],
            ),
        decimal_value(decimal_text(n)) == n,
    decreases n,
{
    if n < 10 {
        let text = seq![digit_char(n)];
        assert(text.drop_last() =~= Seq::<char>::empty());
        assert(decimal_value(text.drop_last()) == 0);
    } else {
        lemma_decimal_text(n / 10);
        let shorter = decimal_text(n / 10);
        let text = shorter.push(digit_char(n % 10));
        assert(text.drop_last() =~= shorter);
        assert(text.last() == digit_char(n % 10));
    }
}

/// A number that is written reads back, where no digit follows it.
pub proof fn lemma_read_integer(n: u32, rest: Seq<char>)
    requires
        rest.len() == 0 || !CharClass::Digit.contains(rest[0]),
    ensures
        spec_pgn_integer(decimal_text(n as nat) + rest) == Some((n, rest)),
{
    let digits = decimal_text(n as nat);
    let text = digits + rest;
    lemma_decimal_text(n as nat);
    assert forall|i: int| 0 <= i < digits.len() implies CharClass::Digit.contains(
        #[trigger] text[i],
    ) by {
        assert(text[i] == digits[i]);
    }
    lemma_run_len_is(text, CharClass::Digit, digits.len());
    assert(text.take(digits.len() as int) =~= digits);
    assert(text.skip(digits.len() as int) =~= rest);
}

/// The text of a move number: the number and a dot, and two more dots for
/// a move of Black.
pub open spec fn move_number_text(number: MoveNumber) -> Seq<char> {
    match number {
        MoveNumber::White(n) => decimal_text(n as nat) + seq!['.'],
        MoveNumber::Black(n) => decimal_text(n as nat) + seq!['.', '.', '.'],
    }
}

/// The text of a glyph: `$` and its number.
pub open spec fn nag_text(nag: NAG) -> Seq<char> {
    seq!['$'] + decimal_text(nag.0 as nat)
}

/// A move number that is written reads back, where no dot follows it.
pub proof fn lemma_read_move_number(number: MoveNumber, rest: Seq<char>)
    requires
        rest.len() == 0 || rest[0] != '.',
    ensures
        spec_move_number(move_number_text(number) + rest) == Some((number, rest)),
{
    let text = move_number_text(number) + rest;
    let dots = seq!['.', '.'];
    match number {
        MoveNumber::White(n) => {
            let tail = seq!['.'] + rest;
            assert(text =~= decimal_text(n as nat) + tail);
            lemma_read_integer(n, tail);
            assert(tail.skip(1) =~= rest);
            assert(!dots.is_prefix_of(rest)) by {
                if dots.is_prefix_of(rest) {
                    assert(rest.subrange(0, 2)[0] == dots[0]);
                }
            }
        },
        MoveNumber::Black(n) => {
            let tail = seq!['.', '.', '.'] + rest;
            assert(text =~= decimal_text(n as nat) + tail);
            lemma_read_integer(n, tail);
            let after = tail.skip(1);
            assert(after =~= dots + rest);
            assert(dots.is_prefix_of(after)) by {
                assert(after.subrange(0, 2) =~= dots);
            }
            assert(after.skip(2) =~= rest);
        },
    }
}

/// A glyph that is written reads back, where no digit follows it.
pub proof fn lemma_read_nag(nag: NAG, rest: Seq<char>)
    requires
        rest.len() == 0 || !CharClass::Digit.contains(rest[0]),
    ensures
        spec_nag(nag_text(nag) + rest) == Some((nag, rest)),
{
    let text = nag_text(nag) + rest;
    let tail = decimal_text(nag.0 as nat) + rest;
    assert(text =~= seq!['$'] + tail);
    assert(text.skip(1) =~= tail);
    lemma_read_integer(nag.0, rest);
}

/// Whether a comment can be written: a comment that holds `}` holds no
/// line break. A comment without `}` is written in braces, and one without
/// line break behind `;` on a line of its own.
pub open spec fn writable_comment(comment: Seq<char>) -> bool {
    comment.contains('}') ==> !comment.contains('\r') && !comment.contains('\n')
}

/// The text of a comment: in braces, or behind `;` up to the end of the
/// line if the comment holds `}`.
pub open spec fn comment_text(comment: Seq<char>) -> Seq<char> {
    if comment.contains('}') {
        seq![';'] + comment + seq!['\n']
    } else {
        seq!['{'] + comment + seq!['}']
    }
}

/// A comment that is written reads back.
#[verifier::rlimit(50)]
pub proof fn lemma_read_comment(comment: Seq<char>, rest: Seq<char>)
    requires
        writable_comment(comment),
    ensures
        spec_comment(comment_text(comment) + rest) == Some((comment, rest)),
{
    let text = comment_text(comment) + rest;
    if comment.contains('}') {
        let tail = seq!['\n'] + rest;
        let body = comment + tail;
        assert(text =~= seq![';'] + body);
        assert(text.skip(1) =~= body);
        assert forall|i: int| 0 <= i < comment.len() implies CharClass::LineText.contains(
            #[trigger] body[i],
        ) by {
            assert(body[i] == comment[i]);
            assert(comment.contains(comment[i]));
        }
        assert(body[comment.len() as int] == '\n');
        lemma_run_len_is(body, CharClass::LineText, comment.len());
        assert(body.take(comment.len() as int) =~= comment);
        assert(body.skip(comment.len() as int) =~= tail);
        let pair = seq!['\r', '\n'];
        assert(!pair.is_prefix_of(tail)) by {
            if pair.is_prefix_of(tail) {
                assert(tail.subrange(0, 2)[0] == pair[0]);
            }
        }
        assert(tail.skip(1) =~= rest);
        assert(spec_line_end(tail) == Some(((), rest)));
        assert(spec_inline_comment(text) == Some((comment, rest)));
    } else {
        let tail = seq!['}'] + rest;
        let body = comment + tail;
        assert(text =~= seq!['{'] + body);
        assert(text.skip(1) =~= body);
        assert forall|i: int| 0 <= i < comment.len() implies CharClass::BlockText.contains(
            #[trigger] body[i],
        ) by {
            assert(body[i] == comment[i]);
            assert(comment.contains(comment[i]));
        }
        assert(body[comment.len() as int] == '}');
        lemma_run_len_is(body, CharClass::BlockText, comment.len());
        assert(body.take(comment.len() as int) =~= comment);
        assert(body.skip(comment.len() as int) =~= tail);
        assert(tail.skip(1) =~= rest);
        assert(spec_inline_comment(text) is None);
        assert(spec_block_comment(text) == Some((comment, rest)));
    }
}

/// A text followed by a space.
pub open spec fn spaced(text: Seq<char>) -> Seq<char> {
    text + seq![' ']
}

/// The text of the number of a move, if it has one.
pub open spec fn number_part(number: Option<MoveNumber>) -> Seq<char> {
    match number {
        Some(n) => spaced(move_number_text(n)),
        None => Seq::empty(),
    }
}

/// The text of the glyph of a move, if it has one.
pub open spec fn nag_part(nag: Option<NAG>) -> Seq<char> {
    match nag {
        Some(n) => spaced(nag_text(n)),
        None => Seq::empty(),
    }
}

/// The text of a comment, if there is one.
pub open spec fn comment_part(comment: Option<Seq<char>>) -> Seq<char> {
    match comment {
        Some(c) => spaced(comment_text(c)),
        None => Seq::empty(),
    }
}

/// The text of a move of a game: its number, its marked move, its glyph,
/// its comment, each followed by a space, and its variations.
pub open spec fn game_move_text(m: GameMoveView) -> Seq<char>
    decreases m,
{
    number_part(m.number) + spaced(marked_move_text(m.move_)) + nag_part(m.nag) + comment_part(
        m.comment,
    ) + lines_text(m.variations)
}

/// The text of a list of variations.
pub open spec fn lines_text(lines: Seq<MoveSequenceView>) -> Seq<char>
    decreases lines,
{
    if lines.len() == 0 {
        Seq::empty()
    } else {
        variation_text(lines[0]) + lines_text(lines.drop_first())
    }
}

/// The text of a variation: its line in round brackets, and a space.
pub open spec fn variation_text(line: MoveSequenceView) -> Seq<char>
    decreases line,
{
    seq!['('] + (comment_part(line.comment) + moves_text(line.moves)) + seq![')', ' ']
}

/// The text of a list of moves.
pub open spec fn moves_text(moves: Seq<GameMoveView>) -> Seq<char>
    decreases moves,
{
    if moves.len() == 0 {
        Seq::empty()
    } else {
        game_move_text(moves[0]) + moves_text(moves.drop_first())
    }
}

/// Whether a move of a game can be written: its move can, and so can its
/// comment and its variations.
pub open spec fn writable_game_move(m: GameMoveView) -> bool
    decreases m,
{
    &&& writable(m.move_.move_)
    &&& m.comment matches Some(c) ==> writable_comment(c)
    &&& writable_lines(m.variations)
}

/// Whether all the variations of a list can be written.
pub open spec fn writable_lines(lines: Seq<MoveSequenceView>) -> bool
    decreases lines,
{
    lines.len() == 0 || (writable_line(lines[0]) && writable_lines(lines.drop_first()))
}

/// Whether a line can be written: its comment can, and so can its moves.
pub open spec fn writable_line(line: MoveSequenceView) -> bool
    decreases line,
{
    &&& line.comment matches Some(c) ==> writable_comment(c)
    &&& writable_moves(line.moves)
}

/// Whether all the moves of a list can be written.
pub open spec fn writable_moves(moves: Seq<GameMoveView>) -> bool
    decreases moves,
{
    moves.len() == 0 || (writable_game_move(moves[0]) && writable_moves(moves.drop_first()))
}

/// Whether a text can stand behind a move of a game: it is empty, or it
/// begins a part of a record that is no glyph, no comment and no variation.
pub open spec fn follows_move(t: Seq<char>) -> bool {
    t.len() == 0 || (is_token_start(t[0]) && t[0] != '$' && t[0] != '{' && t[0] != ';' && t[0]
        != '(')
}

/// Whether a character can be the first of the text of a move.
pub open spec fn is_move_start(c: char) -> bool {
    ('a' <= c && c <= 'h') || ('1' <= c && c <= '8') || c == 'N' || c == 'B' || c == 'R' || c
        == 'Q' || c == 'K' || c == 'x' || c == 'O'
}

/// Whether a text begins as the text of a move does: with a character of a
/// move, and if that is a digit, with a capture mark or a file letter
/// behind it.
pub open spec fn begins_move(text: Seq<char>) -> bool {
    &&& text.len() > 0
    &&& is_move_start(text[0])
    &&& CharClass::Digit.contains(text[0]) ==> text.len() > 1 && (text[1] == 'x' || ('a' <= text[1]
        && text[1] <= 'h'))
}

/// What is written of a file and a rank before a capture mark or a file
/// letter begins as the text of a move does.
pub proof fn lemma_coordinates_begin(
    file: Option<crate::square::File>,
    rank: Option<crate::square::Rank>,
    t: Seq<char>,
)
    requires
        t.len() > 0,
        t[0] == 'x' || ('a' <= t[0] && t[0] <= 'h'),
    ensures
        begins_move(crate::notation::file_text(file) + crate::notation::rank_text(rank) + t),
{
    let text = crate::notation::file_text(file) + crate::notation::rank_text(rank) + t;
    match (file, rank) {
        (Some(f), Some(r)) => {
            assert(text[0] == crate::notation::file_char(f));
        },
        (Some(f), None) => {
            assert(text[0] == crate::notation::file_char(f));
        },
        (None, Some(r)) => {
            assert(text[0] == crate::notation::rank_char(r));
            assert(text[1] == t[0]);
        },
        (None, None) => {
            assert(text =~= t);
        },
    }
}

/// The text of a move of a piece begins as the text of a move does.
#[verifier::rlimit(50)]
pub proof fn lemma_basic_move_begins(
    piece: Piece,
    to: Square,
    from: Square,
    is_capture: bool,
    t: Seq<char>,
)
    requires
        to.is_known(),
    ensures
        begins_move(
            crate::notation::piece_text(piece) + (crate::notation::square_text(from) + (
            crate::notation::capture_text(is_capture) + (crate::notation::square_text(to) + t))),
        ),
{
    let t3 = crate::notation::square_text(to) + t;
    let t2 = crate::notation::capture_text(is_capture) + t3;
    let t1 = crate::notation::square_text(from) + t2;
    let t0 = crate::notation::piece_text(piece) + t1;
    assert(t3.len() > 0 && 'a' <= t3[0] && t3[0] <= 'h') by {
        lemma_coordinates_begin(to.spec_file(), to.spec_rank(), seq!['x'] + t);
        assert(t3[0] == crate::notation::file_char(to.spec_file().unwrap()));
    }
    assert(t2.len() > 0 && (t2[0] == 'x' || ('a' <= t2[0] && t2[0] <= 'h'))) by {
        if !is_capture {
            assert(t2 =~= t3);
        }
    }
    lemma_coordinates_begin(from.spec_file(), from.spec_rank(), t2);
    if piece == Piece::Pawn {
        assert(t0 =~= t1);
    } else {
        assert(t0[0] == crate::notation::piece_char(piece));
    }
}

/// The text of a move with its marks begins as the text of a move does.
#[verifier::rlimit(50)]
pub proof fn lemma_marked_move_begins(m: MarkedMove, t: Seq<char>)
    requires
        writable(m.move_),
    ensures
        begins_move(marked_move_text(m) + t),
{
    let text = marked_move_text(m) + t;
    let marks = crate::notation::mark_text(m.is_check, '+') + crate::notation::mark_text(
        m.is_checkmate,
        '#',
    ) + crate::notation::annotation_text(m.annotation_symbol) + t;
    assert(text =~= crate::notation::move_text(m.move_) + marks);
    match m.move_ {
        Move::BasicMove { piece, to, from, is_capture, promoted_to } => {
            let behind = crate::notation::promotion_text(promoted_to) + marks;
            crate::notation::lemma_move_text_parts(
                piece,
                to,
                from,
                is_capture,
                promoted_to,
                marks,
            );
            lemma_basic_move_begins(piece, to, from, is_capture, behind);
        },
        Move::CastleKingside => {
            assert(text[0] == 'O');
        },
        Move::CastleQueenside => {
            assert(text[0] == 'O');
        },
    }
}

/// The number of a move reads back where it was written, and no number is
/// read from the text of a move.
#[verifier::rlimit(50)]
pub proof fn lemma_read_number_part(number: Option<MoveNumber>, m: MarkedMove, t: Seq<char>)
    requires
        separators_hold(),
        writable(m.move_),
    ensures
        ({
            let tail = marked_move_text(m) + t;
            optional(spec_move_number_ws(number_part(number) + tail), number_part(number) + tail)
                == (number, tail)
        }),
{
    let tail = marked_move_text(m) + t;
    lemma_marked_move_begins(m, t);
    match number {
        Some(n) => {
            let after = seq![' '] + tail;
            assert(number_part(number) + tail =~= move_number_text(n) + after);
            lemma_read_move_number(n, after);
            lemma_skip_separator(tail);
        },
        None => {
            assert(number_part(number) + tail =~= tail);
            assert(begins_move(tail));
            if CharClass::Digit.contains(tail[0]) {
                lemma_run_len_is(tail, CharClass::Digit, 1);
                assert(tail.skip(1)[0] == tail[1]);
            } else {
                lemma_run_len_is(tail, CharClass::Digit, 0);
            }
            assert(spec_move_number(tail) is None);
        },
    }
}

/// A move with its marks that is written before a space reads back.
pub proof fn lemma_read_marked_part(m: MarkedMove, t: Seq<char>)
    requires
        separators_hold(),
        writable(m.move_),
        begins_token(t),
    ensures
        spec_marked_move_ws(spaced(marked_move_text(m)) + t) == Some((m, t)),
{
    let after = seq![' '] + t;
    assert(spaced(marked_move_text(m)) + t =~= marked_move_text(m) + after);
    lemma_write_then_read_marked_move(m, after);
    lemma_skip_separator(t);
}

/// The glyph of a move reads back where it was written, and none is read
/// before a text that begins with no `$`.
pub proof fn lemma_read_nag_part(nag: Option<NAG>, t: Seq<char>)
    requires
        separators_hold(),
        begins_token(t),
        t.len() == 0 || t[0] != '$',
    ensures
        optional(spec_nag_ws(nag_part(nag) + t), nag_part(nag) + t) == (nag, t),
{
    match nag {
        Some(n) => {
            let after = seq![' '] + t;
            assert(nag_part(nag) + t =~= nag_text(n) + after);
            lemma_read_nag(n, after);
            lemma_skip_separator(t);
        },
        None => {
            assert(nag_part(nag) + t =~= t);
        },
    }
}

/// A comment reads back where it was written, and none is read before a
/// text that begins with neither `{` nor `;`.
pub proof fn lemma_read_comment_part(comment: Option<Seq<char>>, t: Seq<char>)
    requires
        separators_hold(),
        comment matches Some(c) ==> writable_comment(c),
        begins_token(t),
        t.len() == 0 || (t[0] != '{' && t[0] != ';'),
    ensures
        optional(spec_comment_ws(comment_part(comment) + t), comment_part(comment) + t) == (
            comment,
            t,
        ),
{
    match comment {
        Some(c) => {
            let after = seq![' '] + t;
            assert(comment_part(comment) + t =~= comment_text(c) + after);
            lemma_read_comment(c, after);
            lemma_skip_separator(t);
        },
        None => {
            assert(comment_part(comment) + t =~= t);
        },
    }
}

/// The text of a part of a move begins as the part does: that of a glyph
/// with `$`, that of a comment with `{` or `;`, that of a list of
/// variations with `(`, and that of a list of moves as a move; and where
/// the part is missing, the text is what stands behind it.
pub proof fn lemma_parts_begin(
    nag: Option<NAG>,
    comment: Option<Seq<char>>,
    lines: Seq<MoveSequenceView>,
    t: Seq<char>,
)
    ensures
        nag is Some ==> (nag_part(nag) + t).len() > 0 && (nag_part(nag) + t)[0] == '$',
        nag is None ==> nag_part(nag) + t == t,
        comment is Some ==> (comment_part(comment) + t).len() > 0 && ((comment_part(comment)
            + t)[0] == '{' || (comment_part(comment) + t)[0] == ';'),
        comment is None ==> comment_part(comment) + t == t,
        lines.len() > 0 ==> (lines_text(lines) + t).len() > 0 && (lines_text(lines) + t)[0] == '(',
        lines.len() == 0 ==> lines_text(lines) + t == t,
{
    if nag is None {
        assert(nag_part(nag) + t =~= t);
    }
    if comment is None {
        assert(comment_part(comment) + t =~= t);
    }
    if lines.len() == 0 {
        assert(lines_text(lines) + t =~= t);
    } else {
        assert(variation_text(lines[0])[0] == '(');
    }
}

/// The text of a move of a game begins with a digit or with a character of
/// a move: it can stand behind a move.
#[verifier::rlimit(50)]
pub proof fn lemma_game_move_begins(m: GameMoveView, t: Seq<char>)
    requires
        writable(m.move_.move_),
    ensures
        (game_move_text(m) + t).len() > 0,
        follows_move(game_move_text(m) + t),
        (game_move_text(m) + t)[0] != ')' && (game_move_text(m) + t)[0] != '*' && (game_move_text(
            m,
        ) + t)[0] != '[',
{
    let text = game_move_text(m) + t;
    let behind = seq![' '] + (nag_part(m.nag) + (comment_part(m.comment) + (lines_text(
        m.variations,
    ) + t)));
    let marked = marked_move_text(m.move_) + behind;
    lemma_marked_move_begins(m.move_, behind);
    assert(begins_move(marked));
    lemma_join_parts(
        number_part(m.number),
        spaced(marked_move_text(m.move_)),
        nag_part(m.nag),
        comment_part(m.comment),
        lines_text(m.variations),
        t,
    );
    assert(spaced(marked_move_text(m.move_)) + (nag_part(m.nag) + (comment_part(m.comment) + (
    lines_text(m.variations) + t))) =~= marked);
    lemma_number_part_begins(m.number, marked);
}

/// The text of the number of a move begins with a digit, and where the
/// number is missing, the text is what stands behind it.
pub proof fn lemma_number_part_begins(number: Option<MoveNumber>, t: Seq<char>)
    ensures
        number is Some ==> (number_part(number) + t).len() > 0 && CharClass::Digit.contains(
            (number_part(number) + t)[0],
        ),
        number is None ==> number_part(number) + t == t,
{
    match number {
        Some(n) => {
            lemma_decimal_text(digits_number(n));
            let digits = decimal_text(digits_number(n));
            assert((number_part(number) + t)[0] == digits[0]);
        },
        None => {
            assert(number_part(number) + t =~= t);
        },
    }
}

/// The number that a move number holds.
pub open spec fn digits_number(number: MoveNumber) -> nat {
    match number {
        MoveNumber::White(k) => k as nat,
        MoveNumber::Black(k) => k as nat,
    }
}

/// A text whose parts read as the parts of a move of a game reads as the
/// move.
pub proof fn lemma_read_game_move_parts(
    s: Seq<char>,
    s1: Seq<char>,
    s2: Seq<char>,
    s3: Seq<char>,
    s4: Seq<char>,
    rest: Seq<char>,
    m: GameMoveView,
)
    requires
        optional(spec_move_number_ws(s), s) == (m.number, s1),
        spec_marked_move_ws(s1) == Some((m.move_, s2)),
        optional(spec_nag_ws(s2), s2) == (m.nag, s3),
        optional(spec_comment_ws(s3), s3) == (m.comment, s4),
        s4.len() < s.len(),
        spec_variations(s4) == (m.variations, rest),
    ensures
        spec_game_move(s) == Some((m, rest)),
{
}

/// A text that begins with `)`, `*` or `[`, or is empty, is no move of a
/// game.
#[verifier::rlimit(50)]
pub proof fn lemma_no_game_move(t: Seq<char>)
    requires
        t.len() == 0 || t[0] == ')' || t[0] == '*' || t[0] == '[',
    ensures
        spec_game_move(t) is None,
{
    lemma_run_len_is(t, CharClass::Digit, 0);
    assert(spec_move_number(t) is None);
    assert(spec_basic_move(t) is None) by {
        assert(crate::grammar::spec_piece(t) is None);
        assert(crate::grammar::spec_origin(t) is None);
        assert(spec_char(t, 'x') is None);
        assert(crate::grammar::spec_square(t) is None);
    }
    let long = seq!['O', '-', 'O', '-', 'O'];
    let short = seq!['O', '-', 'O'];
    assert(!long.is_prefix_of(t)) by {
        if long.is_prefix_of(t) {
            assert(t.subrange(0, 5)[0] == long[0]);
        }
    }
    assert(!short.is_prefix_of(t)) by {
        if short.is_prefix_of(t) {
            assert(t.subrange(0, 3)[0] == short[0]);
        }
    }
    assert(spec_bare_move(t) is None);
    assert(spec_marked_move(t) is None);
}

/// The moves of a text that begins with a move are the move and the moves
/// of the text behind it.
pub proof fn lemma_game_moves_step(
    s: Seq<char>,
    m: GameMoveView,
    behind: Seq<char>,
    moves: Seq<GameMoveView>,
    rest: Seq<char>,
)
    requires
        spec_game_move(s) == Some((m, behind)),
        skip_whitespace(behind) == behind,
        behind.len() < s.len(),
        spec_game_moves(behind) == (moves, rest),
    ensures
        spec_game_moves(s) == (seq![m] + moves, rest),
{
}

/// The variations of a text that begins with a variation are the variation
/// and the variations of the text behind it.
pub proof fn lemma_variations_step(
    s: Seq<char>,
    line: MoveSequenceView,
    behind: Seq<char>,
    lines: Seq<MoveSequenceView>,
    rest: Seq<char>,
)
    requires
        spec_variation(s) == Some((line, behind)),
        behind.len() < s.len(),
        spec_variations(behind) == (lines, rest),
    ensures
        spec_variations(s) == (seq![line] + lines, rest),
{
}

/// A move of a game that is written reads back as itself, before a text
/// that can stand behind a move.
#[verifier::rlimit(50)]
pub proof fn lemma_read_game_move(m: GameMoveView, rest: Seq<char>)
    requires
        separators_hold(),
        writable_game_move(m),
        follows_move(rest),
    ensures
        spec_game_move(game_move_text(m) + rest) == Some((m, rest)),
    decreases m,
{
    let s4 = lines_text(m.variations) + rest;
    let s3 = comment_part(m.comment) + s4;
    let s2 = nag_part(m.nag) + s3;
    let s1 = spaced(marked_move_text(m.move_)) + s2;
    let s = number_part(m.number) + s1;
    lemma_join_parts(
        number_part(m.number),
        spaced(marked_move_text(m.move_)),
        nag_part(m.nag),
        comment_part(m.comment),
        lines_text(m.variations),
        rest,
    );
    assert(s == game_move_text(m) + rest);
    lemma_parts_begin(m.nag, m.comment, m.variations, rest);
    lemma_parts_begin(m.nag, m.comment, m.variations, s4);
    lemma_parts_begin(m.nag, m.comment, m.variations, s3);
    assert(s1 =~= marked_move_text(m.move_) + (seq![' '] + s2));
    lemma_read_number_part(m.number, m.move_, seq![' '] + s2);
    lemma_read_marked_part(m.move_, s2);
    lemma_read_nag_part(m.nag, s3);
    lemma_read_comment_part(m.comment, s4);
    lemma_read_lines(m.variations, rest);
    lemma_read_game_move_parts(s, s1, s2, s3, s4, rest, m);
}

/// Variations that are written read back as themselves, before a text that
/// can stand behind a move.
#[verifier::rlimit(50)]
pub proof fn lemma_read_lines(lines: Seq<MoveSequenceView>, rest: Seq<char>)
    requires
        separators_hold(),
        writable_lines(lines),
        follows_move(rest),
    ensures
        spec_variations(lines_text(lines) + rest) == (lines, rest),
    decreases lines,
{
    let text = lines_text(lines) + rest;
    if lines.len() == 0 {
        assert(text =~= rest);
        assert(spec_variation(rest) is None);
        assert(lines =~= Seq::<MoveSequenceView>::empty());
    } else {
        let tail = lines.drop_first();
        let behind = lines_text(tail) + rest;
        assert(text =~= variation_text(lines[0]) + behind);
        lemma_parts_begin(None, None, tail, rest);
        lemma_read_variation(lines[0], behind);
        lemma_variation_shrinks(text);
        lemma_read_lines(tail, rest);
        lemma_variations_step(text, lines[0], behind, tail, rest);
        assert(seq![lines[0]] + tail =~= lines);
    }
}

/// A variation that is written reads back as itself, before a text with
/// which a part of a record begins.
#[verifier::rlimit(50)]
pub proof fn lemma_read_variation(line: MoveSequenceView, t: Seq<char>)
    requires
        separators_hold(),
        writable_line(line),
        begins_token(t),
    ensures
        spec_variation(variation_text(line) + t) == Some((line, t)),
    decreases line,
{
    let text = variation_text(line) + t;
    let close = seq![')'] + (seq![' '] + t);
    let inner = comment_part(line.comment) + moves_text(line.moves) + close;
    assert(text =~= seq!['('] + inner);
    assert(text.skip(1) =~= inner);
    lemma_no_game_move(close);
    lemma_read_line(line.comment, line.moves, close);
    lemma_line_begins(line.comment, line.moves, close);
    lemma_skip_separator(inner);
    assert(close.skip(1) =~= seq![' '] + t);
    lemma_skip_separator(t);
}

/// The text of a line before a text that can stand behind a move begins a
/// part of a record.
pub proof fn lemma_line_begins(
    comment: Option<Seq<char>>,
    moves: Seq<GameMoveView>,
    rest: Seq<char>,
)
    requires
        writable_moves(moves),
        follows_move(rest),
    ensures
        begins_token(comment_part(comment) + moves_text(moves) + rest),
        follows_move(moves_text(moves) + rest),
{
    let behind = moves_text(moves) + rest;
    assert(comment_part(comment) + moves_text(moves) + rest =~= comment_part(comment) + behind);
    lemma_parts_begin(None, comment, Seq::empty(), behind);
    if moves.len() == 0 {
        assert(behind =~= rest);
    } else {
        let after = moves_text(moves.drop_first()) + rest;
        assert(behind =~= game_move_text(moves[0]) + after);
        assert(writable_game_move(moves[0]));
        lemma_game_move_begins(moves[0], after);
    }
}

/// A line that is written reads back as itself, before a text that can
/// stand behind a move and is no move.
#[verifier::rlimit(50)]
pub proof fn lemma_read_line(comment: Option<Seq<char>>, moves: Seq<GameMoveView>, rest: Seq<char>)
    requires
        separators_hold(),
        comment matches Some(c) ==> writable_comment(c),
        writable_moves(moves),
        follows_move(rest),
        spec_game_move(rest) is None,
    ensures
        spec_move_sequence(comment_part(comment) + moves_text(moves) + rest) == (
            MoveSequenceView { comment: comment, moves: moves },
            rest,
        ),
    decreases moves, 1nat,
{
    let behind = moves_text(moves) + rest;
    let text = comment_part(comment) + behind;
    assert(comment_part(comment) + moves_text(moves) + rest =~= text);
    lemma_line_begins(comment, moves, rest);
    lemma_read_comment_part(comment, behind);
    lemma_read_moves(moves, rest);
    assert(behind.len() <= text.len());
}

/// Moves that are written read back as themselves, before a text that can
/// stand behind a move and is no move.
#[verifier::rlimit(50)]
pub proof fn lemma_read_moves(moves: Seq<GameMoveView>, rest: Seq<char>)
    requires
        separators_hold(),
        writable_moves(moves),
        follows_move(rest),
        spec_game_move(rest) is None,
    ensures
        spec_game_moves(moves_text(moves) + rest) == (moves, rest),
    decreases moves, 0nat,
{
    let text = moves_text(moves) + rest;
    if moves.len() == 0 {
        assert(text =~= rest);
        assert(moves =~= Seq::<GameMoveView>::empty());
    } else {
        let tail = moves.drop_first();
        let behind = moves_text(tail) + rest;
        assert(text =~= game_move_text(moves[0]) + behind);
        lemma_line_begins(None, tail, rest);
        assert(follows_move(behind) && begins_token(behind));
        lemma_read_game_move(moves[0], behind);
        lemma_skip_separator(behind);
        lemma_game_move_shrinks(text);
        lemma_read_moves(tail, rest);
        lemma_game_moves_step(text, moves[0], behind, tail, rest);
        assert(seq![moves[0]] + tail =~= moves);
    }
}

/// Whether the name of a tag can be written: it is a run of symbol
/// characters, not empty, that begins with no white space.
pub open spec fn writable_tag_name(name: Seq<char>) -> bool {
    &&& name.len() > 0
    &&& !char_is_whitespace(name[0])
    &&& forall|i: int| 0 <= i < name.len() ==> CharClass::Symbol.contains(#[trigger] name[i])
}

/// The text of a tag pair: the name, a space and the quoted value in
/// square brackets.
pub open spec fn tag_text(tag: (Seq<char>, Seq<char>)) -> Seq<char> {
    seq!['['] + tag.0 + seq![' '] + quote(tag.1) + seq![']']
}

/// The text of a tag section: each tag pair on a line of its own.
pub open spec fn tags_text(tags: Seq<(Seq<char>, Seq<char>)>) -> Seq<char>
    decreases tags.len(),
{
    if tags.len() == 0 {
        Seq::empty()
    } else {
        tag_text(tags[0]) + seq!['\n'] + tags_text(tags.drop_first())
    }
}

/// Whether all the tags of a list can be written.
pub open spec fn writable_tags(tags: Seq<(Seq<char>, Seq<char>)>) -> bool {
    forall|i: int| 0 <= i < tags.len() ==> writable_tag_name(#[trigger] tags[i].0)
}

/// The text of the result of a game.
pub open spec fn termination_text(termination: GameTermination) -> Seq<char> {
    match termination {
        GameTermination::WhiteWins => seq!['1', '-', '0'],
        GameTermination::BlackWins => seq!['0', '-', '1'],
        GameTermination::DrawnGame => seq!['1', '/', '2', '-', '1', '/', '2'],
        GameTermination::Unknown => seq!['*'],
    }
}

/// The text of a game: its tags, its comment and its moves, and its result.
pub open spec fn game_text(g: GameView) -> Seq<char> {
    tags_text(g.tags) + (comment_part(g.comment) + moves_text(g.moves)) + termination_text(
        g.termination,
    )
}

/// Whether a game can be written: its tags can, and so can its comment and
/// its moves.
pub open spec fn writable_game(g: GameView) -> bool {
    &&& writable_tags(g.tags)
    &&& g.comment matches Some(c) ==> writable_comment(c)
    &&& writable_moves(g.moves)
}

/// A tag pair that is written reads back.
#[verifier::rlimit(50)]
pub proof fn lemma_read_tag_pair(tag: (Seq<char>, Seq<char>), rest: Seq<char>)
    requires
        separators_hold(),
        writable_tag_name(tag.0),
    ensures
        spec_tag_pair(tag_text(tag) + rest) == Some((tag, rest)),
{
    let name = tag.0;
    let value = tag.1;
    let close = seq![']'] + rest;
    let quoted = quote(value) + close;
    let spaced_value = seq![' '] + quoted;
    let named = name + spaced_value;
    let text = tag_text(tag) + rest;
    assert(text =~= seq!['['] + named);
    assert(text.skip(1) =~= named);
    // No white space stands before the name.
    lemma_run_len_is(named, CharClass::Whitespace, 0);
    assert(named.skip(0) =~= named);
    assert(skip_whitespace(named) == named);
    // The name is the run of symbol characters.
    assert forall|i: int| 0 <= i < name.len() implies CharClass::Symbol.contains(
        #[trigger] named[i],
    ) by {
        assert(named[i] == name[i]);
    }
    assert(named[name.len() as int] == ' ');
    lemma_run_len_is(named, CharClass::Symbol, name.len());
    assert(named.take(name.len() as int) =~= name);
    assert(named.skip(name.len() as int) =~= spaced_value);
    assert(spec_pgn_symbol(named) == Some((name, spaced_value)));
    // One space stands before the value.
    assert(quoted[0] == '"');
    lemma_run_len_is(spaced_value, CharClass::Whitespace, 1);
    assert(spaced_value.skip(1) =~= quoted);
    assert(spec_whitespace(spaced_value) == Some(((), quoted)));
    // The value, and the closing bracket.
    lemma_quote_then_read(value, close);
    lemma_run_len_is(close, CharClass::Whitespace, 0);
    assert(close.skip(0) =~= close);
    assert(close.skip(1) =~= rest);
}

/// The tags of a game that are written read back, before a text with which
/// a part of a record begins that is no tag pair.
#[verifier::rlimit(50)]
pub proof fn lemma_read_tags(tags: Seq<(Seq<char>, Seq<char>)>, rest: Seq<char>)
    requires
        separators_hold(),
        writable_tags(tags),
        begins_token(rest),
        rest.len() == 0 || rest[0] != '[',
    ensures
        spec_tag_section(tags_text(tags) + rest) == (tags, rest),
    decreases tags.len(),
{
    let text = tags_text(tags) + rest;
    if tags.len() == 0 {
        assert(text =~= rest);
        assert(tags =~= Seq::<(Seq<char>, Seq<char>)>::empty());
    } else {
        let tail = tags.drop_first();
        let behind = tags_text(tail) + rest;
        let line = seq!['\n'] + behind;
        assert(text =~= tag_text(tags[0]) + line);
        lemma_read_tag_pair(tags[0], line);
        assert(begins_token(behind)) by {
            if tail.len() == 0 {
                assert(behind =~= rest);
            } else {
                assert(behind[0] == '[');
            }
        }
        lemma_skip_separator(behind);
        lemma_tags_shrink(text);
        assert forall|i: int| 0 <= i < tail.len() implies writable_tag_name(
            #[trigger] tail[i].0,
        ) by {
            assert(tail[i] == tags[i + 1]);
        }
        lemma_read_tags(tail, rest);
        assert(seq![tags[0]] + tail =~= tags);
    }
}

/// The result of a game that is written reads back, and it is no move of a
/// game.
#[verifier::rlimit(50)]
pub proof fn lemma_read_termination(termination: GameTermination, rest: Seq<char>)
    ensures
        spec_game_termination(termination_text(termination) + rest) == Some((termination, rest)),
        spec_game_move(termination_text(termination) + rest) is None,
        follows_move(termination_text(termination) + rest),
        (termination_text(termination) + rest)[0] != '[',
{
    let text = termination_text(termination) + rest;
    let white = seq!['1', '-', '0'];
    let black = seq!['0', '-', '1'];
    let draw = seq!['1', '/', '2', '-', '1', '/', '2'];
    assert forall|token: Seq<char>|
        token.len() >= 2 && #[trigger] token.is_prefix_of(text) implies text[0] == token[0]
        && text[1] == token[1] by {
        assert(text.subrange(0, token.len() as int)[0] == token[0]);
        assert(text.subrange(0, token.len() as int)[1] == token[1]);
    }
    match termination {
        GameTermination::WhiteWins => {
            assert(text.subrange(0, 3) =~= white);
            assert(text.skip(3) =~= rest);
        },
        GameTermination::BlackWins => {
            assert(text.subrange(0, 3) =~= black);
            assert(text.skip(3) =~= rest);
        },
        GameTermination::DrawnGame => {
            assert(text.subrange(0, 7) =~= draw);
            assert(text.skip(7) =~= rest);
        },
        GameTermination::Unknown => {
            assert(text.skip(1) =~= rest);
        },
    }
    lemma_result_is_no_move(text);
}

/// A text that begins with `*`, or with `0` or `1` before `-` or `/`, is no
/// move of a game.
#[verifier::rlimit(50)]
pub proof fn lemma_result_is_no_move(t: Seq<char>)
    requires
        t.len() > 0,
        t[0] == '*' || (t.len() > 1 && (t[0] == '0' || t[0] == '1') && (t[1] == '-' || t[1]
            == '/')),
    ensures
        spec_game_move(t) is None,
{
    if t[0] == '*' {
        lemma_no_game_move(t);
    } else {
        lemma_run_len_is(t, CharClass::Digit, 1);
        assert(t.skip(1)[0] == t[1]);
        assert(spec_move_number(t) is None);
        assert(spec_basic_move(t) is None) by {
            assert(crate::grammar::spec_piece(t) is None);
            assert(crate::grammar::spec_file(t) is None);
            assert(crate::grammar::spec_square(t) is None);
            assert(crate::grammar::spec_move_disambiguation(t) is None);
            assert(spec_char(t, 'x') is None);
        }
        let long = seq!['O', '-', 'O', '-', 'O'];
        let short = seq!['O', '-', 'O'];
        assert(!long.is_prefix_of(t)) by {
            if long.is_prefix_of(t) {
                assert(t.subrange(0, 5)[0] == long[0]);
            }
        }
        assert(!short.is_prefix_of(t)) by {
            if short.is_prefix_of(t) {
                assert(t.subrange(0, 3)[0] == short[0]);
            }
        }
        assert(spec_bare_move(t) is None);
        assert(spec_marked_move(t) is None);
    }
}

/// A game that is written reads back as itself. What stands behind the
/// game is left but for its leading white space.
#[verifier::rlimit(50)]
pub proof fn lemma_write_then_read_game(g: GameView, rest: Seq<char>)
    requires
        separators_hold(),
        writable_game(g),
    ensures
        spec_game(game_text(g) + rest) == Some((g, skip_whitespace(rest))),
{
    let result = termination_text(g.termination) + rest;
    let line = comment_part(g.comment) + moves_text(g.moves) + result;
    let text = tags_text(g.tags) + line;
    assert(game_text(g) + rest =~= text);
    lemma_read_termination(g.termination, rest);
    lemma_line_begins(g.comment, g.moves, result);
    assert(line[0] != '[') by {
        lemma_parts_begin(None, g.comment, Seq::empty(), moves_text(g.moves) + result);
        assert(line =~= comment_part(g.comment) + (moves_text(g.moves) + result));
        if g.moves.len() > 0 {
            assert(writable_game_move(g.moves[0]));
            assert(moves_text(g.moves) + result =~= game_move_text(g.moves[0]) + (moves_text(
                g.moves.drop_first(),
            ) + result));
            lemma_game_move_begins(g.moves[0], moves_text(g.moves.drop_first()) + result);
        } else {
            assert(moves_text(g.moves) + result =~= result);
        }
    }
    lemma_read_tags(g.tags, line);
    lemma_read_line(g.comment, g.moves, result);
}

/// Every move that the grammar reads can be written: its destination is a
/// known square.
#[verifier::rlimit(50)]
pub proof fn lemma_read_move_is_writable(s: Seq<char>)
    ensures
        spec_square(s) matches Some((square, _)) ==> square.is_known(),
        spec_basic_move(s) matches Some((m, _)) ==> writable(m),
        spec_bare_move(s) matches Some((m, _)) ==> writable(m),
        spec_marked_move(s) matches Some((m, _)) ==> writable(m.move_),
        spec_marked_move_ws(s) matches Some((m, _)) ==> writable(m.move_),
{
    assert forall|t: Seq<char>| spec_square(t) is Some implies (#[trigger] spec_square(
        t,
    )).unwrap().0.is_known() by {
        let file = crate::grammar::spec_file(t).unwrap().0;
        let rank = crate::grammar::spec_rank(crate::grammar::spec_file(t).unwrap().1).unwrap().0;
        lemma_square_new_coordinates(Some(file), Some(rank), Square::XX);
    }
}

/// Every comment that the grammar reads can be written: one in braces
/// holds no `}`, and one behind `;` holds no line break.
pub proof fn lemma_read_comment_is_writable(s: Seq<char>)
    ensures
        spec_comment(s) matches Some((c, _)) ==> writable_comment(c),
        spec_comment_ws(s) matches Some((c, _)) ==> writable_comment(c),
{
    if let Some((c, _)) = spec_inline_comment(s) {
        let body = s.skip(1);
        lemma_run_len(body, CharClass::LineText);
        assert forall|i: int| 0 <= i < c.len() implies c[i] != '\r' && c[i] != '\n' by {
            assert(c[i] == body[i]);
        }
    } else if let Some((c, _)) = spec_block_comment(s) {
        let body = s.skip(1);
        lemma_run_len(body, CharClass::BlockText);
        assert forall|i: int| 0 <= i < c.len() implies c[i] != '}' by {
            assert(c[i] == body[i]);
        }
    }
}

/// Every tag pair that the grammar reads can be written: its name is a run
/// of symbol characters that begins with no white space.
#[verifier::rlimit(50)]
pub proof fn lemma_read_tag_is_writable(s: Seq<char>)
    ensures
        spec_tag_pair(s) matches Some((tag, _)) ==> writable_tag_name(tag.0),
{
    if let Some((tag, _)) = spec_tag_pair(s) {
        let s1 = s.skip(1);
        let named = skip_whitespace(s1);
        lemma_run_len(s1, CharClass::Whitespace);
        lemma_run_len(named, CharClass::Symbol);
        let name = tag.0;
        assert(named[0] == s1[run_len(s1, CharClass::Whitespace) as int]);
        assert(name[0] == named[0]);
        assert forall|i: int| 0 <= i < name.len() implies CharClass::Symbol.contains(
            #[trigger] name[i],
        ) by {
            assert(name[i] == named[i]);
        }
    }
}

/// A move that can be written before moves that can be written makes a
/// list of moves that can be written, and so does no move at all.
pub proof fn lemma_writable_moves(m: GameMoveView, moves: Seq<GameMoveView>)
    requires
        writable_game_move(m),
        writable_moves(moves),
    ensures
        writable_moves(seq![m] + moves),
        writable_moves(seq![m]),
{
    assert((seq![m] + moves).drop_first() =~= moves);
    assert((seq![m] + moves)[0] == m);
    assert(seq![m].drop_first() =~= Seq::<GameMoveView>::empty());
    assert(writable_moves(seq![m].drop_first()));
    assert(seq![m][0] == m);
}

/// A variation that can be written before variations that can be written
/// makes a list of variations that can be written.
pub proof fn lemma_writable_lines(line: MoveSequenceView, lines: Seq<MoveSequenceView>)
    requires
        writable_line(line),
        writable_lines(lines),
    ensures
        writable_lines(seq![line] + lines),
        writable_lines(seq![line]),
{
    assert((seq![line] + lines).drop_first() =~= lines);
    assert((seq![line] + lines)[0] == line);
    assert(seq![line].drop_first() =~= Seq::<MoveSequenceView>::empty());
    assert(writable_lines(seq![line].drop_first()));
    assert(seq![line][0] == line);
}

/// Every move of a game that the grammar reads can be written.
#[verifier::rlimit(50)]
pub proof fn lemma_read_game_move_is_writable(s: Seq<char>)
    ensures
        spec_game_move(s) matches Some((m, _)) ==> writable_game_move(m),
    decreases s.len(), 0nat,
{
    let (number, s1) = optional(spec_move_number_ws(s), s);
    if let Some((move_, s2)) = spec_marked_move_ws(s1) {
        let (nag, s3) = optional(spec_nag_ws(s2), s2);
        let (comment, s4) = optional(spec_comment_ws(s3), s3);
        lemma_read_move_is_writable(s1);
        lemma_read_comment_is_writable(s3);
        if s4.len() < s.len() {
            lemma_read_lines_are_writable(s4);
        }
    }
}

/// All the moves of a line that the grammar reads can be written.
#[verifier::rlimit(50)]
pub proof fn lemma_read_moves_are_writable(s: Seq<char>)
    ensures
        writable_moves(spec_game_moves(s).0),
    decreases s.len(), 1nat,
{
    lemma_read_game_move_is_writable(s);
    match spec_game_move(s) {
        Some((m, rest)) => {
            let s1 = skip_whitespace(rest);
            if s1.len() < s.len() {
                lemma_read_moves_are_writable(s1);
                lemma_writable_moves(m, spec_game_moves(s1).0);
            } else {
                lemma_writable_moves(m, Seq::empty());
            }
        },
        None => {},
    }
}

/// Every line that the grammar reads can be written.
pub proof fn lemma_read_line_is_writable(s: Seq<char>)
    ensures
        writable_line(spec_move_sequence(s).0),
    decreases s.len(), 2nat,
{
    lemma_read_comment_is_writable(s);
    let (comment, s1) = optional(spec_comment_ws(s), s);
    if s1.len() <= s.len() {
        lemma_read_moves_are_writable(s1);
    }
}

/// Every variation that the grammar reads can be written.
pub proof fn lemma_read_variation_is_writable(s: Seq<char>)
    ensures
        spec_variation(s) matches Some((line, _)) ==> writable_line(line),
    decreases s.len(), 3nat,
{
    if let Some((_, s1)) = spec_char(s, '(') {
        let s2 = skip_whitespace(s1);
        if s2.len() < s.len() {
            lemma_read_line_is_writable(s2);
        }
    }
}

/// All the variations of a move that the grammar reads can be written.
#[verifier::rlimit(50)]
pub proof fn lemma_read_lines_are_writable(s: Seq<char>)
    ensures
        writable_lines(spec_variations(s).0),
    decreases s.len(), 4nat,
{
    lemma_read_variation_is_writable(s);
    match spec_variation(s) {
        Some((line, rest)) => {
            if rest.len() < s.len() {
                lemma_read_lines_are_writable(rest);
                lemma_writable_lines(line, spec_variations(rest).0);
            } else {
                lemma_writable_lines(line, Seq::empty());
            }
        },
        None => {},
    }
}

/// All the tags that the grammar reads can be written.
#[verifier::rlimit(50)]
pub proof fn lemma_read_tags_are_writable(s: Seq<char>)
    ensures
        writable_tags(spec_tag_section(s).0),
    decreases s.len(),
{
    lemma_read_tag_is_writable(s);
    match spec_tag_pair(s) {
        Some((pair, rest)) => {
            let s1 = skip_whitespace(rest);
            if s1.len() < s.len() {
                lemma_read_tags_are_writable(s1);
                let tags = spec_tag_section(s).0;
                let tail = spec_tag_section(s1).0;
                assert forall|i: int| 0 <= i < tags.len() implies writable_tag_name(
                    #[trigger] tags[i].0,
                ) by {
                    if i > 0 {
                        assert(tags[i] == tail[i - 1]);
                    }
                }
            }
        },
        None => {},
    }
}

/// Every game that the grammar reads can be written.
pub proof fn lemma_read_game_is_writable(s: Seq<char>)
    ensures
        spec_game(s) matches Some((g, _)) ==> writable_game(g),
{
    lemma_read_tags_are_writable(s);
    let (tags, s1) = spec_tag_section(s);
    lemma_read_line_is_writable(s1);
}

/// Reading a game, writing it and reading what was written gives the game
/// that was read first, and nothing is left of what was written.
pub proof fn lemma_read_write_read(s: Seq<char>)
    requires
        separators_hold(),
        spec_game(s) is Some,
    ensures
        spec_game(game_text(spec_game(s).unwrap().0)) == Some(
            (spec_game(s).unwrap().0, Seq::<char>::empty()),
        ),
{
    let g = spec_game(s).unwrap().0;
    lemma_read_game_is_writable(s);
    lemma_write_then_read_game(g, Seq::empty());
    assert(game_text(g) + Seq::<char>::empty() =~= game_text(g));
    lemma_run_len_is(Seq::<char>::empty(), CharClass::Whitespace, 0);
    assert(skip_whitespace(Seq::<char>::empty()) =~= Seq::<char>::empty());
}

/// The text of a list of games: each game, and a line feed behind it.
pub open spec fn games_text(games: Seq<GameView>) -> Seq<char>
    decreases games.len(),
{
    if games.len() == 0 {
        Seq::empty()
    } else {
        game_text(games[0]) + seq!['\n'] + games_text(games.drop_first())
    }
}

/// Whether all the games of a list can be written.
pub open spec fn writable_games(games: Seq<GameView>) -> bool {
    forall|i: int| 0 <= i < games.len() ==> writable_game(#[trigger] games[i])
}

/// The text of a game begins a part of a record.
#[verifier::rlimit(50)]
pub proof fn lemma_game_begins(g: GameView, t: Seq<char>)
    requires
        writable_game(g),
    ensures
        (game_text(g) + t).len() > 0,
        is_token_start((game_text(g) + t)[0]),
{
    let result = termination_text(g.termination) + t;
    let line = comment_part(g.comment) + moves_text(g.moves) + result;
    let text = tags_text(g.tags) + line;
    assert(game_text(g) + t =~= text);
    lemma_read_termination(g.termination, t);
    lemma_line_begins(g.comment, g.moves, result);
    assert(line.len() > 0) by {
        assert(line.len() >= result.len());
    }
    if g.tags.len() > 0 {
        assert(text[0] == '[');
    } else {
        assert(text =~= line);
    }
}

/// The text of a list of games that can be written is empty or begins a
/// part of a record.
pub proof fn lemma_games_begin(games: Seq<GameView>)
    requires
        writable_games(games),
    ensures
        begins_token(games_text(games)),
        games.len() > 0 ==> games_text(games).len() > 0,
        games.len() > 0 ==> games_text(games) == game_text(games[0]) + (seq!['\n'] + games_text(
            games.drop_first(),
        )),
{
    if games.len() > 0 {
        let line = seq!['\n'] + games_text(games.drop_first());
        lemma_game_begins(games[0], line);
        assert(games_text(games) =~= game_text(games[0]) + line);
    }
}

/// The games of a text that begins with a game are the game and the games
/// of the text behind it.
pub proof fn lemma_read_games_step(
    text: Seq<char>,
    g: GameView,
    behind: Seq<char>,
    games: Seq<GameView>,
)
    requires
        skip_whitespace(text) == text,
        text.len() > 0,
        spec_game(text) == Some((g, behind)),
        behind.len() < text.len(),
        spec_read_games(behind) == games,
    ensures
        spec_read_games(text) == seq![g] + games,
{
}

/// The first of the games that are written reads back as itself, and
/// leaves the text of the other games.
pub proof fn lemma_first_game_reads(games: Seq<GameView>)
    requires
        separators_hold(),
        writable_games(games),
        games.len() > 0,
    ensures
        games_text(games).len() > 0,
        skip_whitespace(games_text(games)) == games_text(games),
        spec_game(games_text(games)) == Some((games[0], games_text(games.drop_first()))),
        games_text(games.drop_first()).len() < games_text(games).len(),
        writable_games(games.drop_first()),
{
    let text = games_text(games);
    let tail = games.drop_first();
    let behind = games_text(tail);
    let line = seq!['\n'] + behind;
    assert forall|i: int| 0 <= i < tail.len() implies writable_game(#[trigger] tail[i]) by {
        assert(tail[i] == games[i + 1]);
    }
    lemma_games_begin(games);
    lemma_games_begin(tail);
    lemma_skip_separator(text);
    lemma_write_then_read_game(games[0], line);
    lemma_skip_separator(behind);
    assert(text.len() == game_text(games[0]).len() + line.len());
}

/// Games that are written read back as themselves.
pub proof fn lemma_write_then_read_games(games: Seq<GameView>)
    requires
        separators_hold(),
        writable_games(games),
    ensures
        spec_read_games(games_text(games)) == games,
    decreases games.len(),
{
    if games.len() == 0 {
        lemma_no_games(games_text(games));
        assert(games =~= Seq::<GameView>::empty());
    } else {
        let tail = games.drop_first();
        lemma_first_game_reads(games);
        lemma_write_then_read_games(tail);
        lemma_read_games_step(games_text(games), games[0], games_text(tail), tail);
        assert(seq![games[0]] + tail =~= games);
    }
}

/// An empty text holds no games.
pub proof fn lemma_no_games(text: Seq<char>)
    requires
        text.len() == 0,
    ensures
        spec_read_games(text) == Seq::<GameView>::empty(),
{
    lemma_run_len_is(text, CharClass::Whitespace, 0);
}

/// All the games that the reader reads can be written.
pub proof fn lemma_read_games_are_writable(s: Seq<char>)
    ensures
        writable_games(spec_read_games(s)),
    decreases s.len(),
{
    let text = skip_whitespace(s);
    if text.len() == 0 || text.len() > s.len() {
    } else {
        lemma_read_game_is_writable(text);
        match spec_game(text) {
            Some((g, rest)) => {
                if rest.len() < text.len() {
                    lemma_read_games_are_writable(rest);
                    let games = spec_read_games(s);
                    let tail = spec_read_games(rest);
                    assert(games == seq![g] + tail);
                    assert forall|i: int| 0 <= i < games.len() implies writable_game(
                        #[trigger] games[i],
                    ) by {
                        if i > 0 {
                            assert(games[i] == tail[i - 1]);
                        }
                    }
                }
            },
            None => {
                if spec_resume(text).len() < text.len() {
                    lemma_read_games_are_writable(spec_resume(text));
                }
            },
        }
    }
}

/// Reading the games of a text, writing them and reading what was written
/// gives the games that were read first.
pub proof fn lemma_games_read_write_read(s: Seq<char>)
    requires
        separators_hold(),
    ensures
        spec_read_games(games_text(spec_read_games(s))) == spec_read_games(s),
{
    lemma_read_games_are_writable(s);
    lemma_write_then_read_games(spec_read_games(s));
}

} // verus!
