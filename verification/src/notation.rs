//! Writing moves in the notation that the grammar reads, and the proof that
//! a move that is written reads back as itself.

use crate::grammar::{
    file_of_char, optional, piece_of_char, spec_annotation_symbol, spec_bare_move, spec_basic_move,
    spec_char, spec_file, spec_marked_move, spec_move_disambiguation, spec_origin, spec_piece,
    spec_promotion, spec_rank, spec_square,
};
use crate::model::{AnnotationSymbol, MarkedMove, Move};
use crate::square::{lemma_square_new_coordinates, File, Piece, Rank, Square};
use vstd::prelude::*;
use vstd::string::StringExecFns;

verus! {

/// The letter of a file.
pub open spec fn file_char(file: File) -> char {
    match file {
        File::A => 'a',
        File::B => 'b',
        File::C => 'c',
        File::D => 'd',
        File::E => 'e',
        File::F => 'f',
        File::G => 'g',
        File::H => 'h',
    }
}

/// The digit of a rank.
pub open spec fn rank_char(rank: Rank) -> char {
    match rank {
        Rank::R1 => '1',
        Rank::R2 => '2',
        Rank::R3 => '3',
        Rank::R4 => '4',
        Rank::R5 => '5',
        Rank::R6 => '6',
        Rank::R7 => '7',
        Rank::R8 => '8',
    }
}

/// The letter of a piece.
pub open spec fn piece_char(piece: Piece) -> char {
    match piece {
        Piece::Pawn => 'P',
        Piece::Knight => 'N',
        Piece::Bishop => 'B',
        Piece::Rook => 'R',
        Piece::Queen => 'Q',
        Piece::King => 'K',
    }
}

/// The text of an optional file: its letter, or nothing.
pub open spec fn file_text(file: Option<File>) -> Seq<char> {
    match file {
        Some(f) => seq![file_char(f)],
        None => Seq::empty(),
    }
}

/// The text of an optional rank: its digit, or nothing.
pub open spec fn rank_text(rank: Option<Rank>) -> Seq<char> {
    match rank {
        Some(r) => seq![rank_char(r)],
        None => Seq::empty(),
    }
}

/// The text of a square: the letter of its file and the digit of its rank,
/// as far as they are known.
pub open spec fn square_text(square: Square) -> Seq<char> {
    file_text(square.spec_file()) + rank_text(square.spec_rank())
}

/// The text of the piece of a move: its letter, or nothing for a pawn.
pub open spec fn piece_text(piece: Piece) -> Seq<char> {
    if piece == Piece::Pawn {
        Seq::empty()
    } else {
        seq![piece_char(piece)]
    }
}

/// The text of a capture mark.
pub open spec fn capture_text(is_capture: bool) -> Seq<char> {
    if is_capture {
        seq!['x']
    } else {
        Seq::empty()
    }
}

/// The text of a promotion: `=` and the letter of the piece, or nothing.
pub open spec fn promotion_text(promoted_to: Option<Piece>) -> Seq<char> {
    match promoted_to {
        Some(p) => seq!['=', piece_char(p)],
        None => Seq::empty(),
    }
}

/// The text of a move: for a move of a piece the piece, what is known of
/// the origin, the capture mark, the destination and the promotion; for
/// castling `O-O` or `O-O-O`.
pub open spec fn move_text(m: Move) -> Seq<char> {
    match m {
        Move::BasicMove { piece, to, from, is_capture, promoted_to } => piece_text(piece)
            + square_text(from) + capture_text(is_capture) + square_text(to) + promotion_text(
            promoted_to,
        ),
        Move::CastleKingside => seq!['O', '-', 'O'],
        Move::CastleQueenside => seq!['O', '-', 'O', '-', 'O'],
    }
}

/// The text of an annotation symbol.
pub open spec fn annotation_text(symbol: Option<AnnotationSymbol>) -> Seq<char> {
    match symbol {
        Some(AnnotationSymbol::Blunder) => seq!['?', '?'],
        Some(AnnotationSymbol::Mistake) => seq!['?'],
        Some(AnnotationSymbol::Dubious) => seq!['?', '!'],
        Some(AnnotationSymbol::Interesting) => seq!['!', '?'],
        Some(AnnotationSymbol::Good) => seq!['!'],
        Some(AnnotationSymbol::Brilliant) => seq!['!', '!'],
        None => Seq::empty(),
    }
}

/// The text of a mark that is written with one character if it is set.
pub open spec fn mark_text(set: bool, mark: char) -> Seq<char> {
    if set {
        seq![mark]
    } else {
        Seq::empty()
    }
}

/// The text of a move with its marks: the move, `+` for check, `#` for
/// checkmate, and the annotation symbol.
pub open spec fn marked_move_text(m: MarkedMove) -> Seq<char> {
    move_text(m.move_) + mark_text(m.is_check, '+') + mark_text(m.is_checkmate, '#')
        + annotation_text(m.annotation_symbol)
}

/// Whether a character can go on the text of a move: a capture mark, a file
/// letter, the `=` of a promotion or the `-` of castling.
pub open spec fn is_move_char(c: char) -> bool {
    c == 'x' || file_of_char(c) is Some || c == '=' || c == '-'
}

/// Whether a character can go on the marks of a move.
pub open spec fn is_mark_char(c: char) -> bool {
    c == '+' || c == '#' || c == '!' || c == '?'
}

/// Whether the text of a move ends where `rest` begins: `rest` is empty or
/// begins with a character that cannot go on the text of a move.
pub open spec fn ends_move(rest: Seq<char>) -> bool {
    rest.len() == 0 || !is_move_char(rest[0])
}

/// Whether the text of a move with its marks ends where `rest` begins:
/// `rest` is empty or begins with a character that can go on neither the
/// move nor its marks.
pub open spec fn ends_marked_move(rest: Seq<char>) -> bool {
    rest.len() == 0 || (!is_move_char(rest[0]) && !is_mark_char(rest[0]))
}

/// Whether a move can be written: the destination of a move of a piece is a
/// known square.
pub open spec fn writable(m: Move) -> bool {
    m matches Move::BasicMove { to, .. } ==> to.is_known()
}

/// The letter of a file, as a text.
pub fn file_letter(file: File) -> (text: &'static str)
    ensures
        text@ == seq![file_char(file)],
{
    proof {
        reveal_strlit("a");
        reveal_strlit("b");
        reveal_strlit("c");
        reveal_strlit("d");
        reveal_strlit("e");
        reveal_strlit("f");
        reveal_strlit("g");
        reveal_strlit("h");
        assert("a"@ =~= seq!['a']);
        assert("b"@ =~= seq!['b']);
        assert("c"@ =~= seq!['c']);
        assert("d"@ =~= seq!['d']);
        assert("e"@ =~= seq!['e']);
        assert("f"@ =~= seq!['f']);
        assert("g"@ =~= seq!['g']);
        assert("h"@ =~= seq!['h']);
    }
    match file {
        File::A => "a",
        File::B => "b",
        File::C => "c",
        File::D => "d",
        File::E => "e",
        File::F => "f",
        File::G => "g",
        File::H => "h",
    }
}

/// The digit of a rank, as a text.
pub fn rank_digit(rank: Rank) -> (text: &'static str)
    ensures
        text@ == seq![rank_char(rank)],
{
    proof {
        reveal_strlit("1");
        reveal_strlit("2");
        reveal_strlit("3");
        reveal_strlit("4");
        reveal_strlit("5");
        reveal_strlit("6");
        reveal_strlit("7");
        reveal_strlit("8");
        assert("1"@ =~= seq!['1']);
        assert("2"@ =~= seq!['2']);
        assert("3"@ =~= seq!['3']);
        assert("4"@ =~= seq!['4']);
        assert("5"@ =~= seq!['5']);
        assert("6"@ =~= seq!['6']);
        assert("7"@ =~= seq!['7']);
        assert("8"@ =~= seq!['8']);
    }
    match rank {
        Rank::R1 => "1",
        Rank::R2 => "2",
        Rank::R3 => "3",
        Rank::R4 => "4",
        Rank::R5 => "5",
        Rank::R6 => "6",
        Rank::R7 => "7",
        Rank::R8 => "8",
    }
}

/// The letter of a piece, as a text.
pub fn piece_letter(piece: Piece) -> (text: &'static str)
    ensures
        text@ == seq![piece_char(piece)],
{
    proof {
        reveal_strlit("P");
        reveal_strlit("N");
        reveal_strlit("B");
        reveal_strlit("R");
        reveal_strlit("Q");
        reveal_strlit("K");
        assert("P"@ =~= seq!['P']);
        assert("N"@ =~= seq!['N']);
        assert("B"@ =~= seq!['B']);
        assert("R"@ =~= seq!['R']);
        assert("Q"@ =~= seq!['Q']);
        assert("K"@ =~= seq!['K']);
    }
    match piece {
        Piece::Pawn => "P",
        Piece::Knight => "N",
        Piece::Bishop => "B",
        Piece::Rook => "R",
        Piece::Queen => "Q",
        Piece::King => "K",
    }
}

/// Writes a square behind a text: the letter of its file and the digit of
/// its rank, as far as they are known.
pub fn write_square(text: &mut String, square: Square)
    ensures
        final(text)@ == old(text)@ + square_text(square),
{
    let ghost before = text@;
    match square.file() {
        Some(file) => {
            text.append(file_letter(file));
        },
        None => {},
    }
    let ghost middle = text@;
    match square.rank() {
        Some(rank) => {
            text.append(rank_digit(rank));
        },
        None => {},
    }
    proof {
        assert(middle =~= before + file_text(square.spec_file()));
        assert(text@ =~= middle + rank_text(square.spec_rank()));
        assert(text@ =~= before + square_text(square));
    }
}

/// Writes a move in the notation that the grammar reads.
pub fn write_move(m: &Move) -> (text: String)
    ensures
        text@ == move_text(*m),
{
    proof {
        reveal_strlit("x");
        reveal_strlit("=");
        reveal_strlit("O-O");
        reveal_strlit("O-O-O");
        assert("x"@ =~= seq!['x']);
        assert("="@ =~= seq!['=']);
        assert("O-O"@ =~= seq!['O', '-', 'O']);
        assert("O-O-O"@ =~= seq!['O', '-', 'O', '-', 'O']);
    }
    match m {
        Move::BasicMove { piece, to, from, is_capture, promoted_to } => {
            let mut text = String::new();
            match piece {
                Piece::Pawn => {},
                _ => {
                    text.append(piece_letter(*piece));
                },
            }
            let ghost t1 = text@;
            assert(t1 =~= piece_text(*piece));
            write_square(&mut text, *from);
            let ghost t2 = text@;
            if *is_capture {
                text.append("x");
            }
            let ghost t3 = text@;
            assert(t3 =~= t2 + capture_text(*is_capture));
            write_square(&mut text, *to);
            let ghost t4 = text@;
            match promoted_to {
                Some(p) => {
                    text.append("=");
                    text.append(piece_letter(*p));
                },
                None => {},
            }
            proof {
                assert(text@ =~= t4 + promotion_text(*promoted_to));
                assert(text@ =~= piece_text(*piece) + square_text(*from) + capture_text(
                    *is_capture,
                ) + square_text(*to) + promotion_text(*promoted_to));
            }
            text
        },
        Move::CastleKingside => "O-O".to_owned(),
        Move::CastleQueenside => "O-O-O".to_owned(),
    }
}

/// The text of an annotation symbol.
pub fn annotation_mark(symbol: Option<AnnotationSymbol>) -> (text: &'static str)
    ensures
        text@ == annotation_text(symbol),
{
    proof {
        reveal_strlit("??");
        reveal_strlit("?");
        reveal_strlit("?!");
        reveal_strlit("!?");
        reveal_strlit("!");
        reveal_strlit("!!");
        reveal_strlit("");
        assert("??"@ =~= seq!['?', '?']);
        assert("?"@ =~= seq!['?']);
        assert("?!"@ =~= seq!['?', '!']);
        assert("!?"@ =~= seq!['!', '?']);
        assert("!"@ =~= seq!['!']);
        assert("!!"@ =~= seq!['!', '!']);
        assert(""@ =~= Seq::<char>::empty());
    }
    match symbol {
        Some(AnnotationSymbol::Blunder) => "??",
        Some(AnnotationSymbol::Mistake) => "?",
        Some(AnnotationSymbol::Dubious) => "?!",
        Some(AnnotationSymbol::Interesting) => "!?",
        Some(AnnotationSymbol::Good) => "!",
        Some(AnnotationSymbol::Brilliant) => "!!",
        None => "",
    }
}

/// Writes a move with its marks in the notation that the grammar reads.
pub fn write_marked_move(m: &MarkedMove) -> (text: String)
    ensures
        text@ == marked_move_text(*m),
{
    proof {
        reveal_strlit("+");
        reveal_strlit("#");
        assert("+"@ =~= seq!['+']);
        assert("#"@ =~= seq!['#']);
    }
    let mut text = write_move(&m.move_);
    let ghost t1 = text@;
    if m.is_check {
        text.append("+");
    }
    let ghost t2 = text@;
    assert(t2 =~= t1 + mark_text(m.is_check, '+'));
    if m.is_checkmate {
        text.append("#");
    }
    let ghost t3 = text@;
    assert(t3 =~= t2 + mark_text(m.is_checkmate, '#'));
    text.append(annotation_mark(m.annotation_symbol));
    text
}

/// A letter of a file, of a rank or of a piece reads back as what it was
/// written for.
pub proof fn lemma_read_letters(file: File, rank: Rank, piece: Piece, t: Seq<char>)
    ensures
        spec_file(seq![file_char(file)] + t) == Some((file, t)),
        spec_rank(seq![rank_char(rank)] + t) == Some((rank, t)),
        spec_piece(seq![piece_char(piece)] + t) == Some((piece, t)),
        spec_char(seq!['x'] + t, 'x') == Some(((), t)),
{
    assert((seq![file_char(file)] + t).skip(1) =~= t);
    assert((seq![rank_char(rank)] + t).skip(1) =~= t);
    assert((seq![piece_char(piece)] + t).skip(1) =~= t);
    assert((seq!['x'] + t).skip(1) =~= t);
}

/// A known square reads back as itself.
pub proof fn lemma_read_square(square: Square, t: Seq<char>)
    requires
        square.is_known(),
    ensures
        spec_square(square_text(square) + t) == Some((square, t)),
{
    let file = square.spec_file().unwrap();
    let rank = square.spec_rank().unwrap();
    let tail = seq![rank_char(rank)] + t;
    assert(square_text(square) + t =~= seq![file_char(file)] + tail);
    lemma_read_letters(file, rank, Piece::Pawn, tail);
    lemma_read_letters(file, rank, Piece::Pawn, t);
    lemma_square_new_coordinates(Some(file), Some(rank), square);
}

/// What a move tells of its origin reads back as it was written, where `x`
/// or a file letter follows it.
pub proof fn lemma_read_origin(from: Square, t: Seq<char>)
    requires
        from != Square::XX,
        t.len() > 0,
        t[0] == 'x' || file_of_char(t[0]) is Some,
    ensures
        spec_move_disambiguation(square_text(from) + t) == Some((from, t)),
{
    let text = square_text(from) + t;
    lemma_square_new_coordinates(from.spec_file(), from.spec_rank(), from);
    match (from.spec_file(), from.spec_rank()) {
        (Some(file), Some(rank)) => {
            lemma_read_square(from, t);
        },
        (Some(file), None) => {
            assert(text =~= seq![file_char(file)] + t);
            lemma_read_letters(file, Rank::R1, Piece::Pawn, t);
            assert(spec_rank(t) is None);
            assert(spec_square(text) is None);
        },
        (None, Some(rank)) => {
            assert(text =~= seq![rank_char(rank)] + t);
            lemma_read_letters(File::A, rank, Piece::Pawn, t);
            assert(spec_file(text) is None);
            assert(spec_square(text) is None);
        },
        (None, None) => {
            crate::square::lemma_square_determined_by_coordinates(from, Square::XX);
        },
    }
}

/// Whether a text begins with `x` or with a file letter.
pub open spec fn begins_with_x_or_file(t: Seq<char>) -> bool {
    t.len() > 0 && (t[0] == 'x' || file_of_char(t[0]) is Some)
}

/// Whether a text begins with a character that is no piece letter.
pub open spec fn begins_without_piece(t: Seq<char>) -> bool {
    t.len() > 0 && piece_of_char(t[0]) is None
}

/// The text of a known square begins with a file letter, and the text of
/// any square but `XX` with a character that is no piece letter.
pub proof fn lemma_square_text_begins(square: Square, t: Seq<char>)
    ensures
        square.is_known() ==> (square_text(square) + t).len() > 0 && file_of_char(
            (square_text(square) + t)[0],
        ) is Some,
        square != Square::XX ==> begins_without_piece(square_text(square) + t),
        square == Square::XX ==> square_text(square) + t == t,
{
    lemma_square_new_coordinates(square.spec_file(), square.spec_rank(), square);
    if square == Square::XX {
        assert(square_text(square) + t =~= t);
    } else {
        if square.spec_file() is None && square.spec_rank() is None {
            crate::square::lemma_square_determined_by_coordinates(square, Square::XX);
        }
    }
}

/// A promotion that is written reads back, and none is read where none was
/// written and the text of the move ends.
pub proof fn lemma_read_promotion(promoted_to: Option<Piece>, rest: Seq<char>)
    requires
        ends_move(rest),
    ensures
        optional(
            spec_promotion(promotion_text(promoted_to) + rest),
            promotion_text(promoted_to) + rest,
        ) == (promoted_to, rest),
        promoted_to is Some ==> (promotion_text(promoted_to) + rest)[0] == '=',
        promoted_to is None ==> promotion_text(promoted_to) + rest == rest,
{
    let t4 = promotion_text(promoted_to) + rest;
    match promoted_to {
        Some(p) => {
            let tail = seq![piece_char(p)] + rest;
            assert(t4 =~= seq!['='] + tail);
            assert(t4.skip(1) =~= tail);
            lemma_read_letters(File::A, Rank::R1, p, rest);
        },
        None => {
            assert(t4 =~= rest);
        },
    }
}

/// A capture mark that is written reads back, and none is read before a
/// file letter.
pub proof fn lemma_read_capture(is_capture: bool, t: Seq<char>)
    requires
        t.len() > 0,
        file_of_char(t[0]) is Some,
    ensures
        optional(spec_char(capture_text(is_capture) + t, 'x'), capture_text(is_capture) + t) == (
            if is_capture {
                Some(())
            } else {
                None
            },
            t,
        ),
        begins_with_x_or_file(capture_text(is_capture) + t),
        begins_without_piece(capture_text(is_capture) + t),
        !is_capture ==> capture_text(is_capture) + t == t,
{
    if is_capture {
        lemma_read_letters(File::A, Rank::R1, Piece::Pawn, t);
    } else {
        assert(capture_text(is_capture) + t =~= t);
    }
}

/// The piece of a move reads back: its letter where one was written, and a
/// pawn where the text begins with no piece letter.
pub proof fn lemma_read_piece(piece: Piece, t: Seq<char>)
    requires
        begins_without_piece(t),
    ensures
        optional(spec_piece(piece_text(piece) + t), piece_text(piece) + t) == (
            if piece == Piece::Pawn {
                None
            } else {
                Some(piece)
            },
            t,
        ),
{
    if piece == Piece::Pawn {
        assert(piece_text(piece) + t =~= t);
    } else {
        lemma_read_letters(File::A, Rank::R1, piece, t);
    }
}

/// The origin of a move reads back: what was written of it where something
/// was, and nothing where nothing was written.
pub proof fn lemma_read_optional_origin(
    from: Square,
    is_capture: bool,
    to: Square,
    t4: Seq<char>,
)
    requires
        to.is_known(),
        !begins_with_x_or_file(t4),
    ensures
        ({
            let t2 = capture_text(is_capture) + (square_text(to) + t4);
            optional(spec_move_disambiguation(square_text(from) + t2), square_text(from) + t2) == (
                if from == Square::XX {
                    None
                } else {
                    Some(from)
                },
                t2,
            )
        }),
{
    let t3 = square_text(to) + t4;
    let t2 = capture_text(is_capture) + t3;
    let t1 = square_text(from) + t2;
    lemma_square_text_begins(to, t4);
    lemma_read_capture(is_capture, t3);
    lemma_square_text_begins(from, t2);
    if from == Square::XX {
        if is_capture {
            assert(t1[0] == 'x');
            assert(spec_origin(t1) is None);
        } else {
            lemma_read_square(to, t4);
            assert(spec_origin(t1) == Some((to, t4)));
        }
    } else {
        lemma_read_origin(from, t2);
    }
}

/// A text whose parts read as the parts of a move of a piece reads as the
/// move.
pub proof fn lemma_read_parts(
    t0: Seq<char>,
    t1: Seq<char>,
    t2: Seq<char>,
    t3: Seq<char>,
    t4: Seq<char>,
    rest: Seq<char>,
    piece: Option<Piece>,
    from: Option<Square>,
    capture: Option<()>,
    to: Square,
    promoted_to: Option<Piece>,
)
    requires
        optional(spec_piece(t0), t0) == (piece, t1),
        optional(spec_move_disambiguation(t1), t1) == (from, t2),
        optional(spec_char(t2, 'x'), t2) == (capture, t3),
        spec_square(t3) == Some((to, t4)),
        optional(spec_promotion(t4), t4) == (promoted_to, rest),
    ensures
        spec_basic_move(t0) == Some(
            (
                Move::BasicMove {
                    piece: match piece {
                        Some(p) => p,
                        None => Piece::Pawn,
                    },
                    to: to,
                    from: match from {
                        Some(sq) => sq,
                        None => Square::XX,
                    },
                    is_capture: capture is Some,
                    promoted_to: promoted_to,
                },
                rest,
            ),
        ),
{
}

/// Texts joined from the left are the same as joined from the right.
pub proof fn lemma_join_parts(
    a: Seq<char>,
    b: Seq<char>,
    c: Seq<char>,
    d: Seq<char>,
    e: Seq<char>,
    rest: Seq<char>,
)
    ensures
        a + b + c + d + e + rest == a + (b + (c + (d + (e + rest)))),
        a + b + c + d + rest == a + (b + (c + (d + rest))),
{
    assert(a + b + c + d + e + rest =~= a + (b + (c + (d + (e + rest)))));
    assert(a + b + c + d + rest =~= a + (b + (c + (d + rest))));
}

/// The text of a move of a piece is made of the texts of its parts.
pub proof fn lemma_move_text_parts(
    piece: Piece,
    to: Square,
    from: Square,
    is_capture: bool,
    promoted_to: Option<Piece>,
    rest: Seq<char>,
)
    ensures
        move_text(Move::BasicMove { piece, to, from, is_capture, promoted_to }) + rest
            == piece_text(piece) + (square_text(from) + (capture_text(is_capture) + (square_text(
            to,
        ) + (promotion_text(promoted_to) + rest)))),
{
    lemma_join_parts(
        piece_text(piece),
        square_text(from),
        capture_text(is_capture),
        square_text(to),
        promotion_text(promoted_to),
        rest,
    );
}

/// A move of a piece that is written reads back as itself, where the text
/// of the move ends behind it.
#[verifier::rlimit(40)]
pub proof fn lemma_write_then_read_basic_move(
    piece: Piece,
    to: Square,
    from: Square,
    is_capture: bool,
    promoted_to: Option<Piece>,
    rest: Seq<char>,
)
    requires
        to.is_known(),
        ends_move(rest),
    ensures
        ({
            let m = Move::BasicMove { piece, to, from, is_capture, promoted_to };
            spec_basic_move(move_text(m) + rest) == Some((m, rest))
        }),
{
    let t4 = promotion_text(promoted_to) + rest;
    let t3 = square_text(to) + t4;
    let t2 = capture_text(is_capture) + t3;
    let t1 = square_text(from) + t2;
    let t0 = piece_text(piece) + t1;
    lemma_move_text_parts(piece, to, from, is_capture, promoted_to, rest);
    lemma_read_promotion(promoted_to, rest);
    lemma_read_square(to, t4);
    lemma_square_text_begins(to, t4);
    lemma_read_capture(is_capture, t3);
    lemma_read_optional_origin(from, is_capture, to, t4);
    lemma_square_text_begins(from, t2);
    lemma_read_piece(piece, t1);
    lemma_read_parts(
        t0,
        t1,
        t2,
        t3,
        t4,
        rest,
        if piece == Piece::Pawn {
            None
        } else {
            Some(piece)
        },
        if from == Square::XX {
            None
        } else {
            Some(from)
        },
        if is_capture {
            Some(())
        } else {
            None
        },
        to,
        promoted_to,
    );
}

/// A move that is written reads back as itself, where the text of the move
/// ends behind it.
pub proof fn lemma_write_then_read_move(m: Move, rest: Seq<char>)
    requires
        writable(m),
        ends_move(rest),
    ensures
        spec_bare_move(move_text(m) + rest) == Some((m, rest)),
{
    let text = move_text(m) + rest;
    match m {
        Move::BasicMove { piece, to, from, is_capture, promoted_to } => {
            lemma_write_then_read_basic_move(piece, to, from, is_capture, promoted_to, rest);
        },
        Move::CastleKingside => {
            lemma_castle_is_no_basic_move(text);
            let long = seq!['O', '-', 'O', '-', 'O'];
            assert(!long.is_prefix_of(text)) by {
                if long.is_prefix_of(text) {
                    assert(text.subrange(0, 5)[3] == long[3]);
                    assert(text[3] == rest[0]);
                }
            }
            let short = seq!['O', '-', 'O'];
            assert(short.is_prefix_of(text)) by {
                assert(text.subrange(0, 3) =~= short);
            }
            assert(text.skip(3) =~= rest);
        },
        Move::CastleQueenside => {
            lemma_castle_is_no_basic_move(text);
            let long = seq!['O', '-', 'O', '-', 'O'];
            assert(long.is_prefix_of(text)) by {
                assert(text.subrange(0, 5) =~= long);
            }
            assert(text.skip(5) =~= rest);
        },
    }
}

/// A text that begins with `O` is no move of a piece.
pub proof fn lemma_castle_is_no_basic_move(text: Seq<char>)
    requires
        text.len() > 0,
        text[0] == 'O',
    ensures
        spec_basic_move(text) is None,
{
    assert(spec_piece(text) is None);
    assert(spec_origin(text) is None);
    assert(spec_char(text, 'x') is None);
    assert(spec_square(text) is None);
}

/// A mark that is written reads back, and none is read where the text
/// begins with another character.
pub proof fn lemma_read_mark(set: bool, mark: char, t: Seq<char>)
    requires
        t.len() == 0 || t[0] != mark,
    ensures
        optional(spec_char(mark_text(set, mark) + t, mark), mark_text(set, mark) + t) == (
            if set {
                Some(())
            } else {
                None
            },
            t,
        ),
        set ==> (mark_text(set, mark) + t)[0] == mark,
        !set ==> mark_text(set, mark) + t == t,
{
    if set {
        assert((seq![mark] + t).skip(1) =~= t);
    } else {
        assert(mark_text(set, mark) + t =~= t);
    }
}

/// An annotation symbol that is written reads back, and none is read where
/// none was written and the marks of the move end.
pub proof fn lemma_read_annotation(symbol: Option<AnnotationSymbol>, rest: Seq<char>)
    requires
        rest.len() == 0 || !is_mark_char(rest[0]),
    ensures
        optional(
            spec_annotation_symbol(annotation_text(symbol) + rest),
            annotation_text(symbol) + rest,
        ) == (symbol, rest),
        symbol is Some ==> is_mark_char((annotation_text(symbol) + rest)[0]) && (annotation_text(
            symbol,
        ) + rest)[0] != '+' && (annotation_text(symbol) + rest)[0] != '#',
        symbol is None ==> annotation_text(symbol) + rest == rest,
{
    let text = annotation_text(symbol) + rest;
    let qq = seq!['?', '?'];
    let qe = seq!['?', '!'];
    let eq = seq!['!', '?'];
    let ee = seq!['!', '!'];
    assert forall|token: Seq<char>|
        token.len() == 2 && text.len() >= 2 && #[trigger] token.is_prefix_of(text) implies text[0]
        == token[0] && text[1] == token[1] by {
        assert(text.subrange(0, 2)[0] == token[0]);
        assert(text.subrange(0, 2)[1] == token[1]);
    }
    match symbol {
        Some(AnnotationSymbol::Blunder) => {
            assert(text.subrange(0, 2) =~= qq);
            assert(text.skip(2) =~= rest);
        },
        Some(AnnotationSymbol::Dubious) => {
            assert(text.subrange(0, 2) =~= qe);
            assert(text.skip(2) =~= rest);
        },
        Some(AnnotationSymbol::Interesting) => {
            assert(text.subrange(0, 2) =~= eq);
            assert(text.skip(2) =~= rest);
        },
        Some(AnnotationSymbol::Brilliant) => {
            assert(text.subrange(0, 2) =~= ee);
            assert(text.skip(2) =~= rest);
        },
        Some(AnnotationSymbol::Mistake) => {
            assert(text.skip(1) =~= rest);
        },
        Some(AnnotationSymbol::Good) => {
            assert(text.skip(1) =~= rest);
        },
        None => {
            assert(text =~= rest);
        },
    }
}

/// A text whose parts read as a move and its marks reads as the marked
/// move.
pub proof fn lemma_read_marked_parts(
    u0: Seq<char>,
    u1: Seq<char>,
    u2: Seq<char>,
    u3: Seq<char>,
    rest: Seq<char>,
    m: Move,
    check: Option<()>,
    checkmate: Option<()>,
    symbol: Option<AnnotationSymbol>,
)
    requires
        spec_bare_move(u0) == Some((m, u1)),
        optional(spec_char(u1, '+'), u1) == (check, u2),
        optional(spec_char(u2, '#'), u2) == (checkmate, u3),
        optional(spec_annotation_symbol(u3), u3) == (symbol, rest),
    ensures
        spec_marked_move(u0) == Some(
            (
                MarkedMove {
                    move_: m,
                    is_check: check is Some,
                    is_checkmate: checkmate is Some,
                    annotation_symbol: symbol,
                },
                rest,
            ),
        ),
{
}

/// A move with its marks that is written reads back as itself, where the
/// text of the move and its marks ends behind it.
#[verifier::rlimit(40)]
pub proof fn lemma_write_then_read_marked_move(m: MarkedMove, rest: Seq<char>)
    requires
        writable(m.move_),
        ends_marked_move(rest),
    ensures
        spec_marked_move(marked_move_text(m) + rest) == Some((m, rest)),
{
    let u3 = annotation_text(m.annotation_symbol) + rest;
    let u2 = mark_text(m.is_checkmate, '#') + u3;
    let u1 = mark_text(m.is_check, '+') + u2;
    let u0 = move_text(m.move_) + u1;
    lemma_join_parts(
        move_text(m.move_),
        mark_text(m.is_check, '+'),
        mark_text(m.is_checkmate, '#'),
        annotation_text(m.annotation_symbol),
        Seq::empty(),
        rest,
    );
    assert(marked_move_text(m) + rest == u0);
    lemma_read_annotation(m.annotation_symbol, rest);
    lemma_read_mark(m.is_checkmate, '#', u3);
    lemma_read_mark(m.is_check, '+', u2);
    lemma_write_then_read_move(m.move_, u1);
    lemma_read_marked_parts(
        u0,
        u1,
        u2,
        u3,
        rest,
        m.move_,
        if m.is_check {
            Some(())
        } else {
            None
        },
        if m.is_checkmate {
            Some(())
        } else {
            None
        },
        m.annotation_symbol,
    );
}

} // verus!
