use chess_pgn_parser::parser;
use chess_pgn_parser::{
    AnnotationSymbol, Game, GameMove, GameTermination, MarkedMove, Move, MoveNumber,
    MoveSequence, ParseError, Piece, Square, NAG,
};

#[test]
fn integer_is_the_maximal_digit_run() {
    assert_eq!(parser::pgn_integer("12ab"), Ok((12, "ab")));
    assert_eq!(parser::pgn_integer("12 34"), Ok((12, " 34")));
    assert_eq!(parser::pgn_integer("007"), Ok((7, "")));
    assert_eq!(parser::pgn_integer("0"), Ok((0, "")));
    assert_eq!(parser::pgn_integer("5."), Ok((5, ".")));
}

#[test]
fn integer_fails_without_a_leading_digit() {
    assert_eq!(parser::pgn_integer("abc"), Err(ParseError));
    assert_eq!(parser::pgn_integer(""), Err(ParseError));
    assert_eq!(parser::pgn_integer(" 12"), Err(ParseError));
    assert_eq!(parser::pgn_integer("-1"), Err(ParseError));
    assert_eq!(parser::pgn_integer("+1"), Err(ParseError));
}

#[test]
fn integer_is_bounded_by_32_bits() {
    assert_eq!(parser::pgn_integer("4294967295"), Ok((4294967295, "")));
    assert_eq!(parser::pgn_integer("4294967296"), Err(ParseError));
    assert_eq!(parser::pgn_integer("99999999999999999999999"), Err(ParseError));
    assert_eq!(parser::pgn_integer("0000000000004294967295x"), Ok((4294967295, "x")));
}

#[test]
fn symbol_is_a_run_of_symbol_characters() {
    assert_eq!(parser::pgn_symbol("Event \"x\""), Ok(("Event".to_string(), " \"x\"")));
    assert_eq!(parser::pgn_symbol("White-Elo"), Ok(("White".to_string(), "-Elo")));
    assert_eq!(parser::pgn_symbol("Łódź1 x"), Ok(("Łódź1".to_string(), " x")));
    assert_eq!(parser::pgn_symbol("-x"), Err(ParseError));
    assert_eq!(parser::pgn_symbol(""), Err(ParseError));
}

#[test]
fn whitespace_needs_at_least_one_character() {
    assert_eq!(parser::whitespace("  x"), Ok(((), "x")));
    assert_eq!(parser::whitespace("x"), Err(ParseError));
    assert_eq!(parser::whitespace(""), Err(ParseError));
}

#[test]
fn comment_contents_never_fail() {
    assert_eq!(parser::inline_comment_contents("abc\ndef"), Ok(("abc".to_string(), "\ndef")));
    assert_eq!(parser::inline_comment_contents(""), Ok(("".to_string(), "")));
    assert_eq!(parser::block_comment_contents("a\nb}c"), Ok(("a\nb".to_string(), "}c")));
    assert_eq!(parser::block_comment_contents("}"), Ok(("".to_string(), "}")));
}

#[test]
fn string_char_resolves_the_two_escapes() {
    assert_eq!(parser::pgn_string_char("\\\"x"), Ok(('"', "x")));
    assert_eq!(parser::pgn_string_char("\\\\x"), Ok(('\\', "x")));
    assert_eq!(parser::pgn_string_char("ab"), Ok(('a', "b")));
    assert_eq!(parser::pgn_string_char("\\n"), Ok(('\\', "n")));
    assert_eq!(parser::pgn_string_char("\\"), Ok(('\\', "")));
    assert_eq!(parser::pgn_string_char("\"x"), Err(ParseError));
    assert_eq!(parser::pgn_string_char(""), Err(ParseError));
}

#[test]
fn string_keeps_a_backslash_before_other_characters() {
    assert_eq!(parser::pgn_string("\"a\\b\" rest"), Ok(("a\\b".to_string(), " rest")));
}

#[test]
fn string_needs_both_quotes() {
    assert_eq!(parser::pgn_string("abc\""), Err(ParseError));
    assert_eq!(parser::pgn_string("\"abc"), Err(ParseError));
    assert_eq!(parser::pgn_string("\"abc\\\""), Err(ParseError));
    assert_eq!(parser::pgn_string(""), Err(ParseError));
}

#[test]
fn string_holds_any_other_character() {
    assert_eq!(
        parser::pgn_string("\"Größe [x] {y}\nline\"]"),
        Ok(("Größe [x] {y}\nline".to_string(), "]"))
    );
}

#[test]
fn tag_pair_allows_white_space_inside_the_brackets() {
    assert_eq!(
        parser::tag_pair("[ \tName   \"Value\"  ] rest"),
        Ok((("Name".to_string(), "Value".to_string()), " rest"))
    );
}

#[test]
fn tag_pair_needs_white_space_before_the_value() {
    assert_eq!(parser::tag_pair("[Name\"Value\"]"), Err(ParseError));
    assert_eq!(parser::tag_pair("[Name Value]"), Err(ParseError));
    assert_eq!(parser::tag_pair("[Name \"Value\""), Err(ParseError));
    assert_eq!(parser::tag_pair("Name \"Value\"]"), Err(ParseError));
}

#[test]
fn tag_section_keeps_order_and_duplicates() {
    let (tags, rest) = parser::tag_section("[B \"2\"] [a \"1\"]\n[B \"3\"]\n\n1. e4").unwrap();
    assert_eq!(
        tags,
        vec![
            ("B".to_string(), "2".to_string()),
            ("a".to_string(), "1".to_string()),
            ("B".to_string(), "3".to_string()),
        ]
    );
    assert_eq!(rest, "1. e4");
}

#[test]
fn tag_section_may_be_empty() {
    assert_eq!(parser::tag_section("1. e4"), Ok((vec![], "1. e4")));
    assert_eq!(parser::tag_section(""), Ok((vec![], "")));
}

#[test]
fn game_termination_reads_each_token() {
    assert_eq!(parser::game_termination("1-0 x"), Ok((GameTermination::WhiteWins, " x")));
    assert_eq!(parser::game_termination("0-1"), Ok((GameTermination::BlackWins, "")));
    assert_eq!(parser::game_termination("1/2-1/2\n"), Ok((GameTermination::DrawnGame, "\n")));
    assert_eq!(parser::game_termination("*"), Ok((GameTermination::Unknown, "")));
    assert_eq!(parser::game_termination("1-"), Err(ParseError));
    assert_eq!(parser::game_termination("1/2"), Err(ParseError));
    assert_eq!(parser::game_termination(" 1-0"), Err(ParseError));
    assert_eq!(parser::game_termination(""), Err(ParseError));
}

#[test]
fn move_number_with_two_dots_is_white() {
    assert_eq!(parser::move_number("12.."), Ok((MoveNumber::White(12), ".")));
    assert_eq!(parser::move_number("12. e4"), Ok((MoveNumber::White(12), " e4")));
    assert_eq!(parser::move_number("12.... e4"), Ok((MoveNumber::Black(12), ". e4")));
    assert_eq!(parser::move_number("12"), Err(ParseError));
    assert_eq!(parser::move_number(".1"), Err(ParseError));
}

#[test]
fn piece_letters_are_upper_case() {
    assert_eq!(parser::piece("B"), Ok((Piece::Bishop, "")));
    assert_eq!(parser::piece("R"), Ok((Piece::Rook, "")));
    assert_eq!(parser::piece("Q"), Ok((Piece::Queen, "")));
    assert_eq!(parser::piece("b"), Err(ParseError));
    assert_eq!(parser::piece("X"), Err(ParseError));
    assert_eq!(parser::file("i"), Err(ParseError));
    assert_eq!(parser::file("A"), Err(ParseError));
    assert_eq!(parser::rank("0"), Err(ParseError));
    assert_eq!(parser::rank("9"), Err(ParseError));
}

#[test]
fn square_needs_file_and_rank() {
    assert_eq!(parser::square("e4e5"), Ok((Square::E4, "e5")));
    assert_eq!(parser::square("e"), Err(ParseError));
    assert_eq!(parser::square("4e"), Err(ParseError));
    assert_eq!(parser::square("e9"), Err(ParseError));
}

#[test]
fn origin_is_square_then_file_then_rank() {
    assert_eq!(parser::origin("e4"), Ok((Square::E4, "")));
    assert_eq!(parser::origin("ex"), Ok((Square::EX, "x")));
    assert_eq!(parser::origin("4x"), Ok((Square::X4, "x")));
    assert_eq!(parser::origin("x"), Err(ParseError));
}

#[test]
fn disambiguation_needs_what_follows() {
    assert_eq!(parser::move_disambiguation("e4"), Err(ParseError));
    assert_eq!(parser::move_disambiguation("e4 "), Err(ParseError));
    assert_eq!(parser::move_disambiguation("e4e5"), Ok((Square::E4, "e5")));
    assert_eq!(parser::move_disambiguation("exd5"), Ok((Square::EX, "xd5")));
    assert_eq!(parser::move_disambiguation("1x"), Ok((Square::X1, "x")));
    assert_eq!(parser::move_disambiguation("1"), Err(ParseError));
    assert_eq!(parser::move_disambiguation("f1="), Err(ParseError));
}

#[test]
fn promotion_is_equals_and_piece() {
    assert_eq!(parser::promotion("=Q+"), Ok((Piece::Queen, "+")));
    assert_eq!(parser::promotion("=q"), Err(ParseError));
    assert_eq!(parser::promotion("Q"), Err(ParseError));
}

#[test]
fn basic_move_reads_all_its_parts() {
    assert_eq!(
        parser::basic_move("exd5"),
        Ok((Move::new(Piece::Pawn, Square::D5).from(Square::EX).capture(), ""))
    );
    assert_eq!(
        parser::basic_move("Qh4xe1=N rest"),
        Ok((
            Move::BasicMove {
                piece: Piece::Queen,
                to: Square::E1,
                from: Square::H4,
                is_capture: true,
                promoted_to: Some(Piece::Knight),
            },
            " rest"
        ))
    );
    assert_eq!(
        parser::basic_move("Pe4"),
        Ok((Move::new(Piece::Pawn, Square::E4), ""))
    );
}

#[test]
fn basic_move_leaves_an_unfinished_promotion() {
    assert_eq!(
        parser::basic_move("h8="),
        Ok((Move::new(Piece::Pawn, Square::H8), "="))
    );
}

#[test]
fn basic_move_needs_a_destination() {
    assert_eq!(parser::basic_move("N"), Err(ParseError));
    assert_eq!(parser::basic_move("Nx"), Err(ParseError));
    assert_eq!(parser::basic_move("e"), Err(ParseError));
    assert_eq!(parser::basic_move("O-O"), Err(ParseError));
    assert_eq!(parser::basic_move(""), Err(ParseError));
}

#[test]
fn annotation_symbols_prefer_two_characters() {
    assert_eq!(parser::annotation_symbol("??"), Ok((AnnotationSymbol::Blunder, "")));
    assert_eq!(parser::annotation_symbol("?!"), Ok((AnnotationSymbol::Dubious, "")));
    assert_eq!(parser::annotation_symbol("?"), Ok((AnnotationSymbol::Mistake, "")));
    assert_eq!(parser::annotation_symbol("!?"), Ok((AnnotationSymbol::Interesting, "")));
    assert_eq!(parser::annotation_symbol("!!"), Ok((AnnotationSymbol::Brilliant, "")));
    assert_eq!(parser::annotation_symbol("!"), Ok((AnnotationSymbol::Good, "")));
    assert_eq!(parser::annotation_symbol("???"), Ok((AnnotationSymbol::Blunder, "?")));
    assert_eq!(parser::annotation_symbol("? !"), Ok((AnnotationSymbol::Mistake, " !")));
    assert_eq!(parser::annotation_symbol("x"), Err(ParseError));
}

#[test]
fn bare_move_prefers_the_longer_castle() {
    assert_eq!(parser::bare_move("O-O-O"), Ok((Move::CastleQueenside, "")));
    assert_eq!(parser::bare_move("O-O-"), Ok((Move::CastleKingside, "-")));
    assert_eq!(parser::bare_move("O-O"), Ok((Move::CastleKingside, "")));
    assert_eq!(parser::bare_move("O-"), Err(ParseError));
    assert_eq!(parser::bare_move("0-0"), Err(ParseError));
}

#[test]
fn marked_move_takes_marks_independently() {
    assert_eq!(
        parser::marked_move("Qg7+#!? x"),
        Ok((
            MarkedMove {
                move_: Move::new(Piece::Queen, Square::G7),
                is_check: true,
                is_checkmate: true,
                annotation_symbol: Some(AnnotationSymbol::Interesting),
            },
            " x"
        ))
    );
    assert_eq!(
        parser::marked_move("e4#+"),
        Ok((Move::new(Piece::Pawn, Square::E4).checkmate(), "+"))
    );
}

#[test]
fn nag_needs_a_number() {
    assert_eq!(parser::nag("$0"), Ok((NAG(0), "")));
    assert_eq!(parser::nag("$14 x"), Ok((NAG(14), " x")));
    assert_eq!(parser::nag("$"), Err(ParseError));
    assert_eq!(parser::nag("14"), Err(ParseError));
    assert_eq!(parser::nag("$ 1"), Err(ParseError));
}

#[test]
fn line_end_takes_one_line_end() {
    assert_eq!(parser::line_end("\r\n\n"), Ok(((), "\n")));
    assert_eq!(parser::line_end("\n\r"), Ok(((), "\r")));
    assert_eq!(parser::line_end("\rx"), Ok(((), "x")));
    assert_eq!(parser::line_end("x"), Err(ParseError));
    assert_eq!(parser::line_end(""), Err(ParseError));
}

#[test]
fn inline_comment_needs_its_line_end() {
    assert_eq!(parser::inline_comment(";abc\r\nnext"), Ok(("abc".to_string(), "next")));
    assert_eq!(parser::inline_comment(";\n"), Ok(("".to_string(), "")));
    assert_eq!(parser::inline_comment(";abc"), Err(ParseError));
    assert_eq!(parser::inline_comment("abc\n"), Err(ParseError));
}

#[test]
fn block_comment_may_hold_line_breaks_and_braces() {
    assert_eq!(
        parser::block_comment("{a\n{b; c}d}"),
        Ok(("a\n{b; c".to_string(), "d}"))
    );
    assert_eq!(parser::block_comment("{}"), Ok(("".to_string(), "")));
    assert_eq!(parser::block_comment("{abc"), Err(ParseError));
}

#[test]
fn comment_is_either_form() {
    assert_eq!(parser::comment(";x\n"), Ok(("x".to_string(), "")));
    assert_eq!(parser::comment("{x}"), Ok(("x".to_string(), "")));
    assert_eq!(parser::comment("x"), Err(ParseError));
}

#[test]
fn spaced_rules_take_the_white_space_behind_them() {
    assert_eq!(parser::move_number_ws("3.  \n e4"), Ok((MoveNumber::White(3), "e4")));
    assert_eq!(
        parser::marked_move_ws("e4 \t e5"),
        Ok((Move::new(Piece::Pawn, Square::E4).no_mark(), "e5"))
    );
    assert_eq!(parser::nag_ws("$3 x"), Ok((NAG(3), "x")));
    assert_eq!(parser::comment_ws("{c}  x"), Ok(("c".to_string(), "x")));
    assert_eq!(parser::comment_ws("  {c}"), Err(ParseError));
}

#[test]
fn variation_is_a_line_in_brackets() {
    let (line, rest) = parser::variation("( {why} 1... c5 2. Nf3 )  2. d4").unwrap();
    assert_eq!(rest, "2. d4");
    assert_eq!(line.comment, Some("why".to_string()));
    assert_eq!(line.moves.len(), 2);
    assert_eq!(line.moves[0].number, Some(MoveNumber::Black(1)));
    assert_eq!(line.moves[1].number, Some(MoveNumber::White(2)));
}

#[test]
fn variation_may_be_empty_and_needs_its_brackets() {
    assert_eq!(
        parser::variation("()"),
        Ok((MoveSequence { comment: None, moves: vec![] }, ""))
    );
    assert_eq!(parser::variation("(1. e4"), Err(ParseError));
    assert_eq!(parser::variation("1. e4)"), Err(ParseError));
    assert_eq!(parser::variation("(1. e4 junk)"), Err(ParseError));
}

#[test]
fn variations_are_read_in_order() {
    let (lines, rest) = parser::variations("(a3) (a4)(b3) c3");
    assert_eq!(rest, "c3");
    assert_eq!(lines.len(), 3);
    assert_eq!(
        lines[2].moves[0].move_.move_,
        Move::new(Piece::Pawn, Square::B3)
    );
}

#[test]
fn game_move_reads_all_its_parts() {
    let (m, rest) =
        parser::game_move("12... Nxe5+ $14 {sharp} (12... a6 (12... a5)) (12... b6) 13. d4")
            .unwrap();
    assert_eq!(rest, "13. d4");
    assert_eq!(m.number, Some(MoveNumber::Black(12)));
    assert_eq!(
        m.move_,
        Move::new(Piece::Knight, Square::E5).capture().check()
    );
    assert_eq!(m.nag, Some(NAG(14)));
    assert_eq!(m.comment, Some("sharp".to_string()));
    assert_eq!(m.variations.len(), 2);
    assert_eq!(m.variations[0].moves.len(), 1);
    assert_eq!(m.variations[0].moves[0].variations.len(), 1);
    assert_eq!(
        m.variations[0].moves[0].variations[0].moves[0].move_.move_,
        Move::new(Piece::Pawn, Square::A5)
    );
    assert_eq!(
        m.variations[1].moves[0].move_.move_,
        Move::new(Piece::Pawn, Square::B6)
    );
}

#[test]
fn game_move_needs_a_move() {
    assert_eq!(parser::game_move("12."), Err(ParseError));
    assert_eq!(parser::game_move("$3"), Err(ParseError));
    assert_eq!(parser::game_move("{c}"), Err(ParseError));
    assert_eq!(parser::game_move(""), Err(ParseError));
}

#[test]
fn game_moves_stop_at_what_is_no_move() {
    let (moves, rest) = parser::game_moves("1. e4 e5 2. Nf3 1-0");
    assert_eq!(moves.len(), 3);
    assert_eq!(rest, "1-0");
    let (none, all): (Vec<GameMove>, &str) = parser::game_moves("junk");
    assert_eq!(none.len(), 0);
    assert_eq!(all, "junk");
}

#[test]
fn move_sequence_may_begin_with_a_comment() {
    let (line, rest) = parser::move_sequence("{start} 1. e4 ;good\n e5 *").unwrap();
    assert_eq!(rest, "*");
    assert_eq!(line.comment, Some("start".to_string()));
    assert_eq!(line.moves.len(), 2);
    assert_eq!(line.moves[0].comment, Some("good".to_string()));
}

#[test]
fn move_sequence_never_fails() {
    assert_eq!(
        parser::move_sequence("junk"),
        Ok((MoveSequence { comment: None, moves: vec![] }, "junk"))
    );
    assert_eq!(
        parser::move_sequence(""),
        Ok((MoveSequence { comment: None, moves: vec![] }, ""))
    );
}

#[test]
fn game_takes_comment_and_moves_from_its_main_line() {
    let (game, rest) =
        parser::game("[White \"A\"]\n[Black \"B\"]\n\n{intro} 1. e4 e5 1/2-1/2 \n\n[White").unwrap();
    assert_eq!(rest, "[White");
    assert_eq!(
        game,
        Game {
            tags: vec![
                ("White".to_string(), "A".to_string()),
                ("Black".to_string(), "B".to_string()),
            ],
            comment: Some("intro".to_string()),
            moves: vec![
                Move::new(Piece::Pawn, Square::E4)
                    .no_mark()
                    .numbered(Some(MoveNumber::White(1))),
                Move::new(Piece::Pawn, Square::E5).no_mark().numbered(None),
            ],
            termination: GameTermination::DrawnGame,
        }
    );
}

#[test]
fn game_may_be_a_result_alone() {
    assert_eq!(
        parser::game("*"),
        Ok((
            Game {
                tags: vec![],
                comment: None,
                moves: vec![],
                termination: GameTermination::Unknown,
            },
            ""
        ))
    );
}

#[test]
fn game_needs_a_result() {
    assert_eq!(parser::game("1. e4 e5"), Err(ParseError));
    assert_eq!(parser::game("[White \"A\"]"), Err(ParseError));
    assert_eq!(parser::game("1. e4 junk 1-0"), Err(ParseError));
    assert_eq!(parser::game(""), Err(ParseError));
}
