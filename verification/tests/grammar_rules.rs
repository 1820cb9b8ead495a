use chess_pgn_parser::parser;
use chess_pgn_parser::reader::read_games;
use chess_pgn_parser::scan::read_one_or_more;
use chess_pgn_parser::{
    AnnotationSymbol, File, GameTermination, Move, MoveNumber, MoveSequence, ParseError,
    ParseResult, Piece, Rank, Square, NAG,
};

fn run<'a, T>(parser: impl Fn(&'a str) -> ParseResult<'a, T>, input: &'a str) -> T {
    let result = parser(input).unwrap();
    assert_eq!(result.1, "");
    result.0
}

#[test]
fn test_read_one_or_more() {
    assert_eq!(read_one_or_more("abc", |char| char == 'a'), Ok(("a", "bc")));
}

#[test]
fn test_string() {
    assert_eq!(run(parser::pgn_string, "\"\""), "".to_string());
    assert_eq!(run(parser::pgn_string, "\"abc\""), "abc".to_string());
    assert_eq!(run(parser::pgn_string, "\"\\\"\""), "\"".to_string());
    assert_eq!(run(parser::pgn_string, "\"\\\\\""), "\\".to_string());
    assert_eq!(run(parser::pgn_string, "\"\\\\abc\""), "\\abc".to_string());
}

#[test]
fn test_integer() {
    assert_eq!(run(parser::pgn_integer, "1"), 1);
    assert_eq!(run(parser::pgn_integer, "12"), 12);
    assert_eq!(run(parser::pgn_integer, "123"), 123);
}

#[test]
fn test_symbol() {
    assert_eq!(run(parser::pgn_symbol, "abc123"), "abc123".to_string());
    assert_eq!(run(parser::pgn_symbol, "_+#=:"), "_+#=:".to_string());
}

#[test]
fn test_whitespace() {
    assert_eq!(run(parser::whitespace, " \t\r\n"), ());
}

#[test]
fn test_tag_pair() {
    assert_eq!(
        run(parser::tag_pair, "[Name \"Value\"]"),
        ("Name".to_string(), "Value".to_string(),)
    );
}

#[test]
fn test_tag_section() {
    let input = "[Event \"F/S Return Match\"]\n\
                 [Site \"Belgrade, Serbia JUG\"]";
    let expected = vec![
        ("Event".to_string(), "F/S Return Match".to_string()),
        ("Site".to_string(), "Belgrade, Serbia JUG".to_string()),
    ];
    assert_eq!(run(parser::tag_section, input), expected);
}

#[test]
fn test_game_termination() {
    assert_eq!(run(parser::game_termination, "1/2-1/2"), GameTermination::DrawnGame);
}

#[test]
fn test_move_number() {
    assert_eq!(run(parser::move_number, "12."), MoveNumber::White(12));
    assert_eq!(run(parser::move_number, "12..."), MoveNumber::Black(12));
}

#[test]
fn test_file() {
    assert_eq!(run(parser::file, "a"), File::A);
    assert_eq!(run(parser::file, "b"), File::B);
    assert_eq!(run(parser::file, "h"), File::H);
}

#[test]
fn test_rank() {
    assert_eq!(run(parser::rank, "1"), Rank::R1);
    assert_eq!(run(parser::rank, "2"), Rank::R2);
    assert_eq!(run(parser::rank, "8"), Rank::R8);
}

#[test]
fn test_piece() {
    assert_eq!(run(parser::piece, "P"), Piece::Pawn);
    assert_eq!(run(parser::piece, "N"), Piece::Knight);
    assert_eq!(run(parser::piece, "K"), Piece::King);
}

#[test]
fn test_square() {
    assert_eq!(run(parser::square, "a1"), Square::A1);
    assert_eq!(run(parser::square, "b2"), Square::B2);
    assert_eq!(run(parser::square, "h8"), Square::H8);
}

#[test]
fn test_move_disambiguation() {
    assert_eq!(parser::move_disambiguation("f"), Err(ParseError));
    assert_eq!(parser::move_disambiguation("f1x"), Ok((Square::F1, "x")));
    assert_eq!(parser::move_disambiguation("f1g"), Ok((Square::F1, "g")));
    assert_eq!(parser::move_disambiguation("fg"), Ok((Square::FX, "g")));
    assert_eq!(parser::move_disambiguation("1g"), Ok((Square::X1, "g")));
}

#[test]
fn test_basic_move() {
    assert_eq!(run(parser::basic_move, "e4"), Move::new(Piece::Pawn, Square::E4));
    assert_eq!(run(parser::basic_move, "Nf3"), Move::new(Piece::Knight, Square::F3));
    assert_eq!(
        run(parser::basic_move, "Ngf3"),
        Move::new(Piece::Knight, Square::F3).from(Square::GX)
    );
    assert_eq!(run(parser::basic_move, "Bb2"), Move::new(Piece::Bishop, Square::B2));
    assert_eq!(
        run(parser::basic_move, "R2h4"),
        Move::new(Piece::Rook, Square::H4).from(Square::X2)
    );
    assert_eq!(
        run(parser::basic_move, "Qa1d4"),
        Move::new(Piece::Queen, Square::D4).from(Square::A1)
    );
    assert_eq!(
        run(parser::basic_move, "Nxc5"),
        Move::new(Piece::Knight, Square::C5).capture()
    );
    assert_eq!(
        run(parser::basic_move, "h8=Q"),
        Move::new(Piece::Pawn, Square::H8).with_promotion(Piece::Queen)
    );
}

#[test]
fn test_marked_move() {
    assert_eq!(
        run(parser::marked_move, "Kh2"),
        Move::new(Piece::King, Square::H2).no_mark()
    );
    assert_eq!(
        run(parser::marked_move, "Bb2+"),
        Move::new(Piece::Bishop, Square::B2).check()
    );
    assert_eq!(
        run(parser::marked_move, "Qg7#"),
        Move::new(Piece::Queen, Square::G7).checkmate()
    );
    assert_eq!(run(parser::marked_move, "O-O"), Move::CastleKingside.no_mark());
    assert_eq!(run(parser::marked_move, "O-O-O"), Move::CastleQueenside.no_mark());
    assert_eq!(run(parser::marked_move, "O-O+"), Move::CastleKingside.check());
    assert_eq!(run(parser::marked_move, "O-O-O#"), Move::CastleQueenside.checkmate());
    assert_eq!(
        run(parser::marked_move, "a3!!"),
        Move::new(Piece::Pawn, Square::A3)
            .no_mark()
            .annotated(AnnotationSymbol::Brilliant)
    );
}

#[test]
fn test_nag() {
    assert_eq!(run(parser::nag, "$123"), NAG(123));
}

#[test]
fn test_line_end() {
    assert_eq!(parser::line_end("\r\n"), Ok(((), "")));
    assert_eq!(parser::line_end("\r"), Ok(((), "")));
    assert_eq!(parser::line_end("\n"), Ok(((), "")));
}

#[test]
fn test_comment() {
    assert_eq!(run(parser::inline_comment, ";abc\n"), "abc".to_string());
    assert_eq!(run(parser::block_comment, "{abc}"), "abc".to_string());
}

#[test]
fn test_game_move() {
    assert_eq!(
        run(parser::game_move, "Kh2"),
        Move::new(Piece::King, Square::H2).no_mark().numbered(None)
    );

    assert_eq!(
        run(parser::game_move, "1. Bb2 {+0.51/15 0.21s}"),
        Move::new(Piece::Bishop, Square::B2)
            .no_mark()
            .numbered(Some(MoveNumber::White(1)))
            .comment("+0.51/15 0.21s".to_string())
    );

    assert_eq!(
        run(parser::game_move, "1... e4"),
        Move::new(Piece::Pawn, Square::E4)
            .no_mark()
            .numbered(Some(MoveNumber::Black(1)))
    );

    assert_eq!(
        run(parser::game_move, "10. O-O $12"),
        Move::CastleKingside
            .no_mark()
            .numbered(Some(MoveNumber::White(10)))
            .nag(NAG(12),)
    );
}

#[test]
fn test_move_sequence() {
    assert_eq!(
        run(parser::move_sequence, "10. O-O"),
        MoveSequence {
            comment: None,
            moves: vec![Move::CastleKingside
                .no_mark()
                .numbered(Some(MoveNumber::White(10)))],
        }
    );

    assert_eq!(
        run(parser::move_sequence, "10. O-O O-O-O"),
        MoveSequence {
            comment: None,
            moves: vec![
                Move::CastleKingside
                    .no_mark()
                    .numbered(Some(MoveNumber::White(10))),
                Move::CastleQueenside.no_mark().numbered(None),
            ],
        }
    );
}

#[test]
fn test_game_move_with_variations() {
    assert_eq!(
        run(parser::game_move, "4. Bc4 (4. Bb5)"),
        Move::new(Piece::Bishop, Square::C4)
            .no_mark()
            .numbered(Some(MoveNumber::White(4)))
            .with_variations(vec![MoveSequence {
                comment: None,
                moves: vec![Move::new(Piece::Bishop, Square::B5)
                    .no_mark()
                    .numbered(Some(MoveNumber::White(4)))],
            },])
    );

    assert_eq!(
        run(parser::game_move, "4. Bc4 (4. Bb5) (4. Kh2)"),
        Move::new(Piece::Bishop, Square::C4)
            .no_mark()
            .numbered(Some(MoveNumber::White(4)))
            .with_variations(vec![
                MoveSequence {
                    comment: None,
                    moves: vec![Move::new(Piece::Bishop, Square::B5)
                        .no_mark()
                        .numbered(Some(MoveNumber::White(4)))],
                },
                MoveSequence {
                    comment: None,
                    moves: vec![Move::new(Piece::King, Square::H2)
                        .no_mark()
                        .numbered(Some(MoveNumber::White(4)))],
                },
            ])
    );

    assert_eq!(
        run(parser::game_move, "4. Bc4 (4. Bb5 (4. Kh2))"),
        Move::new(Piece::Bishop, Square::C4)
            .no_mark()
            .numbered(Some(MoveNumber::White(4)))
            .with_variations(vec![MoveSequence {
                comment: None,
                moves: vec![Move::new(Piece::Bishop, Square::B5)
                    .no_mark()
                    .numbered(Some(MoveNumber::White(4)))
                    .with_variations(vec![MoveSequence {
                        comment: None,
                        moves: vec![Move::new(Piece::King, Square::H2)
                            .no_mark()
                            .numbered(Some(MoveNumber::White(4))),],
                    },]),],
            },])
    );
}

#[test]
fn test_game() {
    let result = parser::game(
        "[Event \"Croatia\"]\n\
           [Site \"?\"]\n\
           [Date \"2004.??.??\"]\n\
           [Round \"?\"]\n\
           [White \"Gardijan\"]\n\
           [Black \"Sulc\"]\n\
           [Result \"0-1\"]\n\
           [ECO \"B20\"]\n\
           [PlyCount \"10\"]\n\
           \n\
           1. e4 c5 2. c4 Nc6 3. Ne2 Ne5 4. d4 (4. Ng3) 4... Qa5+ 5. \
           Bd2 $4 (5. Nec3) 5... Nd3# 0-1",
    );

    match result {
        Ok((game, _)) => {
            assert_eq!(game.termination, GameTermination::BlackWins);
        }
        _ => assert!(false),
    }
}

#[test]
fn test_read_games() {
    let result = read_games("1. e4 e5 * 1. d4 d5 *").unwrap();
    assert_eq!(result.len(), 2);
}

#[test]
fn test_read_games_with_leading_whitespace() {
    let result = read_games(" 1. e4 e5 * 1. d4 d5 *").unwrap();
    assert_eq!(result.len(), 2);
}
