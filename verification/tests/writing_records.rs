use chess_pgn_parser::parser;
use chess_pgn_parser::reader::read_games;
use chess_pgn_parser::writer::{
    check_separators, comment_holds, comment_is_writable, game_is_writable, game_to_text,
    games_are_writable, move_is_writable, tag_name_is_writable, write_decimal, write_game,
    write_games, write_game_move,
};
use chess_pgn_parser::{
    Game, GameTermination, Move, MoveNumber, MoveSequence, Piece, Square, NAG,
};

const RECORD: &str = "[Event \"Croatia \\\"Open\\\"\"]\n[Site \"?\"]\n\n{a \
                      sharp line} 1. e4 c5 2. c4 Nc6 $1 3. Ne2 Ne5 4. d4 (4. Ng3 ;solid}\n 4... \
                      Nd3+ (4... g6 {slow})) 4... Qa5+ 5. Bd2 $4 (5. Nec3) 5... Nd3# 0-1\n\n[White \
                      \"A\"]\n1. d4 d5 1/2-1/2 1. c4 * O-O-O 1-0";

#[test]
fn white_space_is_what_the_writer_takes_it_to_be() {
    assert!(check_separators());
}

#[test]
fn numbers_are_written_in_base_ten() {
    for (n, expected) in [(0u32, "0"), (7, "7"), (10, "10"), (120, "120"), (u32::MAX, "4294967295")] {
        let mut text = "x".to_string();
        write_decimal(&mut text, n);
        assert_eq!(text, format!("x{}", expected));
        assert_eq!(parser::pgn_integer(expected), Ok((n, "")));
    }
}

#[test]
fn a_game_is_written_part_by_part() {
    let games = read_games("[White \"A\"]\n1. e4 {good} (1. d4) e5 1-0").unwrap();
    assert_eq!(
        write_game(&games[0]),
        Some("[White \"A\"]\n1. e4 {good} (1. d4 ) e5 1-0".to_string())
    );
    assert_eq!(
        write_games(&games),
        Some("[White \"A\"]\n1. e4 {good} (1. d4 ) e5 1-0\n".to_string())
    );
    assert_eq!(write_games(&vec![]), Some("".to_string()));
}

#[test]
fn a_move_of_a_game_is_written_with_all_its_parts() {
    let m = Move::new(Piece::Knight, Square::E5)
        .capture()
        .check()
        .numbered(Some(MoveNumber::Black(12)))
        .nag(NAG(14))
        .comment("sharp".to_string())
        .with_variations(vec![MoveSequence {
            comment: Some("why}".to_string()),
            moves: vec![Move::CastleKingside.no_mark().numbered(None)],
        }]);
    let mut text = String::new();
    write_game_move(&mut text, &m);
    assert_eq!(text, "12... Nxe5+ $14 {sharp} (;why}\n O-O ) ".to_string());
    assert_eq!(parser::game_move(&text), Ok((m, "")));
}

#[test]
fn written_games_read_back() {
    let games = read_games(RECORD).unwrap();
    assert_eq!(games.len(), 4);
    assert_eq!(games[0].comment, Some("a sharp line".to_string()));
    assert_eq!(games[0].moves[6].variations[0].moves[0].comment, Some("solid}".to_string()));
    for game in &games {
        let text = write_game(game).unwrap();
        let (again, rest) = parser::game(&text).unwrap();
        assert_eq!(rest, "");
        assert_eq!(&again, game);
    }
    let text = write_games(&games).unwrap();
    assert_eq!(read_games(&text), Ok(games));
}

#[test]
fn writing_what_was_written_changes_nothing() {
    let games = read_games(RECORD).unwrap();
    let text = write_games(&games).unwrap();
    let again = read_games(&text).unwrap();
    assert_eq!(write_games(&again), Some(text));
}

#[test]
fn a_game_that_cannot_be_written_gives_nothing() {
    let plain = Game {
        tags: vec![],
        comment: None,
        moves: vec![],
        termination: GameTermination::Unknown,
    };
    assert_eq!(write_game(&plain), Some("*".to_string()));
    let empty_name = Game { tags: vec![("".to_string(), "v".to_string())], ..plain.clone() };
    assert!(!game_is_writable(&empty_name));
    assert_eq!(write_game(&empty_name), None);
    let spaced_name = Game { tags: vec![("a b".to_string(), "v".to_string())], ..plain.clone() };
    assert_eq!(write_game(&spaced_name), None);
    let comment = Game { comment: Some("a}\nb".to_string()), ..plain.clone() };
    assert_eq!(write_game(&comment), None);
    let unknown = Game {
        moves: vec![Move::new(Piece::Pawn, Square::EX).no_mark().numbered(None)],
        ..plain.clone()
    };
    assert_eq!(write_game(&unknown), None);
    assert_eq!(write_games(&vec![plain.clone(), unknown.clone()]), None);
    assert!(games_are_writable(&vec![plain.clone()]));
    assert!(!games_are_writable(&vec![plain.clone(), unknown]));
    assert_eq!(game_to_text(&comment), ";a}\nb\n *".to_string());
}

#[test]
fn writability_is_decided_part_by_part() {
    assert!(comment_is_writable("plain"));
    assert!(comment_is_writable("with } brace"));
    assert!(comment_is_writable("with\nline break"));
    assert!(!comment_is_writable("with } and\nboth"));
    assert!(!comment_is_writable("with } and\rboth"));
    assert_eq!(comment_holds("a}b"), (true, false));
    assert_eq!(comment_holds("a\rb"), (false, true));
    assert_eq!(comment_holds(""), (false, false));
    assert!(tag_name_is_writable("White"));
    assert!(tag_name_is_writable("a_1+#=:"));
    assert!(!tag_name_is_writable(""));
    assert!(!tag_name_is_writable("White Elo"));
    assert!(!tag_name_is_writable("-"));
    assert!(move_is_writable(&Move::CastleKingside));
    assert!(move_is_writable(&Move::new(Piece::Pawn, Square::E4).from(Square::XX)));
    assert!(!move_is_writable(&Move::new(Piece::Pawn, Square::X4)));
    assert!(!move_is_writable(&Move::new(Piece::Pawn, Square::XX)));
}
