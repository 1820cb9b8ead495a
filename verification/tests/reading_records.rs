use chess_pgn_parser::reader::{find_termination, read_games, token_len, trim_blank, trim_newline_and_space};
use chess_pgn_parser::{GameTermination, Move, MoveNumber, Piece, Square};

#[test]
fn read_games_gives_the_games_in_order() {
    let games = read_games("1. e4 e5 * 1. d4 d5 *").unwrap();
    assert_eq!(games.len(), 2);
    assert_eq!(games[0].moves.len(), 2);
    assert_eq!(games[1].moves.len(), 2);
    assert_eq!(games[0].termination, GameTermination::Unknown);
    assert_eq!(games[1].termination, GameTermination::Unknown);
    assert_eq!(games[0].moves[0].number, Some(MoveNumber::White(1)));
    assert_eq!(
        games[0].moves[0].move_.move_,
        Move::new(Piece::Pawn, Square::E4)
    );
    assert_eq!(
        games[1].moves[1].move_.move_,
        Move::new(Piece::Pawn, Square::D5)
    );
}

#[test]
fn read_games_of_nothing_is_empty() {
    assert_eq!(read_games("").unwrap().len(), 0);
    assert_eq!(read_games("  \n\t ").unwrap().len(), 0);
}

#[test]
fn read_games_of_a_malformed_text_is_empty() {
    assert_eq!(read_games("this is no game").unwrap().len(), 0);
    assert_eq!(read_games("1. e4 e5").unwrap().len(), 0);
    assert_eq!(read_games("[White \"A\"").unwrap().len(), 0);
}

#[test]
fn read_games_skips_a_corrupted_game() {
    let games = read_games("1. e4 e5 1-0\n1. d4 ?? junk 0-1\n1. c4 c5 1/2-1/2").unwrap();
    assert_eq!(games.len(), 2);
    assert_eq!(games[0].termination, GameTermination::WhiteWins);
    assert_eq!(games[1].termination, GameTermination::DrawnGame);
    assert_eq!(
        games[1].moves[0].move_.move_,
        Move::new(Piece::Pawn, Square::C4)
    );
}

#[test]
fn read_games_resumes_behind_an_unknown_result() {
    let games = read_games("1. e4 e5 garbage * 1. d4 d5 *").unwrap();
    assert_eq!(games.len(), 1);
    assert_eq!(
        games[0].moves[0].move_.move_,
        Move::new(Piece::Pawn, Square::D4)
    );
}

#[test]
fn read_games_skips_a_corrupted_first_game() {
    let games = read_games("[Event \"x\"] 1. e4 zz9 1-0 [Event \"y\"] 1. d4 0-1").unwrap();
    assert_eq!(games.len(), 1);
    assert_eq!(games[0].tags, vec![("Event".to_string(), "y".to_string())]);
    assert_eq!(games[0].termination, GameTermination::BlackWins);
}

#[test]
fn read_games_passes_over_results_in_tags() {
    let text = "[Result \"1-0\"] 1. e4 oops 1-0\n[Result \"0-1\"] 1. d4 0-1";
    let games = read_games(text).unwrap();
    assert_eq!(games.len(), 1);
    assert_eq!(games[0].tags, vec![("Result".to_string(), "0-1".to_string())]);
}

#[test]
fn read_games_reads_tags_comments_and_variations() {
    let text = "[Event \"Croatia\"]\n[Site \"?\"]\n\n1. e4 c5 2. c4 Nc6 3. Ne2 Ne5 4. d4 (4. Ng3) \
                4... Qa5+ 5. Bd2 $4 (5. Nec3) 5... Nd3# 0-1\n\n[Event \"Next\"]\n\n1. d4 {solid} *\n";
    let games = read_games(text).unwrap();
    assert_eq!(games.len(), 2);
    assert_eq!(games[0].tags.len(), 2);
    assert_eq!(games[0].moves.len(), 10);
    assert_eq!(games[0].moves[6].variations.len(), 1);
    assert_eq!(games[0].termination, GameTermination::BlackWins);
    assert_eq!(games[1].moves[0].comment, Some("solid".to_string()));
}

#[test]
fn reading_twice_gives_equal_games() {
    let text = "[A \"b\"] {c} 1. e4 (1. d4 d5) e5 1-0 junk * 1. c4 *";
    assert_eq!(read_games(text), read_games(text));
    let games = read_games(text).unwrap();
    assert_eq!(games.len(), 2);
    assert_eq!(games[0].clone(), games[0]);
    assert_eq!(games[0].moves[0].clone(), games[0].moves[0]);
}

#[test]
fn find_termination_splits_behind_the_first_token() {
    assert_eq!(find_termination("xx 1-0 yy"), Ok(("xx 1-0", " yy")));
    assert_eq!(find_termination("xx 0-1\nyy 1-0"), Ok(("xx 0-1", "\nyy 1-0")));
    assert_eq!(find_termination("a 1/2-1/2 b"), Ok(("a 1/2-1/2", " b")));
    assert_eq!(find_termination("a * b"), Ok(("a *", " b")));
    assert_eq!(find_termination("1-0"), Ok(("1-0", "")));
    assert_eq!(find_termination("x*"), Ok(("x*", "")));
}

#[test]
fn find_termination_passes_over_quoted_and_braced_tokens() {
    assert_eq!(find_termination("a 1-0\" b 0-1 c"), Ok(("a 1-0\" b 0-1", " c")));
    assert_eq!(find_termination("{a 0-1} 1-0 c"), Ok(("{a 0-1} 1-0", " c")));
    assert_eq!(find_termination("x 1/2-1/2\" *} * z"), Ok(("x 1/2-1/2\" *} *", " z")));
    assert_eq!(find_termination("1-0\""), Ok(("1-0\"", "")));
}

#[test]
fn find_termination_without_a_token_takes_all() {
    assert_eq!(find_termination("abc"), Ok(("abc", "")));
    assert_eq!(find_termination("1-1 0-0 1/2"), Ok(("1-1 0-0 1/2", "")));
    assert_eq!(find_termination(""), Ok(("", "")));
}

#[test]
fn find_termination_finds_a_token_inside_other_text() {
    assert_eq!(find_termination("00-1 x"), Ok(("00-1", " x")));
    assert_eq!(find_termination("11-0x"), Ok(("11-0", "x")));
    assert_eq!(find_termination("é1-0é"), Ok(("é1-0", "é")));
}

#[test]
fn token_len_counts_the_characters_of_a_token() {
    assert_eq!(token_len(GameTermination::WhiteWins), 3);
    assert_eq!(token_len(GameTermination::BlackWins), 3);
    assert_eq!(token_len(GameTermination::DrawnGame), 7);
    assert_eq!(token_len(GameTermination::Unknown), 1);
}

#[test]
fn trim_takes_line_ends_and_spaces_only() {
    assert_eq!(trim_newline_and_space("\n\r  x \n".to_string()), "x \n".to_string());
    assert_eq!(trim_newline_and_space("\tx".to_string()), "\tx".to_string());
    assert_eq!(trim_newline_and_space("   ".to_string()), "".to_string());
    assert_eq!(trim_newline_and_space("".to_string()), "".to_string());
    assert_eq!(trim_blank(" \n1. e4"), "1. e4");
}
