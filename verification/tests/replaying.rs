use chess_pgn_parser::play::board;
use chess_pgn_parser::play::record::{prepare_record, read_record, replaced_or_same};
use chess_pgn_parser::play::replay::{
    construct_text_for_replay, file_number, find_tag, rank_number, replay_comment, starting_fen,
    tag_or_unknown, target, termination_string_from, ReplayCursor, ReplayStep, ReplayTarget,
};
use chess_pgn_parser::reader::read_games;
use chess_pgn_parser::{File, Game, GameTermination, Move, Piece, Rank, Square};

fn game_with(tags: &[(&str, &str)]) -> Game {
    Game {
        tags: tags
            .iter()
            .map(|(name, value)| (name.to_string(), value.to_string()))
            .collect(),
        comment: None,
        moves: vec![],
        termination: GameTermination::Unknown,
    }
}

#[test]
fn termination_strings_name_the_result() {
    assert_eq!(
        termination_string_from(GameTermination::WhiteWins),
        " Game Over: White Won"
    );
    assert_eq!(
        termination_string_from(GameTermination::BlackWins),
        " Game Over: Black Won"
    );
    assert_eq!(termination_string_from(GameTermination::DrawnGame), " Game Over: Draw");
    assert_eq!(termination_string_from(GameTermination::Unknown), " Game Over: Unknown");
}

#[test]
fn tags_are_found_by_their_exact_name() {
    let game = game_with(&[("White", "A"), ("FEN", "first"), ("fen", "lower"), ("FEN", "second")]);
    assert_eq!(find_tag(&game.tags, "FEN"), Some(1));
    assert_eq!(find_tag(&game.tags, "fen"), Some(2));
    assert_eq!(find_tag(&game.tags, "Fen"), None);
    assert_eq!(find_tag(&game.tags, "White"), Some(0));
    assert_eq!(find_tag(&vec![], "White"), None);
    assert_eq!(starting_fen(&game), Some(&"first".to_string()));
    assert_eq!(starting_fen(&game_with(&[("White", "A")])), None);
    assert_eq!(tag_or_unknown(&game.tags, "White"), "A");
    assert_eq!(tag_or_unknown(&game.tags, "Black"), "N/A");
}

#[test]
fn replay_text_names_players_event_and_round() {
    let game = game_with(&[
        ("Event", "Open"),
        ("Round", "3"),
        ("White", "Gardijan"),
        ("Black", "Sulc"),
    ]);
    assert_eq!(
        construct_text_for_replay(&game),
        "Gardijan vs Sulc at Open 3".to_string()
    );
    assert_eq!(
        construct_text_for_replay(&game_with(&[("White", "Gardijan")])),
        "Gardijan vs N/A at N/A N/A".to_string()
    );
    assert_eq!(
        construct_text_for_replay(&game_with(&[])),
        "N/A vs N/A at N/A N/A".to_string()
    );
}

#[test]
fn replay_text_of_a_read_game() {
    let games = read_games("[White \"A\"]\n[Black \"B\"]\n[Event \"E\"]\n[Round \"1\"]\n1. e4 *").unwrap();
    assert_eq!(construct_text_for_replay(&games[0]), "A vs B at E 1".to_string());
}

#[test]
fn a_move_of_a_piece_asks_for_its_destination() {
    let m = Move::new(Piece::Knight, Square::F3).from(Square::GX);
    assert_eq!(
        target(&m, true),
        ReplayTarget {
            piece: Piece::Knight,
            is_white: true,
            destination: board::Square::from_index(21),
            src_col: Some(6),
            src_row: None,
        }
    );
    let pawn = Move::new(Piece::Pawn, Square::E5);
    assert_eq!(
        target(&pawn, false),
        ReplayTarget {
            piece: Piece::Pawn,
            is_white: false,
            destination: board::Square::from_index(36),
            src_col: None,
            src_row: None,
        }
    );
    let rook = Move::new(Piece::Rook, Square::H8).from(Square::X2);
    assert_eq!(target(&rook, true).destination.index(), 63);
    assert_eq!(target(&rook, true).src_row, Some(1));
    assert_eq!(target(&rook, true).src_col, None);
}

#[test]
fn castling_asks_for_the_king_to_reach_the_rook() {
    assert_eq!(
        target(&Move::CastleKingside, true),
        ReplayTarget {
            piece: Piece::King,
            is_white: true,
            destination: board::Square::from_index(7),
            src_col: Some(4),
            src_row: Some(0),
        }
    );
    assert_eq!(
        target(&Move::CastleKingside, false),
        ReplayTarget {
            piece: Piece::King,
            is_white: false,
            destination: board::Square::from_index(63),
            src_col: Some(4),
            src_row: Some(7),
        }
    );
    assert_eq!(target(&Move::CastleQueenside, true).destination.index(), 0);
    assert_eq!(target(&Move::CastleQueenside, false).destination.index(), 56);
}

#[test]
fn axis_numbers_count_from_zero() {
    assert_eq!(file_number(Some(File::A)), Some(0));
    assert_eq!(file_number(Some(File::H)), Some(7));
    assert_eq!(file_number(None), None);
    assert_eq!(rank_number(Some(Rank::R1)), Some(0));
    assert_eq!(rank_number(Some(Rank::R8)), Some(7));
    assert_eq!(rank_number(None), None);
}

#[test]
fn replay_goes_through_the_record() {
    let mut cursor = ReplayCursor::new();
    assert_eq!(cursor.next_step(2), ReplayStep::Play { index: 0 });
    assert!(!cursor.replay_move_played(true, 2));
    assert!(!cursor.is_white_turn);
    assert_eq!(cursor.next_step(2), ReplayStep::Play { index: 1 });
    assert!(cursor.replay_move_played(true, 2));
    assert!(cursor.is_white_turn);
    assert_eq!(cursor.next_step(2), ReplayStep::Finished);
    assert_eq!(ReplayCursor::new().next_step(0), ReplayStep::Finished);
}

#[test]
fn a_refused_move_leaves_the_cursor() {
    let mut cursor = ReplayCursor::new();
    assert!(!cursor.replay_move_played(false, 1));
    assert_eq!(cursor, ReplayCursor::new());
    cursor.player_moved(false);
    assert_eq!(cursor, ReplayCursor::new());
}

#[test]
fn manual_moves_block_the_replay_until_undone() {
    let mut cursor = ReplayCursor::new();
    cursor.replay_move_played(true, 3);
    cursor.player_moved(true);
    cursor.player_moved(true);
    assert_eq!(cursor.next_step(3), ReplayStep::Blocked);
    assert!(cursor.undo_move());
    assert_eq!(cursor.next_step(3), ReplayStep::Blocked);
    assert!(cursor.undo_move());
    assert_eq!(cursor.next_step(3), ReplayStep::Play { index: 1 });
    assert!(!cursor.is_white_turn);
    assert!(cursor.undo_move());
    assert_eq!(cursor, ReplayCursor::new());
    assert!(!cursor.undo_move());
    assert_eq!(cursor, ReplayCursor::new());
}

#[test]
fn reset_puts_the_cursor_at_the_start() {
    let mut cursor = ReplayCursor {
        replay_moves_played_offset: 5,
        player_moves_played_offset: 2,
        is_white_turn: false,
    };
    cursor.reset();
    assert_eq!(cursor, ReplayCursor::new());
}

#[test]
fn the_last_move_tells_the_result() {
    assert_eq!(
        replay_comment(Some("good".to_string()), true, true, GameTermination::WhiteWins),
        Some("good Game Over: White Won".to_string())
    );
    assert_eq!(
        replay_comment(None, true, true, GameTermination::DrawnGame),
        Some(" Game Over: Draw".to_string())
    );
    assert_eq!(
        replay_comment(Some("good".to_string()), true, false, GameTermination::WhiteWins),
        Some("good".to_string())
    );
    assert_eq!(replay_comment(None, true, false, GameTermination::WhiteWins), None);
    assert_eq!(
        replay_comment(Some("good".to_string()), false, true, GameTermination::WhiteWins),
        Some("Error playing replay move, please check your PGN's validity".to_string())
    );
}

#[test]
fn records_are_prepared_for_reading() {
    assert_eq!(prepare_record("1. e4 (1. d4) e5\n*"), "1. e4 e5 *".to_string());
    assert_eq!(
        prepare_record("1. e4 (1. d4 (1. c4 (1. b4))) e5 *"),
        "1. e4 e5 *".to_string()
    );
    assert_eq!(prepare_record("a\n\n\nb"), "a  b".to_string());
    assert_eq!(prepare_record("a\n\nb"), "a b".to_string());
    assert_eq!(prepare_record("a (b"), "a (b".to_string());
    assert_eq!(prepare_record(""), "".to_string());
    assert_eq!(replaced_or_same("[0-9]+", "a12b345", "#"), "a#b#".to_string());
    assert_eq!(replaced_or_same("(", "a(b", "#"), "a(b".to_string());
    let games = read_record("[White \"A\"]\n\n1. e4 (1. d4 d5) e5 2. Nf3 (2. f4) 1-0\n\n1. c4\n*");
    assert_eq!(games.len(), 2);
    assert_eq!(games[0].moves.len(), 3);
    assert_eq!(games[0].moves[0].variations.len(), 0);
    assert_eq!(games[1].moves.len(), 1);
}
