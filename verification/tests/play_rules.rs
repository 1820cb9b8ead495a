use chess_pgn_parser::play::board;
use chess_pgn_parser::play::outcome::{
    check_undo, player_left, total_undoable_moves, update_game_outcome, ChessOutcome, UndoError,
};
use chess_pgn_parser::play::paging::{page_count, page_slice, Pager, RangeError};
use chess_pgn_parser::play::player::{Player, PlayerNameError};
use chess_pgn_parser::play::proto::{ChessConfig, ChessRequest, UndoVerdict};
use chess_pgn_parser::play::resolve;
use chess_pgn_parser::play::resolve::MoveError;

fn sq(name: &str) -> board::Square {
    board::Square::from_str(name).unwrap()
}

#[test]
fn other_player_swaps_the_sides() {
    assert_eq!(Player::White.other_player(), Player::Black);
    assert_eq!(Player::Black.other_player(), Player::White);
    assert_eq!(Player::White.other_player().other_player(), Player::White);
}

#[test]
fn player_names_are_read_in_any_case() {
    assert_eq!(Player::from_name("white"), Ok(Player::White));
    assert_eq!(Player::from_name("Black"), Ok(Player::Black));
    assert_eq!(Player::from_name("WHITE"), Ok(Player::White));
    assert_eq!(Player::from_name("bLaCk"), Ok(Player::Black));
    assert_eq!(Player::from_name("green"), Err(PlayerNameError));
    assert_eq!(Player::from_name(""), Err(PlayerNameError));
    assert_eq!(Player::from_name(" white"), Err(PlayerNameError));
    assert_eq!(Player::from_lowercase("white"), Ok(Player::White));
    assert_eq!(Player::from_lowercase("White"), Err(PlayerNameError));
    assert_eq!(Player::White.name(), "White");
    assert_eq!(Player::Black.name(), "Black");
}

#[test]
fn board_square_is_made_of_file_and_rank() {
    let e4 = board::Square::new(4, 3).unwrap();
    assert_eq!(e4.index(), 28);
    assert_eq!(e4.x(), 4);
    assert_eq!(e4.y(), 3);
    assert_eq!(board::Square::new(0, 0).unwrap().index(), 0);
    assert_eq!(board::Square::new(7, 7).unwrap().index(), 63);
    assert_eq!(board::Square::new(7, 0).unwrap().index(), 7);
}

#[test]
fn board_square_refuses_what_is_off_the_board() {
    assert_eq!(board::Square::new(8, 0), Err(board::SquareIndexError::InvalidFile));
    assert_eq!(board::Square::new(0, 8), Err(board::SquareIndexError::InvalidRank));
    assert_eq!(board::Square::new(8, 8), Err(board::SquareIndexError::InvalidFile));
    assert_eq!(board::Square::new(255, 0), Err(board::SquareIndexError::InvalidFile));
}

#[test]
fn board_square_takes_numbers_by_their_low_bits() {
    assert_eq!(board::Square::new(256, 0).unwrap().index(), 0);
    assert_eq!(board::Square::new(259, 513).unwrap().index(), 11);
}

#[test]
fn board_square_coordinates_fold_numbers_past_the_board() {
    assert_eq!(board::Square::from_index(64).x(), 0);
    assert_eq!(board::Square::from_index(64).y(), 0);
    assert_eq!(board::Square::from_index(255).x(), 7);
    assert_eq!(board::Square::from_index(255).y(), 7);
    for i in 0..64u8 {
        let square = board::Square::from_index(i);
        assert_eq!(
            board::Square::new(square.x() as usize, square.y() as usize),
            Ok(square)
        );
    }
}

#[test]
fn board_square_is_read_from_two_characters() {
    assert_eq!(sq("A1").index(), 0);
    assert_eq!(sq("H1").index(), 7);
    assert_eq!(sq("A2").index(), 8);
    assert_eq!(sq("E4").index(), 28);
    assert_eq!(sq("H8").index(), 63);
}

#[test]
fn board_square_refuses_other_texts() {
    assert_eq!(
        board::Square::from_str("e4"),
        Err(board::SquareFormatError::OutOfRange { found: "e4".to_string() })
    );
    assert_eq!(
        board::Square::from_str("I1"),
        Err(board::SquareFormatError::OutOfRange { found: "I1".to_string() })
    );
    assert_eq!(
        board::Square::from_str("A9"),
        Err(board::SquareFormatError::OutOfRange { found: "A9".to_string() })
    );
    assert_eq!(
        board::Square::from_str("A"),
        Err(board::SquareFormatError::InvalidLength { found: "A".to_string() })
    );
    assert_eq!(
        board::Square::from_str(""),
        Err(board::SquareFormatError::InvalidLength { found: "".to_string() })
    );
    assert_eq!(
        board::Square::from_str("A1 "),
        Err(board::SquareFormatError::InvalidLength { found: "A1 ".to_string() })
    );
    assert_eq!(
        board::Square::from_str("é1"),
        Err(board::SquareFormatError::OutOfRange { found: "é1".to_string() })
    );
}

#[test]
fn a_player_who_leaves_aborts_a_running_game() {
    assert_eq!(
        player_left(None, Player::Black),
        Some(ChessOutcome::Aborted { who: Some(Player::Black) })
    );
    assert_eq!(
        player_left(Some(ChessOutcome::Stalemate), Player::Black),
        Some(ChessOutcome::Stalemate)
    );
    assert_eq!(
        player_left(Some(ChessOutcome::Aborted { who: None }), Player::White),
        Some(ChessOutcome::Aborted { who: None })
    );
}

#[test]
fn outcome_follows_the_position() {
    assert_eq!(
        update_game_outcome(true, false, Player::White, None),
        Some(ChessOutcome::Checkmate { winner: Player::Black })
    );
    assert_eq!(
        update_game_outcome(true, true, Player::Black, Some(ChessOutcome::Stalemate)),
        Some(ChessOutcome::Checkmate { winner: Player::White })
    );
    assert_eq!(
        update_game_outcome(false, true, Player::White, None),
        Some(ChessOutcome::Stalemate)
    );
    assert_eq!(update_game_outcome(false, false, Player::White, None), None);
    assert_eq!(
        update_game_outcome(
            false,
            false,
            Player::White,
            Some(ChessOutcome::Checkmate { winner: Player::White })
        ),
        None
    );
    assert_eq!(
        update_game_outcome(false, false, Player::White, Some(ChessOutcome::Stalemate)),
        None
    );
    assert_eq!(
        update_game_outcome(
            false,
            false,
            Player::White,
            Some(ChessOutcome::Aborted { who: Some(Player::White) })
        ),
        Some(ChessOutcome::Aborted { who: Some(Player::White) })
    );
}

#[test]
fn undo_is_bounded_by_the_moves_played() {
    assert_eq!(check_undo(0, 0, 0), Ok(()));
    assert_eq!(check_undo(3, 3, 0), Ok(()));
    assert_eq!(check_undo(4, 3, 0), Err(UndoError::BeforeStart));
    assert_eq!(check_undo(2, 10, 8), Ok(()));
    assert_eq!(check_undo(3, 10, 8), Err(UndoError::BeforeSetup));
    assert_eq!(check_undo(11, 10, 8), Err(UndoError::BeforeStart));
    assert_eq!(total_undoable_moves(10, 8), 2);
}

#[test]
fn spectators_may_ask_for_board_and_move_count() {
    assert!(ChessRequest::CurrentBoard.available_to_spectator());
    assert!(ChessRequest::CurrentTotalMoves.available_to_spectator());
    assert!(!ChessRequest::CurrentOutcome.available_to_spectator());
    assert!(!ChessRequest::MovePiece { source: sq("E2"), destination: sq("E4") }
        .available_to_spectator());
    assert!(!ChessRequest::Abort { message: "bye".to_string() }.available_to_spectator());
    assert!(!ChessRequest::UndoMoves { moves: 1 }.available_to_spectator());
}

fn config(black: bool, white: bool, after: bool) -> ChessConfig {
    ChessConfig {
        starting_fen: None,
        can_black_undo: black,
        can_white_undo: white,
        allow_undo_after_loose: after,
    }
}

#[test]
fn undo_needs_permission_and_the_right_moment() {
    let over = Some(ChessOutcome::Stalemate);
    assert_eq!(
        config(false, true, true).undo_verdict(Player::Black, Player::Black, None),
        UndoVerdict::NotPermitted
    );
    assert_eq!(
        config(false, true, true).undo_verdict(Player::White, Player::White, None),
        UndoVerdict::Allowed
    );
    assert_eq!(
        config(true, true, false).undo_verdict(Player::White, Player::Black, None),
        UndoVerdict::OnlyWhenPlaying
    );
    assert_eq!(
        config(true, true, true).undo_verdict(Player::White, Player::Black, None),
        UndoVerdict::OnlyWhenPlayingOrGameOver
    );
    assert_eq!(
        config(true, true, true).undo_verdict(Player::White, Player::Black, over),
        UndoVerdict::Allowed
    );
    assert_eq!(
        config(true, true, false).undo_verdict(Player::White, Player::White, over),
        UndoVerdict::OnlyWhenPlaying
    );
    assert_eq!(UndoVerdict::Allowed.message(), "");
    assert_eq!(
        UndoVerdict::NotPermitted.message(),
        "You are not permitted to do that in this game."
    );
    assert_eq!(
        UndoVerdict::OnlyWhenPlayingOrGameOver.message(),
        "You can only undo when you are playing or it's game over."
    );
    assert_eq!(
        UndoVerdict::OnlyWhenPlaying.message(),
        "You can only undo when you are playing."
    );
}

fn knight_moves() -> Vec<(board::Square, board::Square)> {
    vec![
        (sq("E2"), sq("E4")),
        (sq("B1"), sq("D2")),
        (sq("G1"), sq("F3")),
        (sq("F1"), sq("D3")),
        (sq("F3"), sq("D2")),
        (sq("B3"), sq("D2")),
    ]
}

#[test]
fn candidates_start_from_a_piece_and_end_on_the_destination() {
    let legal = knight_moves();
    let knights = vec![sq("B1"), sq("F3"), sq("B3"), sq("G1")];
    assert_eq!(resolve::candidates(&legal, &knights, sq("D2")), vec![1, 4, 5]);
    assert_eq!(resolve::candidates(&legal, &knights, sq("F3")), vec![2]);
    assert_eq!(resolve::candidates(&legal, &knights, sq("D3")), Vec::<usize>::new());
    assert_eq!(resolve::candidates(&legal, &vec![], sq("D2")), Vec::<usize>::new());
    assert!(resolve::holds(&knights, sq("F3")));
    assert!(!resolve::holds(&knights, sq("F4")));
}

#[test]
fn a_single_candidate_needs_no_hint() {
    let legal = knight_moves();
    let knights = vec![sq("B1"), sq("G1")];
    assert_eq!(resolve::select_move(&legal, &knights, sq("F3"), None, None), Some(2));
    assert_eq!(resolve::select_move(&legal, &knights, sq("F3"), Some(0), Some(7)), Some(2));
}

#[test]
fn hints_choose_among_several_candidates() {
    let legal = knight_moves();
    let knights = vec![sq("B1"), sq("F3"), sq("B3")];
    assert_eq!(resolve::select_move(&legal, &knights, sq("D2"), None, None), None);
    assert_eq!(resolve::select_move(&legal, &knights, sq("D2"), Some(5), None), Some(4));
    assert_eq!(resolve::select_move(&legal, &knights, sq("D2"), Some(1), None), Some(1));
    assert_eq!(resolve::select_move(&legal, &knights, sq("D2"), None, Some(2)), Some(4));
    assert_eq!(resolve::select_move(&legal, &knights, sq("D2"), None, Some(0)), Some(1));
    assert_eq!(resolve::select_move(&legal, &knights, sq("D2"), Some(1), Some(2)), Some(1));
    assert_eq!(resolve::select_move(&legal, &knights, sq("D2"), Some(7), Some(2)), Some(4));
    assert_eq!(resolve::select_move(&legal, &knights, sq("D2"), Some(7), Some(7)), None);
    assert_eq!(resolve::select_move(&legal, &knights, sq("H8"), Some(1), None), None);
    assert_eq!(resolve::first_on_file(&legal, &vec![1, 4, 5], 1), Some(1));
    assert_eq!(resolve::first_on_rank(&legal, &vec![1, 4, 5], 2), Some(4));
    assert_eq!(resolve::first_on_rank(&legal, &vec![1, 4, 5], 5), None);
}

#[test]
fn a_record_move_is_refused_after_the_end() {
    let legal = knight_moves();
    let knights = vec![sq("G1")];
    assert_eq!(
        resolve::move_piece_by_type(&legal, &knights, sq("F3"), None, None, None),
        Ok(2)
    );
    assert_eq!(
        resolve::move_piece_by_type(
            &legal,
            &knights,
            sq("F3"),
            None,
            None,
            Some(ChessOutcome::Stalemate)
        ),
        Err(MoveError::GameEnded)
    );
    assert_eq!(
        resolve::move_piece_by_type(&legal, &knights, sq("H3"), None, None, None),
        Err(MoveError::NotPossible)
    );
}

#[test]
fn a_player_move_is_the_last_legal_move_that_fits() {
    let mut legal = knight_moves();
    legal.push((sq("E2"), sq("E4")));
    let own = vec![sq("E2"), sq("B1")];
    assert_eq!(resolve::find_step(&legal, sq("E2"), sq("E4")), Some(6));
    assert_eq!(resolve::find_step(&legal, sq("B1"), sq("D2")), Some(1));
    assert_eq!(resolve::find_step(&legal, sq("B1"), sq("C3")), None);
    assert_eq!(resolve::move_piece(&legal, &own, sq("E2"), sq("E4"), None), Ok(6));
    assert_eq!(
        resolve::move_piece(&legal, &own, sq("G1"), sq("F3"), None),
        Err(MoveError::NoPieceOnSource)
    );
    assert_eq!(
        resolve::move_piece(&legal, &own, sq("E2"), sq("E2"), None),
        Err(MoveError::NoMovement)
    );
    assert_eq!(
        resolve::move_piece(&legal, &own, sq("E2"), sq("E4"), Some(ChessOutcome::Stalemate)),
        Err(MoveError::GameEnded)
    );
    assert_eq!(
        resolve::move_piece(&legal, &own, sq("E2"), sq("E5"), None),
        Err(MoveError::NotPossible)
    );
    assert_eq!(
        resolve::move_piece(&legal, &own, sq("G1"), sq("G1"), Some(ChessOutcome::Stalemate)),
        Err(MoveError::NoPieceOnSource)
    );
    assert_eq!(MoveError::NotPossible.message(), "Move not found as possibility");
    assert_eq!(MoveError::NoMovement.message(), "Move does not actually move");
    assert_eq!(
        MoveError::GameEnded.message(),
        "Can't do move since the game has already ended."
    );
    assert_eq!(
        MoveError::NoPieceOnSource.message(),
        "The playing player has no piece on the source square!"
    );
}

#[test]
fn pages_hold_six_items() {
    assert_eq!(page_count(0, 6), 0);
    assert_eq!(page_count(1, 6), 1);
    assert_eq!(page_count(6, 6), 1);
    assert_eq!(page_count(7, 6), 2);
    assert_eq!(page_count(12, 6), 2);
    assert_eq!(page_count(13, 6), 3);
    assert_eq!(page_count(5, 1), 5);
    assert_eq!(page_count(usize::MAX, 2), usize::MAX / 2 + 1);
}

#[test]
fn page_slice_cuts_the_range_to_the_list() {
    assert_eq!(page_slice(20, 0, 5), Ok((0, 6)));
    assert_eq!(page_slice(20, 18, 23), Ok((18, 20)));
    assert_eq!(page_slice(20, 24, 29), Ok((20, 20)));
    assert_eq!(page_slice(0, 0, 5), Ok((0, 0)));
    assert_eq!(page_slice(20, 3, 3), Ok((3, 4)));
    assert_eq!(page_slice(20, 0, usize::MAX), Ok((0, 20)));
    assert_eq!(page_slice(20, 5, 4), Err(RangeError));
}

#[test]
fn pager_stays_on_its_pages() {
    let mut pager = Pager::new(3);
    assert_eq!(pager, Pager { current_page_number: 0, total_pages: 3 });
    assert!(!pager.go_to_prev_page());
    assert_eq!(pager.current_page_number, 0);
    assert!(pager.go_to_next_page());
    assert!(pager.go_to_next_page());
    assert_eq!(pager.current_page_number, 2);
    assert_eq!(pager.index_of_first_item(), 12);
    assert!(!pager.go_to_next_page());
    assert_eq!(pager.current_page_number, 2);
    assert!(pager.go_to_prev_page());
    assert_eq!(pager.current_page_number, 1);
    pager.go_to_first_page();
    assert_eq!(pager.current_page_number, 0);
    assert_eq!(Pager::new(0), Pager { current_page_number: 0, total_pages: 1 });
}
