use chess_pgn_parser::{
    AnnotationSymbol, File, GameMove, MarkedMove, Move, MoveNumber, MoveSequence, Piece, Rank,
    Square, NAG,
};

#[test]
fn square_new_known() {
    assert_eq!(Square::new_known(File::C, Rank::R3), Square::C3);
}

#[test]
fn square_new() {
    assert_eq!(Square::new(Some(File::D), Some(Rank::R4)), Square::D4);
}

#[test]
fn square_new_with_unknown_rank() {
    assert_eq!(Square::new(Some(File::E), None), Square::EX);
}

#[test]
fn square_new_with_unknown_file() {
    assert_eq!(Square::new(None, Some(Rank::R6)), Square::X6);
}

#[test]
fn square_new_with_both_unknown() {
    assert_eq!(Square::new(None, None), Square::XX);
}

#[test]
fn square_new_file() {
    assert_eq!(Square::new_file(File::F), Square::FX);
}

#[test]
fn square_new_rank() {
    assert_eq!(Square::new_rank(Rank::R7), Square::X7);
}

#[test]
fn square_file_known() {
    assert_eq!(Square::G1.file(), Some(File::G));
}

#[test]
fn square_file_unknown() {
    assert_eq!(Square::X1.file(), None);
}

#[test]
fn square_rank_known() {
    assert_eq!(Square::H2.rank(), Some(Rank::R2));
}

#[test]
fn square_rank_unknown() {
    assert_eq!(Square::HX.rank(), None);
}

#[test]
fn move_new() {
    assert_eq!(
        Move::new(Piece::Queen, Square::A2),
        Move::BasicMove {
            piece: Piece::Queen,
            to: Square::A2,
            from: Square::XX,
            is_capture: false,
            promoted_to: None,
        }
    );
}

#[test]
fn move_from() {
    assert_eq!(
        Move::new(Piece::Queen, Square::A2).from(Square::B1),
        Move::BasicMove {
            piece: Piece::Queen,
            to: Square::A2,
            from: Square::B1,
            is_capture: false,
            promoted_to: None,
        }
    );
}

#[test]
fn move_with_promotion() {
    assert_eq!(
        Move::new(Piece::Pawn, Square::H8).with_promotion(Piece::Queen),
        Move::BasicMove {
            piece: Piece::Pawn,
            to: Square::H8,
            from: Square::XX,
            is_capture: false,
            promoted_to: Some(Piece::Queen),
        }
    );
}

#[test]
fn marked_move_annotated() {
    assert_eq!(
        Move::new(Piece::Queen, Square::A2)
            .no_mark()
            .annotated(AnnotationSymbol::Brilliant),
        MarkedMove {
            move_: Move::new(Piece::Queen, Square::A2),
            is_check: false,
            is_checkmate: false,
            annotation_symbol: Some(AnnotationSymbol::Brilliant),
        }
    );
}

#[test]
fn marked_move_numbered_some() {
    let marked_move = Move::new(Piece::Queen, Square::A2).no_mark();

    assert_eq!(
        marked_move.numbered(Some(MoveNumber::White(1))),
        GameMove {
            number: Some(MoveNumber::White(1)),
            move_: marked_move,
            nag: None,
            comment: None,
            variations: vec![],
        }
    );
}

#[test]
fn marked_move_numbered_none() {
    let marked_move = Move::new(Piece::Queen, Square::A2).no_mark();

    assert_eq!(
        marked_move.numbered(None),
        GameMove {
            number: None,
            move_: marked_move,
            nag: None,
            comment: None,
            variations: vec![],
        }
    );
}

#[test]
fn game_move_nag() {
    let marked_move = Move::new(Piece::Queen, Square::A2).no_mark();

    let game_move = GameMove {
        number: Some(MoveNumber::White(1)),
        move_: marked_move.clone(),
        nag: None,
        comment: Some("Comment".to_string()),
        variations: vec![],
    };

    assert_eq!(
        game_move.nag(NAG(1)),
        GameMove {
            number: Some(MoveNumber::White(1)),
            move_: marked_move.clone(),
            nag: Some(NAG(1)),
            comment: Some("Comment".to_string()),
            variations: vec![],
        }
    );
}

#[test]
fn game_move_comment() {
    let marked_move = Move::new(Piece::Queen, Square::A2).no_mark();

    let game_move = GameMove {
        number: Some(MoveNumber::White(1)),
        move_: marked_move.clone(),
        nag: Some(NAG(1)),
        comment: None,
        variations: vec![],
    };

    assert_eq!(
        game_move.comment("Comment".to_string()),
        GameMove {
            number: Some(MoveNumber::White(1)),
            move_: marked_move.clone(),
            nag: Some(NAG(1)),
            comment: Some("Comment".to_string()),
            variations: vec![],
        }
    );
}

#[test]
fn game_move_with_variations() {
    let marked_move = Move::new(Piece::Queen, Square::A2).no_mark();

    let game_move = GameMove {
        number: Some(MoveNumber::White(1)),
        move_: marked_move.clone(),
        nag: Some(NAG(1)),
        comment: Some("Comment".to_string()),
        variations: vec![],
    };

    let alternative = Move::new(Piece::Queen, Square::A1)
        .no_mark()
        .numbered(Some(MoveNumber::White(1)));

    assert_eq!(
        game_move.with_variations(vec![MoveSequence {
            comment: None,
            moves: vec![alternative.clone()],
        },]),
        GameMove {
            number: Some(MoveNumber::White(1)),
            move_: marked_move.clone(),
            nag: Some(NAG(1)),
            comment: Some("Comment".to_string()),
            variations: vec![MoveSequence {
                comment: None,
                moves: vec![alternative.clone()],
            },],
        }
    );
}
