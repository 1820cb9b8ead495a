use chess_pgn_parser::notation::{
    annotation_mark, file_letter, piece_letter, rank_digit, write_marked_move, write_move,
};
use chess_pgn_parser::parser;
use chess_pgn_parser::{AnnotationSymbol, File, MarkedMove, Move, Piece, Rank, Square};

const PIECES: [Piece; 6] = [
    Piece::Pawn,
    Piece::Knight,
    Piece::Bishop,
    Piece::Rook,
    Piece::Queen,
    Piece::King,
];

const SYMBOLS: [Option<AnnotationSymbol>; 7] = [
    None,
    Some(AnnotationSymbol::Blunder),
    Some(AnnotationSymbol::Mistake),
    Some(AnnotationSymbol::Dubious),
    Some(AnnotationSymbol::Interesting),
    Some(AnnotationSymbol::Good),
    Some(AnnotationSymbol::Brilliant),
];

#[test]
fn letters_are_those_of_the_notation() {
    assert_eq!(file_letter(File::A), "a");
    assert_eq!(file_letter(File::H), "h");
    assert_eq!(rank_digit(Rank::R1), "1");
    assert_eq!(rank_digit(Rank::R8), "8");
    assert_eq!(piece_letter(Piece::Pawn), "P");
    assert_eq!(piece_letter(Piece::Knight), "N");
    assert_eq!(piece_letter(Piece::King), "K");
    assert_eq!(annotation_mark(None), "");
    assert_eq!(annotation_mark(Some(AnnotationSymbol::Dubious)), "?!");
    assert_eq!(annotation_mark(Some(AnnotationSymbol::Interesting)), "!?");
}

#[test]
fn moves_are_written_as_they_are_read() {
    assert_eq!(write_move(&Move::new(Piece::Pawn, Square::E4)), "e4".to_string());
    assert_eq!(write_move(&Move::new(Piece::Knight, Square::F3)), "Nf3".to_string());
    assert_eq!(
        write_move(&Move::new(Piece::Knight, Square::F3).from(Square::GX)),
        "Ngf3".to_string()
    );
    assert_eq!(
        write_move(&Move::new(Piece::Rook, Square::H4).from(Square::X2)),
        "R2h4".to_string()
    );
    assert_eq!(
        write_move(&Move::new(Piece::Queen, Square::D4).from(Square::A1)),
        "Qa1d4".to_string()
    );
    assert_eq!(
        write_move(&Move::new(Piece::Pawn, Square::D5).from(Square::EX).capture()),
        "exd5".to_string()
    );
    assert_eq!(
        write_move(&Move::new(Piece::Pawn, Square::H8).with_promotion(Piece::Queen)),
        "h8=Q".to_string()
    );
    assert_eq!(write_move(&Move::CastleKingside), "O-O".to_string());
    assert_eq!(write_move(&Move::CastleQueenside), "O-O-O".to_string());
    assert_eq!(
        write_marked_move(&MarkedMove {
            move_: Move::new(Piece::Queen, Square::G7).capture(),
            is_check: true,
            is_checkmate: true,
            annotation_symbol: Some(AnnotationSymbol::Brilliant),
        }),
        "Qxg7+#!!".to_string()
    );
}

#[test]
fn every_written_move_reads_back() {
    let mut count = 0;
    for piece in PIECES {
        for to in 0..81u32 {
            let to = Square::from_index(to).unwrap();
            if to.file().is_none() || to.rank().is_none() {
                continue;
            }
            for from in [Square::XX, Square::AX, Square::X1, Square::H8, Square::E4, Square::X8] {
                for is_capture in [false, true] {
                    for promoted_to in [None, Some(Piece::Queen), Some(Piece::Pawn)] {
                        let m = Move::BasicMove { piece, to, from, is_capture, promoted_to };
                        let text = write_move(&m);
                        assert_eq!(parser::bare_move(&text), Ok((m, "")));
                        let followed = format!("{} 2. Nf3", text);
                        assert_eq!(parser::basic_move(&followed), Ok((m, " 2. Nf3")));
                        count += 1;
                    }
                }
            }
        }
    }
    assert_eq!(count, 6 * 64 * 6 * 2 * 3);
}

#[test]
fn every_written_marked_move_reads_back() {
    let moves = [
        Move::CastleKingside,
        Move::CastleQueenside,
        Move::new(Piece::Pawn, Square::E4),
        Move::new(Piece::Knight, Square::F3).from(Square::GX).capture(),
        Move::new(Piece::Pawn, Square::A8).from(Square::BX).capture().with_promotion(Piece::Knight),
    ];
    for move_ in moves {
        for is_check in [false, true] {
            for is_checkmate in [false, true] {
                for annotation_symbol in SYMBOLS {
                    let m = MarkedMove { move_, is_check, is_checkmate, annotation_symbol };
                    let text = write_marked_move(&m);
                    assert_eq!(parser::marked_move(&text), Ok((m, "")));
                    let followed = format!("{}) 1-0", text);
                    assert_eq!(parser::marked_move(&followed), Ok((m, ") 1-0")));
                }
            }
        }
    }
}

#[test]
fn a_move_does_not_read_back_before_the_text_of_another() {
    let text = format!("{}e5", write_move(&Move::new(Piece::Pawn, Square::E4)));
    assert_eq!(
        parser::bare_move(&text),
        Ok((Move::new(Piece::Pawn, Square::E5).from(Square::E4), ""))
    );
}
