use chess_engine::board::{Board, EngineError, Turn};
use chess_engine::fen::{parse_counter, split_fields, split_ranks};
use chess_engine::piece::Piece;

#[test]
fn test_from_fen() {
    let mut board1 = Board::default();

    let board2 = Board::from_fen(String::from(
        "rnbqkbnr/pppppppp/8/8/8/8/PPPPPPPP/RNBQKBNR w KQkq - 0 1",
    ))
    .unwrap();
    assert_eq!(board1.to_string(), board2.to_string());
    board1.make_move_from_string(String::from("e2e4")).unwrap();
    let board2 = Board::from_fen(String::from(
        "rnbqkbnr/pppppppp/8/8/4P3/8/PPPP1PPP/RNBQKBNR b KQkq e3 0 1",
    ))
    .unwrap();
    assert_eq!(board1.to_string(), board2.to_string());
    board1.make_move_from_string(String::from("c7c5")).unwrap();
    board1.make_move_from_string(String::from("g1f3")).unwrap();
    let board2 = Board::from_fen(String::from(
        "rnbqkbnr/pp1ppppp/8/2p5/4P3/5N2/PPPP1PPP/RNBQKB1R b KQkq - 1 2",
    ))
    .unwrap();
    assert_eq!(board1.to_string(), board2.to_string());
}

#[test]
fn start_position_from_text() {
    let board = Board::from_fen(String::from(
        "rnbqkbnr/pppppppp/8/8/8/8/PPPPPPPP/RNBQKBNR w KQkq - 0 1",
    ))
    .unwrap();
    let start = Board::default();
    assert!(board.squares == start.squares);
    assert!(board.to_move == Turn::White);
    assert_eq!(board.can_castle, ['K', 'Q', 'k', 'q']);
    assert_eq!(board.en_passant, ('-', '-'));
    assert_eq!(board.half_move, 0);
    assert_eq!(board.move_number, 1);
}

#[test]
fn fields_of_a_position() {
    let board = Board::from_fen(String::from(
        "r3k2r/8/8/3pP3/8/8/8/R3K2R b Kq d6 12 34",
    ))
    .unwrap();
    assert_eq!(board.to_string(), "r---k--r\n--------\n--------\n---pP---\n--------\n--------\n--------\nR---K--R\n");
    assert!(board.to_move == Turn::Black);
    assert_eq!(board.can_castle, ['K', '-', '-', 'q']);
    assert_eq!(board.en_passant, ('d', '6'));
    assert_eq!(board.half_move, 12);
    assert_eq!(board.move_number, 34);
}

#[test]
fn any_white_space_parts_the_fields() {
    let board = Board::from_fen(String::from(
        "  8/8/8/8/8/8/8/4K3\t b \n - \u{a0} - \u{2003}3   7  ignored",
    ))
    .unwrap();
    assert!(board.squares[7][4] == Piece::WKing);
    assert!(board.to_move == Turn::Black);
    assert_eq!(board.can_castle, ['-', '-', '-', '-']);
    assert_eq!(board.half_move, 3);
    assert_eq!(board.move_number, 7);
}

#[test]
fn missing_fields_are_refused() {
    let texts = [
        "",
        "   ",
        "rnbqkbnr/pppppppp/8/8/8/8/PPPPPPPP/RNBQKBNR",
        "rnbqkbnr/pppppppp/8/8/8/8/PPPPPPPP/RNBQKBNR w",
        "rnbqkbnr/pppppppp/8/8/8/8/PPPPPPPP/RNBQKBNR w KQkq",
        "rnbqkbnr/pppppppp/8/8/8/8/PPPPPPPP/RNBQKBNR w KQkq -",
        "rnbqkbnr/pppppppp/8/8/8/8/PPPPPPPP/RNBQKBNR w KQkq - 0",
    ];
    for text in texts {
        assert!(matches!(Board::from_fen(String::from(text)), Err(EngineError::InvalidFen)));
    }
}

#[test]
fn counters_must_be_numbers() {
    let texts = [
        "8/8/8/8/8/8/8/8 w - - x 1",
        "8/8/8/8/8/8/8/8 w - - 0 y",
        "8/8/8/8/8/8/8/8 w - - -1 1",
        "8/8/8/8/8/8/8/8 w - - 0 1.5",
        "8/8/8/8/8/8/8/8 w - - 0 4294967296",
        "8/8/8/8/8/8/8/8 w - - + 1",
    ];
    for text in texts {
        assert!(matches!(Board::from_fen(String::from(text)), Err(EngineError::InvalidFen)));
    }
    let board = Board::from_fen(String::from("8/8/8/8/8/8/8/8 w - - 4294967295 +007")).unwrap();
    assert_eq!(board.half_move, 4294967295);
    assert_eq!(board.move_number, 7);
}

#[test]
fn counter_texts() {
    assert_eq!(parse_counter("0"), Some(0));
    assert_eq!(parse_counter("42"), Some(42));
    assert_eq!(parse_counter("+42"), Some(42));
    assert_eq!(parse_counter("0042"), Some(42));
    assert_eq!(parse_counter("4294967295"), Some(4294967295));
    assert_eq!(parse_counter("4294967296"), None);
    assert_eq!(parse_counter("99999999999999999999"), None);
    assert_eq!(parse_counter(""), None);
    assert_eq!(parse_counter("+"), None);
    assert_eq!(parse_counter("-3"), None);
    assert_eq!(parse_counter("++3"), None);
    assert_eq!(parse_counter("3+"), None);
    assert_eq!(parse_counter("1a"), None);
    assert_eq!(parse_counter(" 1"), None);
}

#[test]
fn field_splitting() {
    assert_eq!(split_fields("a b  c"), vec!["a", "b", "c"]);
    assert_eq!(split_fields("  lead and trail \n"), vec!["lead", "and", "trail"]);
    assert_eq!(split_fields("one"), vec!["one"]);
    assert_eq!(split_fields(""), Vec::<String>::new());
    assert_eq!(split_fields(" \t "), Vec::<String>::new());
    assert_eq!(split_fields("a\u{3000}b\u{85}c"), vec!["a", "b", "c"]);
}

#[test]
fn rank_splitting() {
    let parts: Vec<String> = split_ranks("8/4P3//x").into_iter().map(|r| r.into_iter().collect()).collect();
    assert_eq!(parts, vec!["8", "4P3", "", "x"]);
    assert_eq!(split_ranks(""), vec![Vec::<char>::new()]);
    assert_eq!(split_ranks("/"), vec![Vec::<char>::new(), Vec::<char>::new()]);
}

#[test]
fn placement_digits_and_letters() {
    let squares = Board::pieces_from_fen(String::from("4P3/8/pP6/1k1K/0q0/r/x7/7R")).unwrap();
    assert!(squares[0][4] == Piece::WPawn);
    assert!(squares[0][3] == Piece::Blank);
    assert!(squares[2][0] == Piece::BPawn);
    assert!(squares[2][1] == Piece::WPawn);
    assert!(squares[3][1] == Piece::BKing);
    assert!(squares[3][3] == Piece::WKing);
    assert!(squares[3][4] == Piece::Blank);
    assert!(squares[4][0] == Piece::BQueen);
    assert!(squares[5][0] == Piece::BRook);
    assert!(squares[6][0] == Piece::Blank);
    assert!(squares[7][7] == Piece::WRook);
}

#[test]
fn short_placements_leave_squares_empty() {
    let squares = Board::pieces_from_fen(String::from("rn/p")).unwrap();
    assert!(squares[0][0] == Piece::BRook);
    assert!(squares[0][1] == Piece::BKnight);
    assert!(squares[1][0] == Piece::BPawn);
    let mut count = 0;
    for row in squares {
        for piece in row {
            if piece != Piece::Blank {
                count += 1;
            }
        }
    }
    assert_eq!(count, 3);
    let squares = Board::pieces_from_fen(String::new()).unwrap();
    assert!(squares == [[Piece::Blank; 8]; 8]);
    // eight ranks and nothing after the last stroke
    assert!(Board::pieces_from_fen(String::from("8/8/8/8/8/8/8/8/")).is_ok());
    assert!(Board::pieces_from_fen(String::from("8/8/8/8/8/8/8/8/0")).is_ok());
}

#[test]
fn placements_beyond_the_board_are_refused() {
    let texts = [
        "9",
        "pppppppp1",
        "ppppppppp",
        "8p",
        "44p",
        "x8",
        "8/8/8/8/8/8/8/8/p",
        "8/8/8/8/8/8/8/8/1",
        "8/8/8/8/8/8/8/8//x",
    ];
    for text in texts {
        assert!(matches!(Board::pieces_from_fen(String::from(text)), Err(EngineError::InvalidFen)));
        let whole = format!("{} w - - 0 1", text);
        assert!(matches!(Board::from_fen(whole), Err(EngineError::InvalidFen)));
    }
}

#[test]
fn castling_letters() {
    assert_eq!(Board::get_castling(String::from("KQkq")), ['K', 'Q', 'k', 'q']);
    assert_eq!(Board::get_castling(String::from("qkQK")), ['K', 'Q', 'k', 'q']);
    assert_eq!(Board::get_castling(String::from("-")), ['-', '-', '-', '-']);
    assert_eq!(Board::get_castling(String::from("Kq")), ['K', '-', '-', 'q']);
    assert_eq!(Board::get_castling(String::from("QQxk")), ['-', 'Q', 'k', '-']);
    assert_eq!(Board::get_castling(String::new()), ['-', '-', '-', '-']);
}

#[test]
fn en_passant_pairs() {
    assert_eq!(Board::get_en_passant(String::from("-")), ('-', '-'));
    assert_eq!(Board::get_en_passant(String::from("e3")), ('e', '3'));
    assert_eq!(Board::get_en_passant(String::from("a6")), ('a', '6'));
    assert_eq!(Board::get_en_passant(String::from("e")), ('-', '-'));
    assert_eq!(Board::get_en_passant(String::from("e9")), ('-', '-'));
    assert_eq!(Board::get_en_passant(String::from("e33")), ('-', '-'));
}

#[test]
fn active_color() {
    assert!(Board::get_turn("w") == Turn::White);
    assert!(Board::get_turn("b") == Turn::Black);
    assert!(Board::get_turn("B") == Turn::White);
    assert!(Board::get_turn("bb") == Turn::White);
    assert!(Board::get_turn("x") == Turn::White);
}
