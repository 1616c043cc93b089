use chess_engine::piece::{Piece, PieceColor, PieceObj, PieceType};

#[test]
fn test_piece_to_char() {
    let piece = Piece::BKing;
    assert_eq!(piece.as_char(), 'k');
}

#[test]
fn test_flip() {
    let pos = (0, 0);
    assert_eq!(PieceObj::flip(pos), (7, 0));
    let pos = (7, 0);
    assert_eq!(PieceObj::flip(pos), (0, 0))
}

#[test]
fn test_pawn_move() {
    let piece = Piece::BPawn;
    assert_eq!(piece.valid_move((1, 1), (1, 2)), false); // sideways pawn move
    assert_eq!(piece.valid_move((1, 1), (2, 1)), true); // forward pawn move
    assert_eq!(piece.valid_move((1, 1), (3, 1)), true); // double pawn move
    let piece = Piece::WPawn;
    assert_eq!(piece.valid_move((6, 1), (5, 1)), true); // sideways pawn move
    assert_eq!(piece.valid_move((6, 1), (4, 1)), true); // forward pawn move
    assert_eq!(piece.valid_move((6, 1), (3, 1)), false); // double pawn move
}

#[test]
fn test_rook_move() {
    let piece = Piece::BRook;
    assert_eq!(piece.valid_move((1, 1), (1, 5)), true); // sideways move
    assert_eq!(piece.valid_move((1, 1), (7, 1)), true); // forward move
    assert_eq!(piece.valid_move((7, 1), (1, 1)), true); // backwards move
    assert_eq!(piece.valid_move((7, 1), (6, 2)), false); // diagonal move
    assert_eq!(piece.valid_move((7, 1), (5, 2)), false); // knight move
}

#[test]
fn test_bishop_move() {
    let piece = Piece::BBishop;
    assert_eq!(piece.valid_move((1, 1), (1, 5)), false); // sideways move
    assert_eq!(piece.valid_move((1, 1), (7, 1)), false); // forward move
    assert_eq!(piece.valid_move((7, 1), (1, 1)), false); // backwards move
    assert_eq!(piece.valid_move((5, 5), (6, 4)), true); // diagonal move
    assert_eq!(piece.valid_move((5, 5), (4, 4)), true); // diagonal move
    assert_eq!(piece.valid_move((7, 1), (5, 2)), false); // knight move
}

#[test]
fn test_queen_move() {
    let piece = Piece::BQueen;
    assert_eq!(piece.valid_move((1, 1), (1, 5)), true); // sideways move
    assert_eq!(piece.valid_move((1, 1), (7, 1)), true); // forward move
    assert_eq!(piece.valid_move((7, 1), (1, 1)), true); // backwards move
    assert_eq!(piece.valid_move((5, 5), (6, 4)), true); // diagonal move
    assert_eq!(piece.valid_move((5, 5), (4, 4)), true); // diagonal move
    assert_eq!(piece.valid_move((7, 1), (5, 2)), false); // knight move
}

#[test]
fn test_knight_move() {
    let piece = Piece::BKnight;
    assert_eq!(piece.valid_move((1, 1), (1, 5)), false); // sideways move
    assert_eq!(piece.valid_move((1, 1), (7, 1)), false); // forward move
    assert_eq!(piece.valid_move((7, 1), (1, 1)), false); // backwards move
    assert_eq!(piece.valid_move((5, 5), (6, 4)), false); // diagonal move
    assert_eq!(piece.valid_move((5, 5), (4, 4)), false); // diagonal move
    assert_eq!(piece.valid_move((5, 5), (4, 3)), true); // knight move
    assert_eq!(piece.valid_move((5, 5), (6, 3)), true); // knight move
    assert_eq!(piece.valid_move((5, 5), (6, 7)), true); // knight move
    assert_eq!(piece.valid_move((5, 5), (4, 7)), true); // knight move
    assert_eq!(piece.valid_move((5, 5), (7, 4)), true); // knight move
    assert_eq!(piece.valid_move((5, 5), (7, 6)), true); // knight move
    assert_eq!(piece.valid_move((5, 5), (3, 4)), true); // knight move
    assert_eq!(piece.valid_move((5, 5), (3, 6)), true); // knight move
}

#[test]
fn test_king_move() {
    let piece = Piece::BKing;
    assert_eq!(piece.valid_move((1, 1), (1, 5)), false); // sideways move
    assert_eq!(piece.valid_move((1, 1), (7, 1)), false); // forward move
    assert_eq!(piece.valid_move((7, 1), (1, 1)), false); // backwards move
    assert_eq!(piece.valid_move((5, 5), (7, 7)), false); // diagonal move
    assert_eq!(piece.valid_move((5, 5), (3, 7)), false); // diagonal move
    assert_eq!(piece.valid_move((5, 5), (4, 3)), false); // knight move
    assert_eq!(piece.valid_move((5, 5), (6, 3)), false); // knight move
    assert_eq!(piece.valid_move((5, 5), (4, 5)), true); // 1 space
    assert_eq!(piece.valid_move((5, 5), (4, 4)), true); // 1 space
    assert_eq!(piece.valid_move((5, 5), (5, 4)), true); // 1 space
}

const ALL_PIECES: [Piece; 13] = [
    Piece::WKing,
    Piece::WQueen,
    Piece::WRook,
    Piece::WKnight,
    Piece::WBishop,
    Piece::WPawn,
    Piece::BKing,
    Piece::BQueen,
    Piece::BRook,
    Piece::BKnight,
    Piece::BBishop,
    Piece::BPawn,
    Piece::Blank,
];

#[test]
fn no_piece_moves_in_place() {
    for piece in ALL_PIECES {
        for row in 0..8 {
            for col in 0..8 {
                assert!(!piece.valid_move((row, col), (row, col)));
                assert!(!piece.as_piece().valid_move((row, col), (row, col)));
            }
        }
    }
}

#[test]
fn blank_never_moves() {
    for row in 0..8 {
        for col in 0..8 {
            assert!(!Piece::Blank.valid_move((3, 3), (row, col)));
            assert!(!PieceType::Blank.valid_move((3, 3), (row, col)));
        }
    }
}

#[test]
fn kind_shape_allows_king_in_place() {
    // The table by kind is symmetric for the king and leaves the move in
    // place to the piece-level test.
    assert!(PieceType::King.valid_move((4, 4), (4, 4)));
    assert!(!PieceType::Queen.valid_move((4, 4), (4, 4)));
    assert!(!PieceType::Pawn.valid_move((4, 4), (4, 4)));
}

#[test]
fn pawn_direction_depends_on_color() {
    assert!(Piece::WPawn.valid_move((4, 2), (3, 2)));
    assert!(!Piece::WPawn.valid_move((4, 2), (5, 2)));
    assert!(Piece::BPawn.valid_move((4, 2), (5, 2)));
    assert!(!Piece::BPawn.valid_move((4, 2), (3, 2)));
    // the double step only from the home row
    assert!(!Piece::WPawn.valid_move((5, 2), (3, 2)));
    assert!(!Piece::BPawn.valid_move((2, 2), (4, 2)));
    // no diagonal step
    assert!(!Piece::WPawn.valid_move((6, 2), (5, 3)));
    assert!(!Piece::BPawn.valid_move((1, 2), (2, 1)));
    // a white pawn on the last row has nowhere to go
    assert!(!Piece::WPawn.valid_move((0, 2), (0, 3)));
    assert!(!Piece::WPawn.valid_move((0, 2), (1, 2)));
    assert!(!Piece::BPawn.valid_move((7, 2), (6, 2)));
}

#[test]
fn kind_table_is_white_oriented() {
    assert!(PieceType::Pawn.valid_move((6, 0), (4, 0)));
    assert!(PieceType::Pawn.valid_move((3, 0), (2, 0)));
    assert!(!PieceType::Pawn.valid_move((3, 0), (4, 0)));
    assert!(!PieceType::Pawn.valid_move((0, 0), (0, 0)));
    assert!(PieceType::Rook.valid_move((0, 0), (0, 7)));
    assert!(PieceType::Bishop.valid_move((0, 0), (7, 7)));
    assert!(PieceType::Knight.valid_move((0, 0), (2, 1)));
    assert!(PieceType::Queen.valid_move((0, 0), (7, 7)));
    assert!(!PieceType::Queen.valid_move((0, 0), (2, 1)));
}

#[test]
fn glyphs_and_characters() {
    let glyphs = ['K', 'Q', 'R', 'N', 'B', 'P', 'k', 'q', 'r', 'n', 'b', 'p', '-'];
    for (piece, glyph) in ALL_PIECES.iter().zip(glyphs.iter()) {
        assert_eq!(piece.as_char(), *glyph);
        assert!(Piece::from_char(*glyph) == *piece);
    }
    assert!(Piece::from_char('x') == Piece::Blank);
    assert!(Piece::from_char('8') == Piece::Blank);
    assert_eq!(PieceType::Knight.as_char(), 'n');
    assert_eq!(PieceType::Knight.as_upper(), 'N');
    assert_eq!(PieceType::Blank.as_char(), '-');
    assert_eq!(PieceType::Blank.as_upper(), '-');
}

#[test]
fn names() {
    assert_eq!(PieceColor::White.as_string(), "White");
    assert_eq!(PieceColor::Black.as_string(), "Black");
    assert_eq!(PieceColor::NoColor.as_string(), "None");
    assert_eq!(PieceType::King.as_string(), "King");
    assert_eq!(PieceType::Queen.as_string(), "Queen");
    assert_eq!(PieceType::Rook.as_string(), "Rook");
    assert_eq!(PieceType::Knight.as_string(), "Knight");
    assert_eq!(PieceType::Bishop.as_string(), "Bishop");
    assert_eq!(PieceType::Pawn.as_string(), "Pawn");
    assert_eq!(PieceType::Blank.as_string(), "None");
    assert_eq!(Piece::WQueen.as_string(), "White Queen");
    assert_eq!(Piece::BPawn.as_piece().as_string(), "Black Pawn");
    assert_eq!(Piece::Blank.as_string(), "None None");
}

#[test]
fn kinds_and_colors() {
    assert!(Piece::WRook.as_type() == PieceType::Rook);
    assert!(Piece::WRook.as_color() == PieceColor::White);
    assert!(Piece::BBishop.as_type() == PieceType::Bishop);
    assert!(Piece::BBishop.as_color() == PieceColor::Black);
    assert!(Piece::Blank.as_type() == PieceType::Blank);
    assert!(Piece::Blank.as_color() == PieceColor::NoColor);
    let obj = Piece::BKnight.as_piece();
    assert!(obj.as_type() == PieceType::Knight);
    assert!(obj.as_color() == PieceColor::Black);
    assert!(obj == Piece::BKnight.as_piece());
    assert!(obj != Piece::WKnight.as_piece());
}

#[test]
fn flip_mirrors_rows_only() {
    assert_eq!(PieceObj::flip((3, 5)), (4, 5));
    assert_eq!(PieceObj::flip((6, 2)), (1, 2));
    for row in 0..8 {
        for col in 0..8 {
            assert_eq!(PieceObj::flip(PieceObj::flip((row, col))), (row, col));
        }
    }
}
