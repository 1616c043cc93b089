//! The mathematical model of a board, and what a move makes of it.

use vstd::prelude::*;
use crate::board::Move;
use crate::board::Turn;
use crate::notation::square_of;
use crate::piece::Piece;
use crate::piece::coords;

verus! {

/// What a board holds, as plain mathematical values: the grid as eight rows
/// of eight pieces, the side to move, the two counters, the four castling
/// letters and the en-passant pair.
pub struct Position {
    pub grid: Seq<Seq<Piece>>,
    pub to_move: Turn,
    pub move_number: nat,
    pub half_move: nat,
    pub can_castle: Seq<char>,
    pub en_passant: (char, char),
}

/// The piece that stands on a square of the starting position.
pub open spec fn initial_piece(pos: (int, int)) -> Piece {
    if pos.0 == 1 {
        Piece::BPawn
    } else if pos.0 == 6 {
        Piece::WPawn
    } else if pos.0 == 0 {
        if pos.1 == 0 || pos.1 == 7 {
            Piece::BRook
        } else if pos.1 == 1 || pos.1 == 6 {
            Piece::BKnight
        } else if pos.1 == 2 || pos.1 == 5 {
            Piece::BBishop
        } else if pos.1 == 3 {
            Piece::BQueen
        } else {
            Piece::BKing
        }
    } else if pos.0 == 7 {
        if pos.1 == 0 || pos.1 == 7 {
            Piece::WRook
        } else if pos.1 == 1 || pos.1 == 6 {
            Piece::WKnight
        } else if pos.1 == 2 || pos.1 == 5 {
            Piece::WBishop
        } else if pos.1 == 3 {
            Piece::WQueen
        } else {
            Piece::WKing
        }
    } else {
        Piece::Blank
    }
}

/// A square lies on the board when its row and its column are below 8.
pub open spec fn on_board(pos: (usize, usize)) -> bool {
    pos.0 < 8 && pos.1 < 8
}

/// A square given by two integers lies on the board.
pub open spec fn inside(pos: (int, int)) -> bool {
    0 <= pos.0 < 8 && 0 <= pos.1 < 8
}

impl Position {
    /// The grid has eight rows of eight squares, and there are four
    /// castling letters.
    pub open spec fn wf(self) -> bool {
        &&& self.grid.len() == 8
        &&& forall|r: int| 0 <= r < 8 ==> (#[trigger] self.grid[r]).len() == 8
        &&& self.can_castle.len() == 4
    }

    /// The piece on a square.
    pub open spec fn at(self, pos: (int, int)) -> Piece {
        self.grid[pos.0][pos.1]
    }

    /// Whether a piece stands on a square.
    pub open spec fn occupied(self, pos: (int, int)) -> bool {
        self.at(pos) != Piece::Blank
    }

    /// Whether a castling right is held: right 0 is White's on the king's
    /// side, 1 White's on the queen's side, 2 and 3 are Black's.
    pub open spec fn may_castle(self, right: int) -> bool {
        self.can_castle[right] != '-'
    }

    /// The en-passant target, if there is one.
    pub open spec fn en_passant_square(self) -> Option<(usize, usize)> {
        square_of(seq![self.en_passant.0, self.en_passant.1])
    }

    /// The starting position.
    pub open spec fn initial() -> Position {
        Position {
            grid: Seq::new(8, |r: int| Seq::new(8, |c: int| initial_piece((r, c)))),
            to_move: Turn::White,
            move_number: 0,
            half_move: 0,
            can_castle: seq!['K', 'Q', 'k', 'q'],
            en_passant: ('-', '-'),
        }
    }

    /// The board as text: eight lines, rank 8 first, each of eight glyphs
    /// and a line feed.
    pub open spec fn render(self) -> Seq<char> {
        Seq::new(
            72,
            |i: int|
                if i % 9 == 8 {
                    '\n'
                } else {
                    self.at((i / 9, i % 9)).glyph()
                },
        )
    }

    /// The position with `piece` on the square `pos`.
    pub open spec fn put(self, pos: (int, int), piece: Piece) -> Position {
        Position { grid: self.grid.update(pos.0, self.grid[pos.0].update(pos.1, piece)), ..self }
    }

    /// The position after the half-move clock has taken note of a move:
    /// back to 0 where a piece was taken, one more where none was.
    pub open spec fn with_clock(self, taken: bool) -> Position {
        Position {
            half_move: if taken {
                0
            } else {
                self.half_move + 1
            },
            ..self
        }
    }

    /// The position once the side to move has moved: the other side is to
    /// move, and the move number has grown by one if Black has moved.
    pub open spec fn next_turn(self) -> Position {
        Position {
            move_number: if self.to_move == Turn::Black {
                self.move_number + 1
            } else {
                self.move_number
            },
            to_move: self.to_move.other(),
            ..self
        }
    }

    /// The position after `piece` has gone from `start` to `end`: the clock
    /// notes whether `end` was occupied, `piece` stands on `end`, `start`
    /// is empty, and the turn has passed. Castling rights and the
    /// en-passant target stay as they were.
    pub open spec fn after_move(self, piece: Piece, start: (int, int), end: (int, int)) -> Position {
        self.with_clock(self.occupied(end)).put(end, piece).put(start, Piece::Blank).next_turn()
    }

    /// The position after a move has been made.
    pub open spec fn after(self, m: Move) -> Position {
        self.after_move(m.piece, coords(m.start), coords(m.end))
    }

}

/// A move changes the square it leaves, which becomes empty, and the
/// square it goes to, which takes the piece, and no other square. Where the
/// two are one square, that square becomes empty.
pub proof fn lemma_after_move_squares(
    p: Position,
    piece: Piece,
    start: (int, int),
    end: (int, int),
    q: (int, int),
)
    requires
        p.wf(),
        inside(start),
        inside(end),
        inside(q),
    ensures
        p.after_move(piece, start, end).wf(),
        p.after_move(piece, start, end).at(q) == if q == start {
            Piece::Blank
        } else if q == end {
            piece
        } else {
            p.at(q)
        },
{
}

/// A move passes the turn, counts as a full move when Black has made it,
/// and sets the half-move clock to 0 when it takes a piece and one higher
/// when it takes none. It leaves the castling letters and the en-passant
/// pair as they are.
pub proof fn lemma_after_move_bookkeeping(
    p: Position,
    piece: Piece,
    start: (int, int),
    end: (int, int),
)
    ensures
        p.after_move(piece, start, end).to_move == p.to_move.other(),
        p.after_move(piece, start, end).move_number == p.move_number + if p.to_move
            == Turn::Black {
            1nat
        } else {
            0nat
        },
        p.after_move(piece, start, end).half_move == if p.occupied(end) {
            0
        } else {
            p.half_move + 1
        },
        p.after_move(piece, start, end).can_castle == p.can_castle,
        p.after_move(piece, start, end).en_passant == p.en_passant,
{
}

} // verus!
