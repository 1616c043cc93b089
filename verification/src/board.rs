//! The board: the grid of pieces with its bookkeeping, and what it shows.

use vstd::prelude::*;
use crate::piece::Piece;
use crate::piece::PieceColor;
use crate::piece::coords;
use crate::position::Position;
use crate::position::on_board;

verus! {

/// The side whose turn it is.
#[derive(Copy, Clone, PartialEq, Eq, Structural, Debug)]
pub enum Turn {
    White,
    Black,
}

/// Why an operation was refused.
#[derive(Copy, Clone, PartialEq, Eq, Structural, Debug)]
pub enum EngineError {
    /// The text names no square of the board.
    InvalidSquare,
    /// The side to move may not make the move.
    InvalidMove,
    /// The text is no position.
    InvalidFen,
}

/// A piece with the square it leaves and the square it goes to.
#[derive(Copy, Clone, PartialEq, Eq, Debug)]
pub struct Move {
    pub piece: Piece,
    pub start: (usize, usize),
    pub end: (usize, usize),
}

/// A position. Row 0 of `squares` is rank 8 and column 0 is file a.
/// `can_castle` holds, in the order `K`, `Q`, `k`, `q`, the letter of each
/// right that is held and `-` for each that is not; `en_passant` holds the
/// file and the rank of the target square, or two `-` where there is none.
#[derive(Copy, Clone, Debug)]
pub struct Board {
    pub squares: [[Piece; 8]; 8],
    pub move_number: u32,
    pub to_move: Turn,
    pub can_castle: [char; 4],
    pub half_move: u32,
    pub en_passant: (char, char),
}

impl Turn {
    /// The side's name as a sequence of characters.
    pub open spec fn name(self) -> Seq<char> {
        match self {
            Turn::White => "White"@,
            Turn::Black => "Black"@,
        }
    }

    /// The colour of the side's pieces.
    pub open spec fn color(self) -> PieceColor {
        match self {
            Turn::White => PieceColor::White,
            Turn::Black => PieceColor::Black,
        }
    }

    /// The other side.
    pub open spec fn other(self) -> Turn {
        match self {
            Turn::White => Turn::Black,
            Turn::Black => Turn::White,
        }
    }

    /// The side's name.
    pub fn to_string(&self) -> (s: &'static str)
        ensures
            s@ == self.name(),
    {
        match *self {
            Turn::White => "White",
            Turn::Black => "Black",
        }
    }

    /// The colour of the side's pieces.
    pub fn as_color(&self) -> (c: PieceColor)
        ensures
            c == self.color(),
    {
        match *self {
            Turn::White => PieceColor::White,
            Turn::Black => PieceColor::Black,
        }
    }

    /// The other side.
    pub fn opposite_turn(&self) -> (t: Turn)
        ensures
            t == self.other(),
    {
        match *self {
            Turn::White => Turn::Black,
            Turn::Black => Turn::White,
        }
    }
}

impl View for Board {
    type V = Position;

    open spec fn view(&self) -> Position {
        Position {
            grid: Seq::new(8, |r: int| self.squares@[r]@),
            to_move: self.to_move,
            move_number: self.move_number as nat,
            half_move: self.half_move as nat,
            can_castle: self.can_castle@,
            en_passant: self.en_passant,
        }
    }
}

impl Board {
    /// The starting position, White to move, with every castling right, no
    /// en-passant target and both counters at 0.
    pub fn default() -> (b: Board)
        ensures
            b@ == Position::initial(),
    {
        let b = Board {
            squares: [
                [
                    Piece::BRook,
                    Piece::BKnight,
                    Piece::BBishop,
                    Piece::BQueen,
                    Piece::BKing,
                    Piece::BBishop,
                    Piece::BKnight,
                    Piece::BRook,
                ],
                [Piece::BPawn; 8],
                [Piece::Blank; 8],
                [Piece::Blank; 8],
                [Piece::Blank; 8],
                [Piece::Blank; 8],
                [Piece::WPawn; 8],
                [
                    Piece::WRook,
                    Piece::WKnight,
                    Piece::WBishop,
                    Piece::WQueen,
                    Piece::WKing,
                    Piece::WBishop,
                    Piece::WKnight,
                    Piece::WRook,
                ],
            ],
            move_number: 0,
            to_move: Turn::White,
            can_castle: ['K', 'Q', 'k', 'q'],
            en_passant: ('-', '-'),
            half_move: 0,
        };
        proof {
            let p = Position::initial();
            assert forall|r: int| 0 <= r < 8 implies #[trigger] b@.grid[r] =~= p.grid[r] by {}
            assert(b@.grid =~= p.grid);
            assert(b@.can_castle =~= p.can_castle);
        }
        b
    }

    /// The board as text: eight lines, rank 8 first, each of eight glyphs
    /// and a line feed.
    pub fn to_string(&self) -> (s: String)
        ensures
            s@ == self@.render(),
    {
        let mut s = String::new();
        let mut r: usize = 0;
        while r < 8
            invariant
                r <= 8,
                s@.len() == 9 * r,
                forall|i: int| 0 <= i < s@.len() ==> s@[i] == self@.render()[i],
            decreases 8 - r,
        {
            let mut c: usize = 0;
            while c < 8
                invariant
                    r < 8,
                    c <= 8,
                    s@.len() == 9 * r + c,
                    forall|i: int| 0 <= i < s@.len() ==> s@[i] == self@.render()[i],
                decreases 8 - c,
            {
                s.push(self.squares[r][c].as_char());
                c += 1;
            }
            s.push('\n');
            r += 1;
        }
        assert(s@ =~= self@.render());
        s
    }

    /// Encoding a position as text is not offered: this does nothing.
    #[allow(non_snake_case)]
    pub fn to_FEN(self) {
    }

    /// Whether the counters can take note of a move to `target` without
    /// leaving the range of their type.
    pub open spec fn has_room(&self, target: (usize, usize)) -> bool {
        &&& !self@.occupied(coords(target)) ==> self.half_move < u32::MAX
        &&& self.to_move == Turn::Black ==> self.move_number < u32::MAX
    }

    /// Passes the turn, and counts the move if Black has made it.
    pub fn increment_move(&mut self)
        requires
            old(self).to_move == Turn::Black ==> old(self).move_number < u32::MAX,
        ensures
            final(self)@ == old(self)@.next_turn(),
    {
        if self.to_move == Turn::Black {
            self.move_number += 1;
        }
        self.to_move = self.to_move.opposite_turn();
    }

    /// Castling rights are not tracked across moves: the board stays as it
    /// is.
    pub fn update_castling(
        &mut self,
        piece: Piece,
        location: (usize, usize),
        target: (usize, usize),
    )
        ensures
            *final(self) == *old(self),
    {
    }

    /// The en-passant target is not tracked across moves: the board stays
    /// as it is.
    pub fn update_en_passant(
        &mut self,
        piece: Piece,
        location: (usize, usize),
        target: (usize, usize),
    )
        ensures
            *final(self) == *old(self),
    {
    }

    /// Sets the half-move clock to 0 where a piece was taken, and adds one
    /// to it where none was.
    pub fn update_half_move(&mut self, piece_taken: bool)
        requires
            !piece_taken ==> old(self).half_move < u32::MAX,
        ensures
            final(self)@ == old(self)@.with_clock(piece_taken),
    {
        if piece_taken {
            self.half_move = 0;
        } else {
            self.half_move += 1;
        }
    }

    /// Moves `piece` from `location` to `target` without asking whether it
    /// may.
    pub fn move_piece(&mut self, piece: Piece, location: (usize, usize), target: (usize, usize))
        requires
            on_board(location),
            on_board(target),
            old(self).has_room(target),
        ensures
            final(self)@ == old(self)@.after_move(piece, coords(location), coords(target)),
    {
        let taken = self.squares[target.0][target.1] != Piece::Blank;
        self.update_half_move(taken);
        self.squares[target.0][target.1] = piece;
        self.squares[location.0][location.1] = Piece::Blank;
        self.update_castling(piece, location, target);
        self.update_en_passant(piece, location, target);
        self.increment_move();
        proof {
            let after = old(self)@.after_move(piece, coords(location), coords(target));
            assert forall|r: int| 0 <= r < 8 implies #[trigger] self@.grid[r] =~= after.grid[r] by {}
            assert(self@.grid =~= after.grid);
        }
    }

    /// Makes the move if the side to move may make it, and leaves the board
    /// as it is otherwise.
    pub fn make_move_from_move(&mut self, _move: Move) -> (res: Result<(), EngineError>)
        requires
            on_board(_move.start),
            on_board(_move.end),
            old(self)@.legal(coords(_move.start), coords(_move.end), _move.piece) ==> old(
                self,
            ).has_room(_move.end),
        ensures
            res is Ok <==> old(self)@.legal(coords(_move.start), coords(_move.end), _move.piece),
            res is Ok ==> final(self)@ == old(self)@.after(_move),
            res is Err ==> res->Err_0 == EngineError::InvalidMove && *final(self) == *old(self),
    {
        let location = _move.start;
        let target = _move.end;
        let piece = _move.piece;
        if self.validate_move(location, target, piece) {
            self.move_piece(piece, location, target);
            Ok(())
        } else {
            Err(EngineError::InvalidMove)
        }
    }
}

} // verus!
