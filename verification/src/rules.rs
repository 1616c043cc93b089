//! The rules of movement on a board: what stands in a piece's way, and
//! whether the side to move may make a move.

use vstd::prelude::*;
use crate::board::Board;
use crate::piece::Piece;
use crate::piece::PieceType;
use crate::piece::coords;
use crate::piece::dist;
use crate::position::Position;
use crate::position::inside;
use crate::position::on_board;

verus! {

/// The coordinate reached from `a` after `k` unit steps towards `b`.
pub open spec fn toward(a: int, b: int, k: int) -> int {
    if b > a {
        a + k
    } else if b < a {
        a - k
    } else {
        a
    }
}

/// The number of unit steps from one square to another: the larger of the
/// two distances.
pub open spec fn span(start: (int, int), end: (int, int)) -> int {
    if dist(start.0, end.0) >= dist(start.1, end.1) {
        dist(start.0, end.0)
    } else {
        dist(start.1, end.1)
    }
}

/// Two squares are aligned when a row, a column or a diagonal joins them.
pub open spec fn aligned(start: (int, int), end: (int, int)) -> bool {
    start.0 == end.0 || start.1 == end.1 || dist(start.0, end.0) == dist(start.1, end.1)
}

/// The square reached from `start` after `k` unit steps towards `end`.
pub open spec fn step(start: (int, int), end: (int, int), k: int) -> (int, int) {
    (toward(start.0, end.0, k), toward(start.1, end.1, k))
}

/// The squares strictly between two aligned squares, from the one next to
/// `start` to the one before `end`.
pub open spec fn path(start: (int, int), end: (int, int)) -> Seq<(int, int)> {
    if span(start, end) <= 1 {
        Seq::empty()
    } else {
        Seq::new((span(start, end) - 1) as nat, |i: int| step(start, end, i + 1))
    }
}

impl Position {
    /// Whether something stands in the way of a piece that goes from `start`
    /// to `end`. A knight is stopped by any piece on the square it goes to;
    /// every other piece by any piece on a square strictly between the two,
    /// whatever stands on the square it goes to.
    pub open spec fn blocked(self, start: (int, int), end: (int, int), piece: Piece) -> bool {
        if piece.kind() == PieceType::Knight {
            self.occupied(end)
        } else {
            exists|i: int|
                0 <= i < path(start, end).len() && self.occupied(#[trigger] path(start, end)[i])
        }
    }

    /// Whether the side to move may move `piece` from `start` to `end`: a
    /// piece stands on `start`, `piece` is of the side to move, its shape
    /// leads from `start` to `end`, and nothing is in its way.
    pub open spec fn legal(self, start: (int, int), end: (int, int), piece: Piece) -> bool {
        &&& self.occupied(start)
        &&& piece.color() == self.to_move.color()
        &&& piece.shape_ok(start, end)
        &&& !self.blocked(start, end, piece)
    }
}

/// Every square between two aligned squares of the board is on the board.
pub proof fn lemma_path_inside(start: (int, int), end: (int, int), i: int)
    requires
        inside(start),
        inside(end),
        aligned(start, end),
        0 <= i < path(start, end).len(),
    ensures
        inside(path(start, end)[i]),
{
}

/// Unless it is a knight, a piece whose shape leads from one square to
/// another moves along a row, a column or a diagonal.
pub proof fn lemma_shape_aligned(piece: Piece, start: (int, int), end: (int, int))
    requires
        piece.shape_ok(start, end),
        piece.kind() != PieceType::Knight,
    ensures
        aligned(start, end),
{
}

/// No move leaves an empty square.
pub proof fn lemma_empty_origin_refused(
    p: Position,
    start: (int, int),
    end: (int, int),
    piece: Piece,
)
    requires
        !p.occupied(start),
    ensures
        !p.legal(start, end, piece),
{
}

/// No piece moves but one of the side to move.
pub proof fn lemma_other_side_refused(
    p: Position,
    start: (int, int),
    end: (int, int),
    piece: Piece,
)
    requires
        piece.color() != p.to_move.color(),
    ensures
        !p.legal(start, end, piece),
{
}

/// No piece moves against its shape.
pub proof fn lemma_wrong_shape_refused(
    p: Position,
    start: (int, int),
    end: (int, int),
    piece: Piece,
)
    requires
        !piece.shape_ok(start, end),
    ensures
        !p.legal(start, end, piece),
{
}

/// No piece but a knight moves across an occupied square.
pub proof fn lemma_crossing_refused(
    p: Position,
    start: (int, int),
    end: (int, int),
    piece: Piece,
    i: int,
)
    requires
        piece.kind() != PieceType::Knight,
        0 <= i < path(start, end).len(),
        p.occupied(path(start, end)[i]),
    ensures
        !p.legal(start, end, piece),
{
}

/// No knight moves onto an occupied square.
pub proof fn lemma_knight_landing_refused(p: Position, start: (int, int), end: (int, int), piece: Piece)
    requires
        piece.kind() == PieceType::Knight,
        p.occupied(end),
    ensures
        !p.legal(start, end, piece),
{
}

/// The squares between two aligned squares are those that lie on the line
/// from the one to the other, `k` steps from `start` for each `k` from 1
/// to one less than the number of steps between the two.
pub proof fn lemma_path_squares(start: (int, int), end: (int, int), k: int)
    requires
        aligned(start, end),
        1 <= k < span(start, end),
    ensures
        path(start, end).len() == span(start, end) - 1,
        path(start, end)[k - 1] == step(start, end, k),
        step(start, end, span(start, end)) == end,
        dist(start.0, step(start, end, k).0) + dist(step(start, end, k).0, end.0) == dist(
            start.0,
            end.0,
        ),
        dist(start.1, step(start, end, k).1) + dist(step(start, end, k).1, end.1) == dist(
            start.1,
            end.1,
        ),
{
}

impl Board {
    /// Whether a piece stands on the square.
    pub fn is_occupied(self, target: (usize, usize)) -> (full: bool)
        requires
            on_board(target),
        ensures
            full == self@.occupied(coords(target)),
    {
        self.squares[target.0][target.1] != Piece::Blank
    }

    /// The squares strictly between two aligned squares, in the order in
    /// which a piece that leaves `start` crosses them.
    pub fn get_path(start: (usize, usize), target: (usize, usize)) -> (squares: Vec<(usize, usize)>)
        requires
            aligned(coords(start), coords(target)),
        ensures
            squares@.len() == path(coords(start), coords(target)).len(),
            forall|i: int|
                0 <= i < squares@.len() ==> coords(#[trigger] squares@[i]) == path(
                    coords(start),
                    coords(target),
                )[i],
    {
        let rows: usize = if start.0 >= target.0 {
            start.0 - target.0
        } else {
            target.0 - start.0
        };
        let cols: usize = if start.1 >= target.1 {
            start.1 - target.1
        } else {
            target.1 - start.1
        };
        let steps: usize = if rows >= cols {
            rows
        } else {
            cols
        };
        let mut squares: Vec<(usize, usize)> = Vec::new();
        let mut k: usize = 1;
        while k < steps
            invariant
                1 <= k,
                aligned(coords(start), coords(target)),
                steps == span(coords(start), coords(target)),
                squares@.len() == k - 1,
                k <= steps || squares@.len() == 0,
                forall|i: int|
                    0 <= i < squares@.len() ==> coords(#[trigger] squares@[i]) == step(
                        coords(start),
                        coords(target),
                        i + 1,
                    ),
            decreases steps - k,
        {
            let row: usize = if target.0 > start.0 {
                start.0 + k
            } else if target.0 < start.0 {
                start.0 - k
            } else {
                start.0
            };
            let col: usize = if target.1 > start.1 {
                start.1 + k
            } else if target.1 < start.1 {
                start.1 - k
            } else {
                start.1
            };
            squares.push((row, col));
            k += 1;
        }
        squares
    }

    /// Whether something stands in the way of `piece` between `start` and
    /// `target`.
    pub fn piece_in_path(self, start: (usize, usize), target: (usize, usize), piece: Piece) -> (hit:
        bool)
        requires
            on_board(start),
            on_board(target),
            piece.kind() != PieceType::Knight ==> aligned(coords(start), coords(target)),
        ensures
            hit == self@.blocked(coords(start), coords(target), piece),
    {
        if piece.as_type() == PieceType::Knight {
            return self.is_occupied(target);
        }
        let line = Board::get_path(start, target);
        let mut i: usize = 0;
        while i < line.len()
            invariant
                i <= line@.len(),
                piece.kind() != PieceType::Knight,
                on_board(start),
                on_board(target),
                aligned(coords(start), coords(target)),
                line@.len() == path(coords(start), coords(target)).len(),
                forall|j: int|
                    0 <= j < line@.len() ==> coords(#[trigger] line@[j]) == path(
                        coords(start),
                        coords(target),
                    )[j],
                forall|j: int|
                    0 <= j < i ==> !self@.occupied(#[trigger] path(coords(start), coords(target))[j]),
            decreases line@.len() - i,
        {
            let pos = line[i];
            proof {
                lemma_path_inside(coords(start), coords(target), i as int);
            }
            if self.is_occupied(pos) {
                assert(self@.occupied(path(coords(start), coords(target))[i as int]));
                return true;
            }
            i += 1;
        }
        false
    }

    /// Whether the side to move may move `piece` from `start` to `target`.
    pub fn validate_move(self, start: (usize, usize), target: (usize, usize), piece: Piece) -> (ok:
        bool)
        requires
            on_board(start),
            on_board(target),
        ensures
            ok == self@.legal(coords(start), coords(target), piece),
    {
        if !self.is_occupied(start) {
            return false;
        }
        if self.to_move.as_color() != piece.as_color() {
            return false;
        }
        if !piece.valid_move(start, target) {
            return false;
        }
        proof {
            if piece.kind() != PieceType::Knight {
                lemma_shape_aligned(piece, coords(start), coords(target));
            }
        }
        if self.piece_in_path(start, target, piece) {
            return false;
        }
        true
    }
}

} // verus!
