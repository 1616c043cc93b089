//! Algebraic notation: squares such as `e4`, and moves such as `e2e4`.

use vstd::prelude::*;
use vstd::string::*;
use crate::board::Board;
use crate::board::EngineError;
use crate::piece::coords;
use crate::position::on_board;

verus! {

/// The column of a file letter: `a` is column 0 and `h` is column 7.
pub open spec fn file_column(c: char) -> Option<usize> {
    if 'a' <= c <= 'h' {
        Some((c as int - 'a' as int) as usize)
    } else {
        None
    }
}

/// The row of a rank digit: `8` is row 0 and `1` is row 7.
pub open spec fn rank_row(c: char) -> Option<usize> {
    if '1' <= c <= '8' {
        Some((7 - (c as int - '1' as int)) as usize)
    } else {
        None
    }
}

/// The row and column of a square written as a file letter and a rank
/// digit, and nothing else; `None` for any other text.
pub open spec fn square_of(text: Seq<char>) -> Option<(usize, usize)> {
    if text.len() == 2 && file_column(text[0]) is Some && rank_row(text[1]) is Some {
        Some((rank_row(text[1])->0, file_column(text[0])->0))
    } else {
        None
    }
}

/// The two squares of a move written as four characters: the square that
/// the piece leaves and the square that it goes to.
pub open spec fn move_of(text: Seq<char>) -> Option<((usize, usize), (usize, usize))> {
    if text.len() == 4 && square_of(text.subrange(0, 2)) is Some && square_of(
        text.subrange(2, 4),
    ) is Some {
        Some((square_of(text.subrange(0, 2))->0, square_of(text.subrange(2, 4))->0))
    } else {
        None
    }
}

/// A text whose first character is no file letter from `a` to `h`, or
/// whose second is no rank digit from `1` to `8`, or that has more or fewer
/// than two characters, names no square.
pub proof fn lemma_bad_square(text: Seq<char>)
    requires
        text.len() != 2 || !('a' <= text[0] <= 'h') || !('1' <= text[1] <= '8'),
    ensures
        square_of(text) is None,
{
}

/// A text of which the first two or the last two characters name no
/// square, or that has more or fewer than four characters, names no move.
pub proof fn lemma_bad_move(text: Seq<char>)
    requires
        text.len() != 4 || square_of(text.subrange(0, 2)) is None || square_of(
            text.subrange(2, 4),
        ) is None,
    ensures
        move_of(text) is None,
{
}

/// A square that a text names lies on the board.
pub proof fn lemma_square_on_board(text: Seq<char>)
    requires
        square_of(text) is Some,
    ensures
        on_board(square_of(text)->0),
{
}

/// The column of a file letter, and `None` for any other character.
fn to_col(c: char) -> (col: Option<usize>)
    ensures
        col == file_column(c),
{
    match c {
        'a' => Some(0),
        'b' => Some(1),
        'c' => Some(2),
        'd' => Some(3),
        'e' => Some(4),
        'f' => Some(5),
        'g' => Some(6),
        'h' => Some(7),
        _ => None,
    }
}

/// The row of a rank digit, and `None` for any other character.
fn to_row(c: char) -> (row: Option<usize>)
    ensures
        row == rank_row(c),
{
    match c {
        '1' => Some(7),
        '2' => Some(6),
        '3' => Some(5),
        '4' => Some(4),
        '5' => Some(3),
        '6' => Some(2),
        '7' => Some(1),
        '8' => Some(0),
        _ => None,
    }
}

impl Board {
    /// The row and column of the square that the text names. A text that is
    /// not a file letter from `a` to `h` followed by a rank digit from `1`
    /// to `8`, or no text at all, is refused.
    pub fn square_to_row_col(square_string: Option<&str>) -> (res: Result<
        (usize, usize),
        EngineError,
    >)
        ensures
            res is Ok <==> square_string is Some && square_of(square_string->0@) is Some,
            res is Ok ==> res->Ok_0 == square_of(square_string->0@)->0,
            res is Err ==> res->Err_0 == EngineError::InvalidSquare,
    {
        match square_string {
            Some(text) => {
                if text.unicode_len() != 2 {
                    return Err(EngineError::InvalidSquare);
                }
                match (to_row(text.get_char(1)), to_col(text.get_char(0))) {
                    (Some(row), Some(col)) => Ok((row, col)),
                    _ => Err(EngineError::InvalidSquare),
                }
            },
            None => Err(EngineError::InvalidSquare),
        }
    }

    /// Makes the move that the text names, with the piece that stands on
    /// its origin. A text that names no two squares is refused as such; a
    /// move that the side to move may not make is refused too; either way
    /// the board stays as it is.
    pub fn make_move_from_string(&mut self, move_string: String) -> (res: Result<(), EngineError>)
        requires
            move_of(move_string@) matches Some((start, end)) ==> (old(self)@.legal(
                coords(start),
                coords(end),
                old(self)@.at(coords(start)),
            ) ==> old(self).has_room(end)),
        ensures
            move_of(move_string@) is None ==> res == Err::<(), EngineError>(
                EngineError::InvalidSquare,
            ),
            move_of(move_string@) matches Some((start, end)) ==> {
                let piece = old(self)@.at(coords(start));
                &&& res is Ok <==> old(self)@.legal(coords(start), coords(end), piece)
                &&& res is Ok ==> final(self)@ == old(self)@.after_move(
                    piece,
                    coords(start),
                    coords(end),
                )
                &&& res is Err ==> res->Err_0 == EngineError::InvalidMove
            },
            res is Err ==> *final(self) == *old(self),
    {
        let text = move_string.as_str();
        if text.unicode_len() != 4 {
            return Err(EngineError::InvalidSquare);
        }
        let location = match Board::square_to_row_col(Some(text.substring_char(0, 2))) {
            Ok(pos) => pos,
            Err(e) => {
                return Err(e);
            },
        };
        let target = match Board::square_to_row_col(Some(text.substring_char(2, 4))) {
            Ok(pos) => pos,
            Err(e) => {
                return Err(e);
            },
        };
        proof {
            lemma_square_on_board(text@.subrange(0, 2));
            lemma_square_on_board(text@.subrange(2, 4));
        }
        let piece = self.squares[location.0][location.1];
        if self.validate_move(location, target, piece) {
            self.move_piece(piece, location, target);
            Ok(())
        } else {
            Err(EngineError::InvalidMove)
        }
    }
}

} // verus!
