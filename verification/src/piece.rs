//! The piece model: kinds, colours, the thirteen piece identities and the
//! movement shape of each kind.

use vstd::prelude::*;
use vstd::string::*;

verus! {

/// The kind of a piece; `Blank` is the kind of an empty square.
#[derive(Copy, Clone, PartialEq, Eq, Structural, Debug)]
pub enum PieceType {
    King,
    Queen,
    Rook,
    Knight,
    Bishop,
    Pawn,
    Blank,
}

/// The colour of a piece; `NoColor` is the colour of an empty square.
#[derive(Copy, Clone, PartialEq, Eq, Structural, Debug)]
pub enum PieceColor {
    White,
    Black,
    NoColor,
}

/// A kind together with a colour.
#[derive(Copy, Clone, PartialEq, Eq, Structural, Debug)]
pub struct PieceObj {
    ptype: PieceType,
    pcolor: PieceColor,
}

/// What a square holds: one of the twelve coloured pieces, or nothing.
#[derive(Copy, Clone, PartialEq, Eq, Structural, Debug)]
pub enum Piece {
    WKing,
    WQueen,
    WRook,
    WKnight,
    WBishop,
    WPawn,
    BKing,
    BQueen,
    BRook,
    BKnight,
    BBishop,
    BPawn,
    Blank,
}

/// The distance between two coordinates.
pub open spec fn dist(a: int, b: int) -> int {
    if a >= b {
        a - b
    } else {
        b - a
    }
}

/// The square seen from the other side of the board: row `r` becomes `7 - r`.
pub open spec fn mirror(pos: (int, int)) -> (int, int) {
    (7 - pos.0, pos.1)
}

/// A rook moves along its row or along its column, and does move.
pub open spec fn rook_shape(start: (int, int), end: (int, int)) -> bool {
    (start.0 == end.0 && start.1 != end.1) || (start.0 != end.0 && start.1 == end.1)
}

/// A bishop moves as many rows as columns, and at least one.
pub open spec fn bishop_shape(start: (int, int), end: (int, int)) -> bool {
    start.0 != end.0 && start.1 != end.1 && dist(start.0, end.0) == dist(start.1, end.1)
}

/// A king moves at most one row and at most one column.
pub open spec fn king_shape(start: (int, int), end: (int, int)) -> bool {
    dist(start.0, end.0) <= 1 && dist(start.1, end.1) <= 1
}

/// A knight moves two rows and one column, or one row and two columns.
pub open spec fn knight_shape(start: (int, int), end: (int, int)) -> bool {
    (dist(start.0, end.0) == 2 && dist(start.1, end.1) == 1) || (dist(start.0, end.0) == 1 && dist(
        start.1,
        end.1,
    ) == 2)
}

/// A pawn that advances towards row 0 stays in its column and moves one row,
/// or two rows from its home row 6. Captures are not part of the shape.
pub open spec fn pawn_shape(start: (int, int), end: (int, int)) -> bool {
    start.1 == end.1 && (end.0 == start.0 - 1 || (start.0 == 6 && end.0 == start.0 - 2))
}

/// The movement shape of each kind, as seen by the side that advances
/// towards row 0. It does not exclude that a king stays where it is.
pub open spec fn shape(kind: PieceType, start: (int, int), end: (int, int)) -> bool {
    match kind {
        PieceType::King => king_shape(start, end),
        PieceType::Queen => rook_shape(start, end) || bishop_shape(start, end),
        PieceType::Rook => rook_shape(start, end),
        PieceType::Knight => knight_shape(start, end),
        PieceType::Bishop => bishop_shape(start, end),
        PieceType::Pawn => pawn_shape(start, end),
        PieceType::Blank => false,
    }
}

/// Whether a piece of this kind and colour may move from `start` to `end` by
/// shape alone. Black pawns and kings are judged on the mirrored board; a
/// move that goes nowhere is never accepted.
pub open spec fn shape_for(
    kind: PieceType,
    color: PieceColor,
    start: (int, int),
    end: (int, int),
) -> bool {
    start != end && if (kind == PieceType::Pawn || kind == PieceType::King) && color
        == PieceColor::Black {
        shape(kind, mirror(start), mirror(end))
    } else {
        shape(kind, start, end)
    }
}

/// A pair of indices as a pair of integers.
pub open spec fn coords(pos: (usize, usize)) -> (int, int) {
    (pos.0 as int, pos.1 as int)
}

/// The distance between two indices.
fn abs_diff(a: usize, b: usize) -> (d: usize)
    ensures
        d == dist(a as int, b as int),
{
    if a >= b {
        a - b
    } else {
        b - a
    }
}

impl PieceColor {
    /// The colour's name as a sequence of characters.
    pub open spec fn name(self) -> Seq<char> {
        match self {
            PieceColor::White => "White"@,
            PieceColor::Black => "Black"@,
            PieceColor::NoColor => "None"@,
        }
    }

    /// The colour's name.
    pub fn as_string(&self) -> (s: String)
        ensures
            s@ == self.name(),
    {
        match *self {
            PieceColor::White => String::from_str("White"),
            PieceColor::Black => String::from_str("Black"),
            PieceColor::NoColor => String::from_str("None"),
        }
    }
}

impl PieceType {
    /// The lower-case letter of the kind, `-` for an empty square.
    pub open spec fn lower(self) -> char {
        match self {
            PieceType::King => 'k',
            PieceType::Queen => 'q',
            PieceType::Rook => 'r',
            PieceType::Knight => 'n',
            PieceType::Bishop => 'b',
            PieceType::Pawn => 'p',
            PieceType::Blank => '-',
        }
    }

    /// The upper-case letter of the kind, `-` for an empty square.
    pub open spec fn upper(self) -> char {
        match self {
            PieceType::King => 'K',
            PieceType::Queen => 'Q',
            PieceType::Rook => 'R',
            PieceType::Knight => 'N',
            PieceType::Bishop => 'B',
            PieceType::Pawn => 'P',
            PieceType::Blank => '-',
        }
    }

    /// The kind's name as a sequence of characters.
    pub open spec fn name(self) -> Seq<char> {
        match self {
            PieceType::King => "King"@,
            PieceType::Queen => "Queen"@,
            PieceType::Rook => "Rook"@,
            PieceType::Knight => "Knight"@,
            PieceType::Bishop => "Bishop"@,
            PieceType::Pawn => "Pawn"@,
            PieceType::Blank => "None"@,
        }
    }

    /// The lower-case letter of the kind.
    pub fn as_char(&self) -> (c: char)
        ensures
            c == self.lower(),
    {
        match *self {
            PieceType::King => 'k',
            PieceType::Queen => 'q',
            PieceType::Rook => 'r',
            PieceType::Knight => 'n',
            PieceType::Bishop => 'b',
            PieceType::Pawn => 'p',
            PieceType::Blank => '-',
        }
    }

    /// The upper-case letter of the kind.
    pub fn as_upper(&self) -> (c: char)
        ensures
            c == self.upper(),
    {
        match *self {
            PieceType::King => 'K',
            PieceType::Queen => 'Q',
            PieceType::Rook => 'R',
            PieceType::Knight => 'N',
            PieceType::Bishop => 'B',
            PieceType::Pawn => 'P',
            PieceType::Blank => '-',
        }
    }

    /// The kind's name.
    pub fn as_string(&self) -> (s: String)
        ensures
            s@ == self.name(),
    {
        match *self {
            PieceType::King => String::from_str("King"),
            PieceType::Queen => String::from_str("Queen"),
            PieceType::Rook => String::from_str("Rook"),
            PieceType::Knight => String::from_str("Knight"),
            PieceType::Bishop => String::from_str("Bishop"),
            PieceType::Pawn => String::from_str("Pawn"),
            PieceType::Blank => String::from_str("None"),
        }
    }

    /// Whether the kind's shape, seen by the side that advances towards
    /// row 0, leads from `start` to `end`.
    pub fn valid_move(&self, start: (usize, usize), end: (usize, usize)) -> (ok: bool)
        ensures
            ok == shape(*self, coords(start), coords(end)),
    {
        let rows: usize = abs_diff(start.0, end.0);
        let cols: usize = abs_diff(start.1, end.1);
        match *self {
            PieceType::King => rows <= 1 && cols <= 1,
            PieceType::Queen => (rows == 0) != (cols == 0) || (rows != 0 && rows == cols),
            PieceType::Rook => (rows == 0) != (cols == 0),
            PieceType::Knight => (rows == 2 && cols == 1) || (rows == 1 && cols == 2),
            PieceType::Bishop => rows != 0 && rows == cols,
            PieceType::Pawn => cols == 0 && start.0 > end.0 && (rows == 1 || (start.0 == 6 && rows
                == 2)),
            PieceType::Blank => false,
        }
    }
}

impl PieceObj {
    /// The kind that the value holds.
    pub closed spec fn kind(self) -> PieceType {
        self.ptype
    }

    /// The colour that the value holds.
    pub closed spec fn color(self) -> PieceColor {
        self.pcolor
    }

    /// Two values of the same kind and colour are the same value.
    pub proof fn lemma_same_parts(a: PieceObj, b: PieceObj)
        requires
            a.kind() == b.kind(),
            a.color() == b.color(),
        ensures
            a == b,
    {
    }

    /// The kind that the value holds.
    pub fn as_type(&self) -> (t: PieceType)
        ensures
            t == self.kind(),
    {
        self.ptype
    }

    /// The colour that the value holds.
    pub fn as_color(&self) -> (c: PieceColor)
        ensures
            c == self.color(),
    {
        self.pcolor
    }

    /// The colour's name, a space, and the kind's name.
    pub fn as_string(&self) -> (s: String)
        ensures
            s@ == self.color().name() + seq![' '] + self.kind().name(),
    {
        let mut s = self.as_color().as_string();
        proof {
            reveal_strlit(" ");
            assert(" "@ =~= seq![' ']);
        }
        s.append(" ");
        let kind = self.as_type().as_string();
        s.append(kind.as_str());
        s
    }

    /// The square seen from the other side of the board.
    pub fn flip(pos: (usize, usize)) -> (res: (usize, usize))
        requires
            pos.0 <= 7,
        ensures
            coords(res) == mirror(coords(pos)),
    {
        (7 - pos.0, pos.1)
    }

    /// Whether the piece may move from `start` to `end` by shape alone.
    pub fn valid_move(&self, start: (usize, usize), end: (usize, usize)) -> (ok: bool)
        requires
            start.0 <= 7,
            end.0 <= 7,
        ensures
            ok == shape_for(self.kind(), self.color(), coords(start), coords(end)),
            start == end ==> !ok,
    {
        if start.0 == end.0 && start.1 == end.1 {
            return false;
        }
        if (self.as_type() == PieceType::Pawn || self.as_type() == PieceType::King)
            && self.as_color() == PieceColor::Black {
            return self.as_type().valid_move(PieceObj::flip(start), PieceObj::flip(end));
        }
        self.as_type().valid_move(start, end)
    }
}

impl Piece {
    /// The kind of the piece.
    pub open spec fn kind(self) -> PieceType {
        match self {
            Piece::WKing | Piece::BKing => PieceType::King,
            Piece::WQueen | Piece::BQueen => PieceType::Queen,
            Piece::WRook | Piece::BRook => PieceType::Rook,
            Piece::WKnight | Piece::BKnight => PieceType::Knight,
            Piece::WBishop | Piece::BBishop => PieceType::Bishop,
            Piece::WPawn | Piece::BPawn => PieceType::Pawn,
            Piece::Blank => PieceType::Blank,
        }
    }

    /// The colour of the piece.
    pub open spec fn color(self) -> PieceColor {
        match self {
            Piece::WKing
            | Piece::WQueen
            | Piece::WRook
            | Piece::WKnight
            | Piece::WBishop
            | Piece::WPawn => PieceColor::White,
            Piece::BKing
            | Piece::BQueen
            | Piece::BRook
            | Piece::BKnight
            | Piece::BBishop
            | Piece::BPawn => PieceColor::Black,
            Piece::Blank => PieceColor::NoColor,
        }
    }

    /// The piece that a character of a placement stands for; a character
    /// that names no piece stands for an empty square.
    pub open spec fn of_char(c: char) -> Piece {
        if c == 'K' {
            Piece::WKing
        } else if c == 'Q' {
            Piece::WQueen
        } else if c == 'R' {
            Piece::WRook
        } else if c == 'N' {
            Piece::WKnight
        } else if c == 'B' {
            Piece::WBishop
        } else if c == 'P' {
            Piece::WPawn
        } else if c == 'p' {
            Piece::BPawn
        } else if c == 'b' {
            Piece::BBishop
        } else if c == 'n' {
            Piece::BKnight
        } else if c == 'r' {
            Piece::BRook
        } else if c == 'q' {
            Piece::BQueen
        } else if c == 'k' {
            Piece::BKing
        } else {
            Piece::Blank
        }
    }

    /// The character that shows the piece: upper case for White, lower case
    /// for Black, `-` for an empty square.
    pub open spec fn glyph(self) -> char {
        if self.color() == PieceColor::White {
            self.kind().upper()
        } else {
            self.kind().lower()
        }
    }

    /// Whether the piece may move from `start` to `end` by shape alone.
    pub open spec fn shape_ok(self, start: (int, int), end: (int, int)) -> bool {
        shape_for(self.kind(), self.color(), start, end)
    }

    /// The kind and the colour of the piece as one value.
    pub fn as_piece(&self) -> (p: PieceObj)
        ensures
            p.kind() == self.kind(),
            p.color() == self.color(),
    {
        match *self {
            Piece::WKing => PieceObj { ptype: PieceType::King, pcolor: PieceColor::White },
            Piece::WQueen => PieceObj { ptype: PieceType::Queen, pcolor: PieceColor::White },
            Piece::WRook => PieceObj { ptype: PieceType::Rook, pcolor: PieceColor::White },
            Piece::WKnight => PieceObj { ptype: PieceType::Knight, pcolor: PieceColor::White },
            Piece::WBishop => PieceObj { ptype: PieceType::Bishop, pcolor: PieceColor::White },
            Piece::WPawn => PieceObj { ptype: PieceType::Pawn, pcolor: PieceColor::White },
            Piece::BKing => PieceObj { ptype: PieceType::King, pcolor: PieceColor::Black },
            Piece::BQueen => PieceObj { ptype: PieceType::Queen, pcolor: PieceColor::Black },
            Piece::BRook => PieceObj { ptype: PieceType::Rook, pcolor: PieceColor::Black },
            Piece::BKnight => PieceObj { ptype: PieceType::Knight, pcolor: PieceColor::Black },
            Piece::BBishop => PieceObj { ptype: PieceType::Bishop, pcolor: PieceColor::Black },
            Piece::BPawn => PieceObj { ptype: PieceType::Pawn, pcolor: PieceColor::Black },
            Piece::Blank => PieceObj { ptype: PieceType::Blank, pcolor: PieceColor::NoColor },
        }
    }

    /// The piece that a character of a placement stands for.
    pub fn from_char(c: char) -> (p: Piece)
        ensures
            p == Piece::of_char(c),
    {
        match c {
            'K' => Piece::WKing,
            'Q' => Piece::WQueen,
            'R' => Piece::WRook,
            'N' => Piece::WKnight,
            'B' => Piece::WBishop,
            'P' => Piece::WPawn,
            'p' => Piece::BPawn,
            'b' => Piece::BBishop,
            'n' => Piece::BKnight,
            'r' => Piece::BRook,
            'q' => Piece::BQueen,
            'k' => Piece::BKing,
            _ => Piece::Blank,
        }
    }

    /// The character that shows the piece.
    pub fn as_char(&self) -> (c: char)
        ensures
            c == self.glyph(),
    {
        if self.as_piece().as_color() == PieceColor::White {
            return self.as_type().as_upper();
        }
        self.as_type().as_char()
    }

    /// The colour's name, a space, and the kind's name.
    pub fn as_string(&self) -> (s: String)
        ensures
            s@ == self.color().name() + seq![' '] + self.kind().name(),
    {
        self.as_piece().as_string()
    }

    /// The colour of the piece.
    pub fn as_color(&self) -> (c: PieceColor)
        ensures
            c == self.color(),
    {
        self.as_piece().as_color()
    }

    /// The kind of the piece.
    pub fn as_type(&self) -> (t: PieceType)
        ensures
            t == self.kind(),
    {
        self.as_piece().as_type()
    }

    /// Whether the piece may move from `start` to `end` by shape alone.
    pub fn valid_move(self, start: (usize, usize), end: (usize, usize)) -> (ok: bool)
        requires
            start.0 <= 7,
            end.0 <= 7,
        ensures
            ok == self.shape_ok(coords(start), coords(end)),
            start == end ==> !ok,
    {
        self.as_piece().valid_move(start, end)
    }
}

/// No piece, of whatever kind and colour, moves by staying where it is.
pub proof fn lemma_no_move_in_place(kind: PieceType, color: PieceColor, pos: (int, int))
    ensures
        !shape_for(kind, color, pos, pos),
{
}

/// The character that shows a piece stands for that piece again.
pub proof fn lemma_glyph_round_trip(p: Piece)
    ensures
        Piece::of_char(p.glyph()) == p,
{
}

/// On the board, a black pawn or king judged on the mirrored board moves as
/// a pawn or king that advances towards row 7: the pawn one row, or two from
/// its home row 1; the king as any king.
pub proof fn lemma_black_orientation(start: (int, int), end: (int, int))
    ensures
        shape_for(PieceType::Pawn, PieceColor::Black, start, end) <==> (start.1 == end.1 && (end.0
            == start.0 + 1 || (start.0 == 1 && end.0 == start.0 + 2))),
        shape_for(PieceType::King, PieceColor::Black, start, end) <==> (start != end && king_shape(
            start,
            end,
        )),
{
}

} // verus!
