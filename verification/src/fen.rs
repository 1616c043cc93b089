//! The FEN decoder: a position from its six fields of text.

use vstd::prelude::*;
use vstd::string::*;
use crate::board::Board;
use crate::board::EngineError;
use crate::board::Turn;
use crate::notation::square_of;
use crate::piece::Piece;
use crate::position::Position;
use crate::text::chars_of;

verus! {

/// The characters that part the fields: those that Unicode calls white
/// space.
pub open spec fn is_space(c: char) -> bool {
    let n = c as int;
    ||| 0x09 <= n <= 0x0d
    ||| n == 0x20
    ||| n == 0x85
    ||| n == 0xa0
    ||| n == 0x1680
    ||| 0x2000 <= n <= 0x200a
    ||| n == 0x2028
    ||| n == 0x2029
    ||| n == 0x202f
    ||| n == 0x205f
    ||| n == 0x3000
}

/// The value of a decimal digit.
pub open spec fn digit_of(c: char) -> Option<nat> {
    if '0' <= c <= '9' {
        Some((c as int - '0' as int) as nat)
    } else {
        None
    }
}

/// What has been read of a text so far: the fields that have ended, and the
/// characters of the field that has not.
pub open spec fn scan_fields(text: Seq<char>) -> (Seq<Seq<char>>, Seq<char>)
    decreases text.len(),
{
    if text.len() == 0 {
        (Seq::empty(), Seq::empty())
    } else {
        let (done, open) = scan_fields(text.drop_last());
        if !is_space(text.last()) {
            (done, open.push(text.last()))
        } else if open.len() > 0 {
            (done.push(open), Seq::empty())
        } else {
            (done, open)
        }
    }
}

/// The fields of a text: its longest runs of characters that are not white
/// space, in order.
pub open spec fn fields(text: Seq<char>) -> Seq<Seq<char>> {
    let (done, open) = scan_fields(text);
    if open.len() > 0 {
        done.push(open)
    } else {
        done
    }
}

/// The parts of a text between its occurrences of `/`: one more than there
/// are occurrences.
pub open spec fn ranks(text: Seq<char>) -> Seq<Seq<char>>
    decreases text.len(),
{
    if text.len() == 0 {
        seq![Seq::empty()]
    } else {
        let before = ranks(text.drop_last());
        if text.last() == '/' {
            before.push(Seq::empty())
        } else {
            before.update(before.len() - 1, before.last().push(text.last()))
        }
    }
}

/// A word: at least one character, none of them white space.
pub open spec fn is_word(text: Seq<char>) -> bool {
    text.len() > 0 && forall|j: int| 0 <= j < text.len() ==> !is_space(#[trigger] text[j])
}

/// While a text is read, every field that has ended is a word, and the
/// field that has not holds no white space.
proof fn lemma_scan_fields(text: Seq<char>)
    ensures
        forall|i: int|
            0 <= i < scan_fields(text).0.len() ==> is_word(#[trigger] scan_fields(text).0[i]),
        forall|j: int|
            0 <= j < scan_fields(text).1.len() ==> !is_space(#[trigger] scan_fields(text).1[j]),
    decreases text.len(),
{
    if text.len() > 0 {
        lemma_scan_fields(text.drop_last());
        let before = scan_fields(text.drop_last());
        let now = scan_fields(text);
        if !is_space(text.last()) {
            assert(now == (before.0, before.1.push(text.last())));
            assert forall|j: int| 0 <= j < now.1.len() implies !is_space(#[trigger] now.1[j]) by {
                if j < before.1.len() {
                    assert(now.1[j] == before.1[j]);
                }
            }
        } else if before.1.len() > 0 {
            assert(now == (before.0.push(before.1), Seq::<char>::empty()));
            assert forall|i: int| 0 <= i < now.0.len() implies is_word(#[trigger] now.0[i]) by {
                if i < before.0.len() {
                    assert(now.0[i] == before.0[i]);
                } else {
                    assert(now.0[i] == before.1);
                }
            }
        } else {
            assert(now == before);
        }
    }
}

/// Every field of a text is a word.
pub proof fn lemma_fields_are_words(text: Seq<char>, i: int)
    requires
        0 <= i < fields(text).len(),
    ensures
        is_word(fields(text)[i]),
{
    lemma_scan_fields(text);
}

/// A text without white space is its own single field, unless it is empty.
pub proof fn lemma_word_is_field(text: Seq<char>)
    requires
        is_word(text),
    ensures
        fields(text) == seq![text],
{
    lemma_scan_word(text);
    assert(fields(text) =~= seq![text]);
}

/// While a text without white space is read, no field ends.
proof fn lemma_scan_word(text: Seq<char>)
    requires
        forall|j: int| 0 <= j < text.len() ==> !is_space(#[trigger] text[j]),
    ensures
        scan_fields(text) == (Seq::<Seq<char>>::empty(), text),
    decreases text.len(),
{
    if text.len() > 0 {
        lemma_scan_word(text.drop_last());
        assert(text.drop_last().push(text.last()) =~= text);
    } else {
        assert(text =~= Seq::empty());
    }
}

/// Between its strokes, no part of a text holds a stroke.
pub proof fn lemma_ranks_hold_no_stroke(text: Seq<char>)
    ensures
        ranks(text).len() >= 1,
        forall|r: int, j: int|
            #![trigger ranks(text)[r][j]]
            0 <= r < ranks(text).len() && 0 <= j < ranks(text)[r].len() ==> ranks(text)[r][j]
                != '/',
    decreases text.len(),
{
    if text.len() > 0 {
        lemma_ranks_hold_no_stroke(text.drop_last());
    }
}

/// A text without a stroke is its own single part.
pub proof fn lemma_rank_alone(text: Seq<char>)
    requires
        forall|j: int| 0 <= j < text.len() ==> #[trigger] text[j] != '/',
    ensures
        ranks(text) == seq![text],
    decreases text.len(),
{
    if text.len() > 0 {
        lemma_rank_alone(text.drop_last());
        assert(text.drop_last().push(text.last()) =~= text);
        assert(ranks(text) =~= seq![text]);
    } else {
        assert(text =~= Seq::empty());
    }
}

/// The squares that one character of a rank fills: a digit as many empty
/// squares as it says, any other character the one square of the piece it
/// stands for.
pub open spec fn squares_of(c: char) -> Seq<Piece> {
    match digit_of(c) {
        Some(n) => Seq::new(n, |i: int| Piece::Blank),
        None => seq![Piece::of_char(c)],
    }
}

/// The squares that a rank fills, from column 0 on.
pub open spec fn expand(rank: Seq<char>) -> Seq<Piece>
    decreases rank.len(),
{
    if rank.len() == 0 {
        Seq::empty()
    } else {
        expand(rank.drop_last()) + squares_of(rank.last())
    }
}

/// A placement fits the board when each of its first eight ranks fills at
/// most eight squares and any further rank fills none.
pub open spec fn placement_fits(text: Seq<char>) -> bool {
    forall|r: int|
        0 <= r < ranks(text).len() ==> (#[trigger] expand(ranks(text)[r])).len() <= if r < 8 {
            8nat
        } else {
            0nat
        }
}

/// The grid that a placement describes: rank by rank from row 0, each from
/// column 0, and empty wherever the placement fills nothing.
pub open spec fn placement_grid(text: Seq<char>) -> Seq<Seq<Piece>> {
    Seq::new(
        8,
        |r: int|
            Seq::new(
                8,
                |c: int|
                    if r < ranks(text).len() && c < expand(ranks(text)[r]).len() {
                        expand(ranks(text)[r])[c]
                    } else {
                        Piece::Blank
                    },
            ),
    )
}

/// The number that a row of decimal digits writes.
pub open spec fn digits_value(text: Seq<char>) -> nat
    decreases text.len(),
{
    if text.len() == 0 {
        0
    } else {
        digits_value(text.drop_last()) * 10 + match digit_of(text.last()) {
            Some(d) => d,
            None => 0,
        }
    }
}

/// Whether every character is a decimal digit.
pub open spec fn all_digits(text: Seq<char>) -> bool {
    forall|i: int| 0 <= i < text.len() ==> digit_of(#[trigger] text[i]) is Some
}

/// The digits of a counter: the text without the `+` that may stand before
/// them.
pub open spec fn unsigned(text: Seq<char>) -> Seq<char> {
    if text.len() > 0 && text[0] == '+' {
        text.skip(1)
    } else {
        text
    }
}

/// The counter that a text writes: at least one decimal digit, with or
/// without a `+` before them, and a value that 32 bits hold.
pub open spec fn counter_of(text: Seq<char>) -> Option<u32> {
    let digits = unsigned(text);
    if digits.len() > 0 && all_digits(digits) && digits_value(digits) <= u32::MAX {
        Some(digits_value(digits) as u32)
    } else {
        None
    }
}

/// The side that the second field names: `b` is Black, anything else
/// White.
pub open spec fn turn_of(text: Seq<char>) -> Turn {
    if text =~= seq!['b'] {
        Turn::Black
    } else {
        Turn::White
    }
}

/// The castling letters of the third field: each of `K`, `Q`, `k`, `q` in
/// its place if the field holds it, and `-` in its place if not.
pub open spec fn castling_of(text: Seq<char>) -> Seq<char> {
    seq![
        if text.contains('K') {
            'K'
        } else {
            '-'
        },
        if text.contains('Q') {
            'Q'
        } else {
            '-'
        },
        if text.contains('k') {
            'k'
        } else {
            '-'
        },
        if text.contains('q') {
            'q'
        } else {
            '-'
        },
    ]
}

/// The en-passant pair of the fourth field: the file and the rank of the
/// square it names, and two `-` where it names none.
pub open spec fn en_passant_of(text: Seq<char>) -> (char, char) {
    if square_of(text) is Some {
        (text[0], text[1])
    } else {
        ('-', '-')
    }
}

/// The position that a text describes, if it describes one: it has at
/// least six fields, the first is a placement that fits the board, and the
/// fifth and the sixth are counters. Fields after the sixth are not read.
pub open spec fn fen_position(text: Seq<char>) -> Option<Position> {
    let f = fields(text);
    if f.len() >= 6 && placement_fits(f[0]) && counter_of(f[4]) is Some && counter_of(f[5]) is Some {
        Some(
            Position {
                grid: placement_grid(f[0]),
                to_move: turn_of(f[1]),
                move_number: counter_of(f[5])->0 as nat,
                half_move: counter_of(f[4])->0 as nat,
                can_castle: castling_of(f[2]),
                en_passant: en_passant_of(f[3]),
            },
        )
    } else {
        None
    }
}

/// The position that a text describes holds each castling right whose
/// letter stands in the third field, and has the square that the fourth
/// field names as its en-passant target.
pub proof fn lemma_fen_rights(text: Seq<char>)
    requires
        fen_position(text) is Some,
    ensures
        fen_position(text)->0.wf(),
        fen_position(text)->0.may_castle(0) <==> fields(text)[2].contains('K'),
        fen_position(text)->0.may_castle(1) <==> fields(text)[2].contains('Q'),
        fen_position(text)->0.may_castle(2) <==> fields(text)[2].contains('k'),
        fen_position(text)->0.may_castle(3) <==> fields(text)[2].contains('q'),
        fen_position(text)->0.en_passant_square() == square_of(fields(text)[3]),
{
    let field = fields(text)[3];
    if square_of(field) is Some {
        assert(seq![field[0], field[1]] =~= field);
    }
}

/// The texts of a row of strings.
pub open spec fn texts(strings: Seq<String>) -> Seq<Seq<char>> {
    Seq::new(strings.len(), |i: int| strings[i]@)
}

/// Whether a character parts fields.
fn is_whitespace(c: char) -> (space: bool)
    ensures
        space == is_space(c),
{
    ('\u{9}' <= c && c <= '\u{d}') || c == ' ' || c == '\u{85}' || c == '\u{a0}' || c == '\u{1680}'
        || ('\u{2000}' <= c && c <= '\u{200a}') || c == '\u{2028}' || c == '\u{2029}' || c
        == '\u{202f}' || c == '\u{205f}' || c == '\u{3000}'
}

/// The value of a decimal digit, and `None` for any other character.
fn to_digit(c: char) -> (digit: Option<u32>)
    ensures
        match digit {
            Some(d) => digit_of(c) == Some(d as nat),
            None => digit_of(c) is None,
        },
{
    match c {
        '0' => Some(0),
        '1' => Some(1),
        '2' => Some(2),
        '3' => Some(3),
        '4' => Some(4),
        '5' => Some(5),
        '6' => Some(6),
        '7' => Some(7),
        '8' => Some(8),
        '9' => Some(9),
        _ => None,
    }
}

/// The fields of a text, each as a string of its own.
pub fn split_fields(text: &str) -> (parts: Vec<String>)
    ensures
        texts(parts@) == fields(text@),
{
    let chars = chars_of(text);
    let mut parts: Vec<String> = Vec::new();
    let mut open = String::new();
    let mut i: usize = 0;
    while i < chars.len()
        invariant
            i <= chars@.len(),
            (texts(parts@), open@) == scan_fields(chars@.take(i as int)),
        decreases chars@.len() - i,
    {
        let c = chars[i];
        proof {
            assert(chars@.take(i + 1).drop_last() =~= chars@.take(i as int));
        }
        if !is_whitespace(c) {
            open.push(c);
        } else if open.as_str().unicode_len() > 0 {
            proof {
                assert(texts(parts@.push(open)) =~= texts(parts@).push(open@));
            }
            parts.push(open);
            open = String::new();
        }
        i += 1;
    }
    proof {
        assert(chars@.take(i as int) =~= chars@);
    }
    if open.as_str().unicode_len() > 0 {
        proof {
            assert(texts(parts@.push(open)) =~= texts(parts@).push(open@));
        }
        parts.push(open);
    }
    parts
}

/// A prefix of a row of digits writes no larger a number than the row.
pub proof fn lemma_digits_prefix(text: Seq<char>, n: int)
    requires
        0 <= n <= text.len(),
    ensures
        digits_value(text.take(n)) <= digits_value(text),
    decreases text.len(),
{
    if n < text.len() {
        lemma_digits_prefix(text.drop_last(), n);
        assert(text.drop_last().take(n) =~= text.take(n));
    } else {
        assert(text.take(n) =~= text);
    }
}

/// The counter that a text writes, if it writes one.
pub fn parse_counter(text: &str) -> (value: Option<u32>)
    ensures
        value == counter_of(text@),
{
    let chars = chars_of(text);
    let first: usize = if chars.len() > 0 && chars[0] == '+' {
        1
    } else {
        0
    };
    if chars.len() == first {
        return None;
    }
    let ghost digits = unsigned(chars@);
    let mut value: u32 = 0;
    let mut i: usize = first;
    while i < chars.len()
        invariant
            first <= i <= chars@.len(),
            digits == unsigned(text@),
            digits == chars@.skip(first as int),
            all_digits(digits.take(i - first)),
            value == digits_value(digits.take(i - first)),
        decreases chars@.len() - i,
    {
        let ghost read = digits.take(i - first + 1);
        proof {
            assert(read.drop_last() =~= digits.take(i - first));
            assert(read.last() == chars@[i as int]);
            lemma_digits_prefix(digits, i - first + 1);
        }
        match to_digit(chars[i]) {
            Some(d) => {
                if value > (u32::MAX - d) / 10 {
                    return None;
                }
                value = value * 10 + d;
                proof {
                    assert forall|j: int| 0 <= j < read.len() implies digit_of(
                        #[trigger] read[j],
                    ) is Some by {
                        if j < read.len() - 1 {
                            assert(read[j] == digits.take(i - first)[j]);
                        }
                    }
                }
            },
            None => {
                assert(digit_of(digits[i - first]) is None);
                return None;
            },
        }
        i += 1;
    }
    proof {
        assert(digits.take(i - first) =~= digits);
    }
    Some(value)
}

/// The contents of a row of vectors.
pub open spec fn rows(parts: Seq<Vec<char>>) -> Seq<Seq<char>> {
    Seq::new(parts.len(), |i: int| parts[i]@)
}

/// The parts of a text between its occurrences of `/`.
pub fn split_ranks(text: &str) -> (parts: Vec<Vec<char>>)
    ensures
        rows(parts@) == ranks(text@),
{
    let chars = chars_of(text);
    let mut parts: Vec<Vec<char>> = Vec::new();
    let mut open: Vec<char> = Vec::new();
    let mut i: usize = 0;
    while i < chars.len()
        invariant
            i <= chars@.len(),
            rows(parts@).push(open@) == ranks(chars@.take(i as int)),
        decreases chars@.len() - i,
    {
        let c = chars[i];
        proof {
            assert(chars@.take(i + 1).drop_last() =~= chars@.take(i as int));
        }
        if c == '/' {
            proof {
                assert(rows(parts@.push(open)) =~= rows(parts@).push(open@));
            }
            parts.push(open);
            open = Vec::new();
        } else {
            proof {
                let before = rows(parts@).push(open@);
                assert(before.update(before.len() - 1, before.last().push(c)) =~= rows(parts@).push(
                    open@.push(c),
                ));
            }
            open.push(c);
        }
        i += 1;
    }
    proof {
        assert(chars@.take(i as int) =~= chars@);
        assert(rows(parts@.push(open)) =~= rows(parts@).push(open@));
    }
    parts.push(open);
    parts
}

/// A prefix of a rank fills no more squares than the rank, and fills them
/// alike.
pub proof fn lemma_expand_prefix(rank: Seq<char>, n: int)
    requires
        0 <= n <= rank.len(),
    ensures
        expand(rank.take(n)).len() <= expand(rank).len(),
        forall|c: int| 0 <= c < expand(rank.take(n)).len() ==> expand(rank.take(n))[c] == expand(rank)[c],
    decreases rank.len(),
{
    if n < rank.len() {
        lemma_expand_prefix(rank.drop_last(), n);
        assert(rank.drop_last().take(n) =~= rank.take(n));
    } else {
        assert(rank.take(n) =~= rank);
    }
}

/// The grid of an array of eight rows of eight squares.
pub open spec fn grid_of(squares: [[Piece; 8]; 8]) -> Seq<Seq<Piece>> {
    Seq::new(8, |r: int| squares@[r]@)
}

impl Board {
    /// The castling letters of a field.
    pub fn get_castling(s: String) -> (letters: [char; 4])
        ensures
            letters@ == castling_of(s@),
    {
        let chars = chars_of(s.as_str());
        let mut v: [char; 4] = ['-'; 4];
        let mut i: usize = 0;
        while i < chars.len()
            invariant
                i <= chars@.len(),
                chars@ == s@,
                v@ =~= castling_of(chars@.take(i as int)),
            decreases chars@.len() - i,
        {
            let x = chars[i];
            proof {
                let before = chars@.take(i as int);
                let after = chars@.take(i + 1);
                assert(after =~= before.push(x));
                assert forall|c: char| after.contains(c) <==> (before.contains(c) || c == x) by {
                    if before.contains(c) {
                        let j = choose|j: int| 0 <= j < before.len() && before[j] == c;
                        assert(after[j] == c);
                    }
                    if c == x {
                        assert(after[i as int] == c);
                    }
                }
            }
            match x {
                'K' => {
                    v[0] = x;
                },
                'Q' => {
                    v[1] = x;
                },
                'k' => {
                    v[2] = x;
                },
                'q' => {
                    v[3] = x;
                },
                _ => {},
            }
            i += 1;
        }
        proof {
            assert(chars@.take(i as int) =~= chars@);
        }
        v
    }

    /// The en-passant pair of a field.
    pub fn get_en_passant(string: String) -> (pair: (char, char))
        ensures
            pair == en_passant_of(string@),
    {
        let text = string.as_str();
        match Board::square_to_row_col(Some(text)) {
            Ok(_) => (text.get_char(0), text.get_char(1)),
            Err(_) => ('-', '-'),
        }
    }

    /// The grid that a placement describes. A placement that fills a square
    /// beyond the eighth of a rank, or any square of a rank beyond the
    /// eighth, is refused.
    pub fn pieces_from_fen(pieces: String) -> (res: Result<[[Piece; 8]; 8], EngineError>)
        ensures
            res is Ok <==> placement_fits(pieces@),
            res is Ok ==> grid_of(res->Ok_0) == placement_grid(pieces@),
            res is Err ==> res->Err_0 == EngineError::InvalidFen,
    {
        let lines = split_ranks(pieces.as_str());
        let mut squares: [[Piece; 8]; 8] = [[Piece::Blank; 8]; 8];
        let ghost all = ranks(pieces@);
        let mut i: usize = 0;
        while i < lines.len()
            invariant
                i <= lines@.len(),
                all == ranks(pieces@),
                rows(lines@) == all,
                forall|r: int| 0 <= r < i ==> (#[trigger] expand(all[r])).len() <= if r < 8 {
                    8nat
                } else {
                    0nat
                },
                forall|r: int, c: int|
                    0 <= r < 8 && 0 <= c < 8 ==> #[trigger] squares@[r]@[c] == if r < i && c
                        < expand(all[r]).len() {
                        expand(all[r])[c]
                    } else {
                        Piece::Blank
                    },
            decreases lines@.len() - i,
        {
            let line = &lines[i];
            assert(line@ == all[i as int]);
            let limit: usize = if i < 8 {
                8
            } else {
                0
            };
            let mut j: usize = 0;
            let mut k: usize = 0;
            while k < line.len()
                invariant
                    k <= line@.len(),
                    i < lines@.len(),
                    all == ranks(pieces@),
                    all.len() == lines@.len(),
                    line@ == all[i as int],
                    limit == if i < 8 {
                        8usize
                    } else {
                        0usize
                    },
                    j == expand(line@.take(k as int)).len(),
                    j <= limit,
                    forall|r: int, c: int|
                        0 <= r < 8 && 0 <= c < 8 ==> #[trigger] squares@[r]@[c] == if r < i && c
                            < expand(all[r]).len() {
                            expand(all[r])[c]
                        } else if r == i && c < j {
                            expand(line@.take(k as int))[c]
                        } else {
                            Piece::Blank
                        },
                decreases line@.len() - k,
            {
                let c = line[k];
                let ghost before = expand(line@.take(k as int));
                let ghost after = expand(line@.take(k + 1));
                proof {
                    assert(line@.take(k + 1).drop_last() =~= line@.take(k as int));
                    assert(after == before + squares_of(c));
                    lemma_expand_prefix(line@, k + 1);
                }
                match to_digit(c) {
                    Some(d) => {
                        if d as usize > limit - j {
                            assert(expand(all[i as int]).len() > limit);
                            return Err(EngineError::InvalidFen);
                        }
                        j += d as usize;
                    },
                    None => {
                        if j >= limit {
                            assert(expand(all[i as int]).len() > limit);
                            return Err(EngineError::InvalidFen);
                        }
                        squares[i][j] = Piece::from_char(c);
                        j += 1;
                    },
                }
                k += 1;
            }
            proof {
                assert(line@.take(k as int) =~= line@);
            }
            i += 1;
        }
        proof {
            assert forall|r: int| 0 <= r < 8 implies #[trigger] grid_of(squares)[r] =~= placement_grid(
                pieces@,
            )[r] by {}
            assert(grid_of(squares) =~= placement_grid(pieces@));
        }
        Ok(squares)
    }
    /// The side that a field names.
    pub fn get_turn(text: &str) -> (turn: Turn)
        ensures
            turn == turn_of(text@),
    {
        if text.unicode_len() == 1 && text.get_char(0) == 'b' {
            Turn::Black
        } else {
            Turn::White
        }
    }

    /// The position that a text describes. A text with fewer than six
    /// fields, with a placement that does not fit the board, or with a
    /// fifth or sixth field that is no counter, is refused.
    pub fn from_fen(string: String) -> (res: Result<Board, EngineError>)
        ensures
            res is Ok <==> fen_position(string@) is Some,
            res is Ok ==> res->Ok_0@ == fen_position(string@)->0,
            res is Err ==> res->Err_0 == EngineError::InvalidFen,
    {
        let parts = split_fields(string.as_str());
        let ghost f = fields(string@);
        proof {
            assert forall|i: int| 0 <= i < parts@.len() implies (#[trigger] parts@[i])@ == f[i] by {
                assert(texts(parts@)[i] == f[i]);
            }
        }
        if parts.len() < 6 {
            return Err(EngineError::InvalidFen);
        }
        let to_move = Board::get_turn(parts[1].as_str());
        let castle = Board::get_castling(parts[2].clone());
        let en_passant = Board::get_en_passant(parts[3].clone());
        let half_move = match parse_counter(parts[4].as_str()) {
            Some(n) => n,
            None => {
                return Err(EngineError::InvalidFen);
            },
        };
        let full_move = match parse_counter(parts[5].as_str()) {
            Some(n) => n,
            None => {
                return Err(EngineError::InvalidFen);
            },
        };
        let pieces = match Board::pieces_from_fen(parts[0].clone()) {
            Ok(squares) => squares,
            Err(e) => {
                return Err(e);
            },
        };
        let board = Board {
            squares: pieces,
            move_number: full_move,
            to_move: to_move,
            can_castle: castle,
            half_move: half_move,
            en_passant: en_passant,
        };
        proof {
            assert(board@.grid =~= grid_of(pieces));
        }
        Ok(board)
    }
}

} // verus!
