//! Move enumeration: every move that the side to move may make, and the
//! replies to each.

use vstd::prelude::*;
use crate::board::Board;
use crate::board::Move;
use crate::piece::coords;
use crate::position::Position;
use crate::position::inside;
use crate::position::on_board;

verus! {

/// The square that the `k`-th candidate move leaves. The candidates are
/// numbered by origin first, row by row, and then by destination, row by
/// row.
pub open spec fn origin_of(k: int) -> (int, int) {
    (k / 8 / 8 / 8, (k / 8 / 8) % 8)
}

/// The square that the `k`-th candidate move goes to.
pub open spec fn target_of(k: int) -> (int, int) {
    ((k / 8) % 8, k % 8)
}

/// The number of the candidate move from `start` to `end`.
pub open spec fn number_of(start: (int, int), end: (int, int)) -> int {
    512 * start.0 + 64 * start.1 + 8 * end.0 + end.1
}

impl Move {
    /// The place of the move among all pairs of squares, taken by origin,
    /// row by row, and then by destination, row by row.
    pub open spec fn number(self) -> int {
        number_of(coords(self.start), coords(self.end))
    }
}

impl Position {
    /// The `k`-th candidate move: the piece that stands on its origin, with
    /// its two squares.
    pub open spec fn candidate(self, k: int) -> Move {
        Move {
            piece: self.at(origin_of(k)),
            start: (origin_of(k).0 as usize, origin_of(k).1 as usize),
            end: (target_of(k).0 as usize, target_of(k).1 as usize),
        }
    }

    /// Whether the side to move may make the `k`-th candidate move.
    pub open spec fn candidate_legal(self, k: int) -> bool {
        self.legal(origin_of(k), target_of(k), self.at(origin_of(k)))
    }

    /// The candidate moves below number `n` that the side to move may make,
    /// by their number.
    pub open spec fn moves_below(self, n: nat) -> Seq<Move>
        decreases n,
    {
        if n == 0 {
            Seq::empty()
        } else if self.candidate_legal(n - 1) {
            self.moves_below((n - 1) as nat).push(self.candidate(n - 1))
        } else {
            self.moves_below((n - 1) as nat)
        }
    }

    /// Every move that the side to move may make with the piece that stands
    /// on the origin: all 64 origins against all 64 destinations.
    pub open spec fn moves(self) -> Seq<Move> {
        self.moves_below(4096)
    }

    /// For each move of `moves`, the moves that the other side may make
    /// once it has been made.
    pub open spec fn replies(self) -> Seq<Seq<Move>> {
        Seq::new(self.moves().len(), |i: int| self.after(self.moves()[i]).moves())
    }

    /// A move belongs to the position when its squares are on the board and
    /// its piece is the one that stands on its origin.
    pub open spec fn holds(self, m: Move) -> bool {
        on_board(m.start) && on_board(m.end) && m.piece == self.at(coords(m.start))
    }
}

/// A square pair and its candidate number determine each other.
proof fn lemma_number(start: (int, int), end: (int, int))
    requires
        inside(start),
        inside(end),
    ensures
        0 <= number_of(start, end) < 4096,
        origin_of(number_of(start, end)) == start,
        target_of(number_of(start, end)) == end,
{
}

/// Each of the enumerated moves below `n` is a candidate below `n` that the
/// side to move may make.
proof fn lemma_moves_below_sound(p: Position, n: nat, i: int)
    requires
        0 <= i < p.moves_below(n).len(),
    ensures
        exists|k: int|
            0 <= k < n && p.candidate_legal(k) && #[trigger] p.candidate(k) == p.moves_below(n)[i],
    decreases n,
{
    if n > 0 {
        if p.candidate_legal(n - 1) && i == p.moves_below(n).len() - 1 {
            assert(p.candidate(n - 1) == p.moves_below(n)[i]);
        } else {
            lemma_moves_below_sound(p, (n - 1) as nat, i);
        }
    }
}

/// Each candidate below `n` that the side to move may make is among the
/// enumerated moves below `n`.
proof fn lemma_moves_below_complete(p: Position, n: nat, k: int)
    requires
        0 <= k < n,
        p.candidate_legal(k),
    ensures
        p.moves_below(n).contains(p.candidate(k)),
    decreases n,
{
    if k == n - 1 {
        let s = p.moves_below(n);
        assert(s[s.len() - 1] == p.candidate(k));
    } else {
        lemma_moves_below_complete(p, (n - 1) as nat, k);
        let prev = p.moves_below((n - 1) as nat);
        let j = choose|j: int| 0 <= j < prev.len() && prev[j] == p.candidate(k);
        assert(p.moves_below(n)[j] == p.candidate(k));
    }
}

/// Every enumerated move belongs to the position and may be made by the
/// side to move.
pub proof fn lemma_moves_sound(p: Position, i: int)
    requires
        0 <= i < p.moves().len(),
    ensures
        p.holds(p.moves()[i]),
        p.legal(coords(p.moves()[i].start), coords(p.moves()[i].end), p.moves()[i].piece),
{
    lemma_moves_below_sound(p, 4096, i);
}

/// Every move that belongs to the position and may be made by the side to
/// move is enumerated.
pub proof fn lemma_moves_complete(p: Position, m: Move)
    requires
        p.holds(m),
        p.legal(coords(m.start), coords(m.end), m.piece),
    ensures
        p.moves().contains(m),
{
    let k = number_of(coords(m.start), coords(m.end));
    lemma_number(coords(m.start), coords(m.end));
    assert(p.candidate(k) == m);
    lemma_moves_below_complete(p, 4096, k);
}

/// The enumeration below the number after that of a pair of squares is the
/// enumeration below its number, with the move between the two squares at
/// its end if the side to move may make it.
proof fn lemma_next_candidate(p: Position, start: (usize, usize), end: (usize, usize))
    requires
        on_board(start),
        on_board(end),
    ensures
        0 <= number_of(coords(start), coords(end)) < 4096,
        p.moves_below((number_of(coords(start), coords(end)) + 1) as nat) == if p.legal(
            coords(start),
            coords(end),
            p.at(coords(start)),
        ) {
            p.moves_below(number_of(coords(start), coords(end)) as nat).push(
                Move { piece: p.at(coords(start)), start: start, end: end },
            )
        } else {
            p.moves_below(number_of(coords(start), coords(end)) as nat)
        },
{
    lemma_number(coords(start), coords(end));
}

/// The candidate made of the two squares of a number has that number.
proof fn lemma_number_of_candidate(k: int)
    requires
        0 <= k < 4096,
    ensures
        inside(origin_of(k)),
        inside(target_of(k)),
        number_of(origin_of(k), target_of(k)) == k,
{
}

/// The enumerated moves below `n` come by rising number, so none comes
/// twice.
proof fn lemma_moves_below_rising(p: Position, n: nat, i: int, j: int)
    requires
        n <= 4096,
        0 <= i < j < p.moves_below(n).len(),
    ensures
        p.moves_below(n)[i].number() < p.moves_below(n)[j].number() < n,
    decreases n,
{
    if n > 0 {
        let before = p.moves_below((n - 1) as nat);
        if p.candidate_legal(n - 1) && j == p.moves_below(n).len() - 1 {
            lemma_number_of_candidate(n - 1);
            lemma_moves_below_sound(p, (n - 1) as nat, i);
            let k = choose|k: int|
                0 <= k < n - 1 && p.candidate_legal(k) && #[trigger] p.candidate(k) == before[i];
            lemma_number_of_candidate(k);
        } else {
            lemma_moves_below_rising(p, (n - 1) as nat, i, j);
        }
    }
}

/// The enumerated moves come by origin, row by row, and then by
/// destination, row by row; none comes twice.
pub proof fn lemma_moves_rising(p: Position, i: int, j: int)
    requires
        0 <= i < j < p.moves().len(),
    ensures
        p.moves()[i].number() < p.moves()[j].number(),
{
    lemma_moves_below_rising(p, 4096, i, j);
}

impl Board {
    /// Every move that the side to move may make with the piece that stands
    /// on the origin, by origin, row by row, and then by destination, row
    /// by row. Each of the 64 times 64 pairs of squares is tried.
    pub fn generate_moves(self) -> (moves: Vec<Move>)
        ensures
            moves@ == self@.moves(),
    {
        let mut v: Vec<Move> = Vec::new();
        let mut i: usize = 0;
        while i < 8
            invariant
                i <= 8,
                v@ == self@.moves_below((512 * i) as nat),
            decreases 8 - i,
        {
            let mut j: usize = 0;
            while j < 8
                invariant
                    i < 8,
                    j <= 8,
                    v@ == self@.moves_below((512 * i + 64 * j) as nat),
                decreases 8 - j,
            {
                let piece = self.squares[i][j];
                let mut m: usize = 0;
                while m < 8
                    invariant
                        i < 8,
                        j < 8,
                        m <= 8,
                        piece == self@.at((i as int, j as int)),
                        v@ == self@.moves_below((512 * i + 64 * j + 8 * m) as nat),
                    decreases 8 - m,
                {
                    let mut n: usize = 0;
                    while n < 8
                        invariant
                            i < 8,
                            j < 8,
                            m < 8,
                            n <= 8,
                            piece == self@.at((i as int, j as int)),
                            v@ == self@.moves_below((512 * i + 64 * j + 8 * m + n) as nat),
                        decreases 8 - n,
                    {
                        proof {
                            lemma_next_candidate(self@, (i, j), (m, n));
                        }
                        if self.validate_move((i, j), (m, n), piece) {
                            v.push(Move { piece: piece, start: (i, j), end: (m, n) });
                        }
                        n += 1;
                    }
                    m += 1;
                }
                j += 1;
            }
            i += 1;
        }
        v
    }

    /// For each move of `generate_moves`, in its order, the moves that the
    /// other side may make on a copy of the board on which it has been
    /// made.
    pub fn recurse_gen_moves(self) -> (replies: Vec<Vec<Move>>)
        requires
            forall|i: int|
                0 <= i < self@.moves().len() ==> self.has_room((#[trigger] self@.moves()[i]).end),
        ensures
            replies@.len() == self@.replies().len(),
            forall|i: int|
                0 <= i < replies@.len() ==> (#[trigger] replies@[i])@ == self@.replies()[i],
    {
        let moves = self.generate_moves();
        let mut v: Vec<Vec<Move>> = Vec::new();
        let mut i: usize = 0;
        while i < moves.len()
            invariant
                i <= moves@.len(),
                moves@ == self@.moves(),
                forall|i: int|
                    0 <= i < self@.moves().len() ==> self.has_room(
                        (#[trigger] self@.moves()[i]).end,
                    ),
                v@.len() == i,
                forall|j: int| 0 <= j < i ==> (#[trigger] v@[j])@ == self@.replies()[j],
            decreases moves@.len() - i,
        {
            let m = moves[i];
            let mut temp: Board = self;
            proof {
                lemma_moves_sound(self@, i as int);
            }
            let made = temp.make_move_from_move(m);
            assert(made is Ok);
            v.push(temp.generate_moves());
            i += 1;
        }
        v
    }
}

} // verus!
