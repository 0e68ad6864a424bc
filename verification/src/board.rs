//! The board model: 64 squares, each empty or holding one of twelve pieces,
//! identified by a compact numeric code.

use vstd::prelude::*;

verus! {

/// The side a repertoire is studied for, and the side a position is viewed
/// from.
#[derive(Clone, Copy, PartialEq, Eq, Structural, Debug)]
pub enum Side {
    White,
    Black,
}

/// Code of an empty square.
pub const EMPTY_SQUARE: u8 = 0;

/// Piece codes are 1 through 12: 1..=6 are white king, queen, rook, bishop,
/// knight, pawn; 7..=12 the same roles for black.
pub open spec fn is_piece_code(c: u8) -> bool {
    1 <= c <= 12
}

/// Whether a code sequence is a well-formed board: exactly 64 squares,
/// each empty or holding a valid piece code.
pub open spec fn codes_wf(s: Seq<u8>) -> bool {
    &&& s.len() == 64
    &&& forall|i: int| 0 <= i < 64 ==> (s[i] == EMPTY_SQUARE || is_piece_code(#[trigger] s[i]))
}

/// A full board: square `rank * 8 + file` holds either `EMPTY_SQUARE` or a
/// piece code. Square 0 is a1, square 63 is h8.
pub struct Board {
    squares: Vec<u8>,
}

impl View for Board {
    type V = Seq<u8>;

    closed spec fn view(&self) -> Seq<u8> {
        self.squares@
    }
}

impl Board {
    /// A board is well formed when it has exactly 64 squares, each empty or
    /// holding a valid piece code.
    pub open spec fn wf(&self) -> bool {
        codes_wf(self@)
    }

    /// The empty board.
    pub fn empty() -> (r: Board)
        ensures
            r.wf(),
            r@ == Seq::new(64, |i: int| EMPTY_SQUARE),
    {
        let mut squares: Vec<u8> = Vec::new();
        let mut i: usize = 0;
        while i < 64
            invariant
                i <= 64,
                squares@.len() == i,
                forall|j: int| 0 <= j < i ==> squares@[j] == EMPTY_SQUARE,
            decreases 64 - i,
        {
            squares.push(EMPTY_SQUARE);
            i += 1;
        }
        let r = Board { squares };
        proof {
            assert(r@ =~= Seq::new(64, |i: int| EMPTY_SQUARE));
        }
        r
    }

    /// Builds a board from raw square codes; rejects anything that is not
    /// 64 squares of valid codes.
    pub fn from_codes(codes: Vec<u8>) -> (r: Option<Board>)
        ensures
            match r {
                Some(b) => b.wf() && b@ == codes@,
                None => !codes_wf(codes@),
            },
    {
        if codes.len() != 64 {
            return None;
        }
        let mut i: usize = 0;
        while i < 64
            invariant
                i <= 64,
                codes@.len() == 64,
                forall|j: int| 0 <= j < i ==> (codes@[j] == EMPTY_SQUARE || is_piece_code(codes@[j])),
            decreases 64 - i,
        {
            if codes[i] > 12 {
                return None;
            }
            i += 1;
        }
        Some(Board { squares: codes })
    }

    /// The code at a square.
    pub fn at(&self, sq: u8) -> (r: u8)
        requires
            self.wf(),
            sq < 64,
        ensures
            r == self@[sq as int],
    {
        self.squares[sq as usize]
    }

    /// An owned copy with the same squares.
    pub fn dup(&self) -> (r: Board)
        ensures
            r@ == self@,
            self.wf() ==> r.wf(),
    {
        let r = Board { squares: self.squares.clone() };
        proof {
            assert(r@ =~= self@);
        }
        r
    }

    /// Whether two boards hold the same position.
    pub fn same_as(&self, other: &Board) -> (r: bool)
        ensures
            r <==> self@ == other@,
    {
        if self.squares.len() != other.squares.len() {
            return false;
        }
        let mut i: usize = 0;
        while i < self.squares.len()
            invariant
                i <= self@.len(),
                self@.len() == other@.len(),
                forall|j: int| 0 <= j < i ==> self@[j] == other@[j],
            decreases self@.len() - i,
        {
            if self.squares[i] != other.squares[i] {
                return false;
            }
            i += 1;
        }
        proof {
            assert(self@ =~= other@);
        }
        true
    }
}

/// Dark squares are those whose file and rank indices have an even sum:
/// a1 (square 0) is dark.
pub open spec fn is_dark(sq: int) -> bool {
    (sq % 8 + sq / 8) % 2 == 0
}

/// Exec mirror of `is_dark`.
pub fn square_is_dark(sq: u8) -> (r: bool)
    requires
        sq < 64,
    ensures
        r == is_dark(sq as int),
{
    (sq % 8 + sq / 8) % 2 == 0
}

/// The lower-case file letter of a square, files 0..=7 being a..=h.
pub open spec fn file_char(f: int) -> char {
    if f == 0 {
        'a'
    } else if f == 1 {
        'b'
    } else if f == 2 {
        'c'
    } else if f == 3 {
        'd'
    } else if f == 4 {
        'e'
    } else if f == 5 {
        'f'
    } else if f == 6 {
        'g'
    } else {
        'h'
    }
}

/// The rank digit of a square, ranks 0..=7 being 1..=8.
pub open spec fn rank_char(r: int) -> char {
    if r == 0 {
        '1'
    } else if r == 1 {
        '2'
    } else if r == 2 {
        '3'
    } else if r == 3 {
        '4'
    } else if r == 4 {
        '5'
    } else if r == 5 {
        '6'
    } else if r == 6 {
        '7'
    } else {
        '8'
    }
}

/// The conventional name of a square, such as `a1` or `h8`.
pub open spec fn spec_square_name(sq: int) -> Seq<char> {
    seq![file_char(sq % 8), rank_char(sq / 8)]
}

fn file_char_at(f: u8) -> (r: char)
    requires
        f < 8,
    ensures
        r == file_char(f as int),
{
    match f {
        0 => 'a',
        1 => 'b',
        2 => 'c',
        3 => 'd',
        4 => 'e',
        5 => 'f',
        6 => 'g',
        _ => 'h',
    }
}

fn rank_char_at(r: u8) -> (c: char)
    requires
        r < 8,
    ensures
        c == rank_char(r as int),
{
    match r {
        0 => '1',
        1 => '2',
        2 => '3',
        3 => '4',
        4 => '5',
        5 => '6',
        6 => '7',
        _ => '8',
    }
}

/// The name of a square as a character pair.
pub fn square_name_chars(sq: u8) -> (r: Vec<char>)
    requires
        sq < 64,
    ensures
        r@ == spec_square_name(sq as int),
{
    let mut r: Vec<char> = Vec::new();
    r.push(file_char_at(sq % 8));
    r.push(rank_char_at(sq / 8));
    proof {
        assert(r@ =~= spec_square_name(sq as int));
    }
    r
}

} // verus!
