//! Deterministic rendering of a board into a glyph-encoded text block: one
//! framed 8 by 8 grid, viewed from the chosen side, with optional marker
//! glyphs on highlighted empty squares.

use vstd::prelude::*;
use crate::board::{Board, Side, is_dark, is_piece_code};

verus! {

/// Glyph for a piece code on a square of the given shade. Dark squares use
/// a private-use base code point, light squares the standard chess glyphs.
pub open spec fn piece_glyph(code: u8, dark: bool) -> char {
    if dark {
        if code == 1 { '\u{e154}' } else if code == 2 { '\u{e155}' }
        else if code == 3 { '\u{e156}' } else if code == 4 { '\u{e157}' }
        else if code == 5 { '\u{e158}' } else if code == 6 { '\u{e159}' }
        else if code == 7 { '\u{e15a}' } else if code == 8 { '\u{e15b}' }
        else if code == 9 { '\u{e15c}' } else if code == 10 { '\u{e15d}' }
        else if code == 11 { '\u{e15e}' } else { '\u{e15f}' }
    } else {
        if code == 1 { '\u{2654}' } else if code == 2 { '\u{2655}' }
        else if code == 3 { '\u{2656}' } else if code == 4 { '\u{2657}' }
        else if code == 5 { '\u{2658}' } else if code == 6 { '\u{2659}' }
        else if code == 7 { '\u{265a}' } else if code == 8 { '\u{265b}' }
        else if code == 9 { '\u{265c}' } else if code == 10 { '\u{265d}' }
        else if code == 11 { '\u{265e}' } else { '\u{265f}' }
    }
}

/// Marker glyph for a highlighted empty square.
pub open spec fn marker_glyph(dark: bool) -> char {
    if dark {
        '\u{e122}'
    } else {
        '\u{2022}'
    }
}

/// Glyph for an unoccupied, unhighlighted square; a plain no-break space on
/// light squares as a plaintext fallback.
pub open spec fn empty_glyph(dark: bool) -> char {
    if dark {
        '\u{e100}'
    } else {
        '\u{00a0}'
    }
}

/// The glyph shown for one square of a board, with highlighted squares
/// listed in `marks`.
pub open spec fn square_glyph(board: Seq<u8>, marks: Seq<u8>, sq: int) -> char {
    if is_piece_code(board[sq]) {
        piece_glyph(board[sq], is_dark(sq))
    } else if marks.contains(sq as u8) {
        marker_glyph(is_dark(sq))
    } else {
        empty_glyph(is_dark(sq))
    }
}

/// The square shown at grid row `r`, column `c`. Rows run top to bottom,
/// columns left to right. With White at the bottom, row 0 is rank 8 and
/// column 0 is file a; viewed from Black, both axes are reversed.
pub open spec fn square_at(side: Side, r: int, c: int) -> int {
    if side == Side::White {
        (7 - r) * 8 + c
    } else {
        r * 8 + (7 - c)
    }
}

/// The line-break marker inserted after each rendered row.
pub open spec fn break_marker() -> Seq<char> {
    seq!['<', 'b', 'r', '/', '>']
}

/// The eight glyphs of one grid row.
pub open spec fn row_glyphs(board: Seq<u8>, side: Side, marks: Seq<u8>, r: int) -> Seq<char> {
    Seq::new(8, |c: int| square_glyph(board, marks, square_at(side, r, c)))
}

/// One full rendered row: left frame, eight squares, right frame, break.
pub open spec fn row_block(board: Seq<u8>, side: Side, marks: Seq<u8>, r: int) -> Seq<char> {
    seq!['\u{e303}'] + row_glyphs(board, side, marks, r) + seq!['\u{e304}'] + break_marker()
}

/// The first `n` rendered rows.
pub open spec fn rows_upto(board: Seq<u8>, side: Side, marks: Seq<u8>, n: int) -> Seq<char>
    decreases n,
{
    if n <= 0 {
        Seq::empty()
    } else {
        rows_upto(board, side, marks, n - 1) + row_block(board, side, marks, n - 1)
    }
}

/// The top frame line.
pub open spec fn top_frame() -> Seq<char> {
    seq!['\u{e300}'] + Seq::new(8, |i: int| '\u{e301}') + seq!['\u{e302}'] + break_marker()
}

/// The bottom frame line.
pub open spec fn bottom_frame() -> Seq<char> {
    seq!['\u{e305}'] + Seq::new(8, |i: int| '\u{e306}') + seq!['\u{e307}']
}

/// The full rendering of a board: top frame, eight rows, bottom frame. A
/// pure function of the board, the viewing side and the highlights alone.
pub open spec fn spec_render(board: Seq<u8>, side: Side, marks: Seq<u8>) -> Seq<char> {
    top_frame() + rows_upto(board, side, marks, 8) + bottom_frame()
}

fn piece_glyph_at(code: u8, dark: bool) -> (r: char)
    requires
        is_piece_code(code),
    ensures
        r == piece_glyph(code, dark),
{
    if dark {
        match code {
            1 => '\u{e154}', 2 => '\u{e155}', 3 => '\u{e156}', 4 => '\u{e157}',
            5 => '\u{e158}', 6 => '\u{e159}', 7 => '\u{e15a}', 8 => '\u{e15b}',
            9 => '\u{e15c}', 10 => '\u{e15d}', 11 => '\u{e15e}', _ => '\u{e15f}',
        }
    } else {
        match code {
            1 => '\u{2654}', 2 => '\u{2655}', 3 => '\u{2656}', 4 => '\u{2657}',
            5 => '\u{2658}', 6 => '\u{2659}', 7 => '\u{265a}', 8 => '\u{265b}',
            9 => '\u{265c}', 10 => '\u{265d}', 11 => '\u{265e}', _ => '\u{265f}',
        }
    }
}

fn marks_contain(marks: &Vec<u8>, sq: u8) -> (r: bool)
    ensures
        r == marks@.contains(sq),
{
    let mut i: usize = 0;
    while i < marks.len()
        invariant
            i <= marks@.len(),
            forall|j: int| 0 <= j < i ==> marks@[j] != sq,
        decreases marks@.len() - i,
    {
        if marks[i] == sq {
            return true;
        }
        i += 1;
    }
    false
}

fn square_glyph_at(board: &Board, marks: &Vec<u8>, sq: u8) -> (r: char)
    requires
        board.wf(),
        sq < 64,
    ensures
        r == square_glyph(board@, marks@, sq as int),
{
    let code = board.at(sq);
    let dark = crate::board::square_is_dark(sq);
    if code >= 1 {
        piece_glyph_at(code, dark)
    } else if marks_contain(marks, sq) {
        marker_glyph_at(dark)
    } else {
        empty_glyph_at(dark)
    }
}

fn marker_glyph_at(dark: bool) -> (r: char)
    ensures
        r == marker_glyph(dark),
{
    if dark {
        '\u{e122}'
    } else {
        '\u{2022}'
    }
}

fn empty_glyph_at(dark: bool) -> (r: char)
    ensures
        r == empty_glyph(dark),
{
    if dark {
        '\u{e100}'
    } else {
        '\u{00a0}'
    }
}

fn push_break(out: &mut Vec<char>)
    ensures
        final(out)@ == old(out)@ + break_marker(),
{
    out.push('<');
    out.push('b');
    out.push('r');
    out.push('/');
    out.push('>');
    proof {
        assert(final(out)@ =~= old(out)@ + break_marker());
    }
}

/// Renders a board position into its glyph text, viewed from `side`, with
/// the squares in `marks` highlighted when empty. Deterministic: the result
/// is a pure function of the three arguments.
pub fn render_chars(board: &Board, side: Side, marks: &Vec<u8>) -> (r: Vec<char>)
    requires
        board.wf(),
    ensures
        r@ == spec_render(board@, side, marks@),
{
    let mut out: Vec<char> = Vec::new();
    out.push('\u{e300}');
    let mut i: usize = 0;
    while i < 8
        invariant
            i <= 8,
            out@ == seq!['\u{e300}'] + Seq::new(i as nat, |k: int| '\u{e301}'),
        decreases 8 - i,
    {
        out.push('\u{e301}');
        proof {
            assert(out@ =~= seq!['\u{e300}'] + Seq::new((i + 1) as nat, |k: int| '\u{e301}'));
        }
        i += 1;
    }
    out.push('\u{e302}');
    push_break(&mut out);
    proof {
        assert(out@ =~= top_frame());
        assert(out@ =~= top_frame() + rows_upto(board@, side, marks@, 0));
    }

    let mut r: u8 = 0;
    while r < 8
        invariant
            r <= 8,
            board.wf(),
            out@ == top_frame() + rows_upto(board@, side, marks@, r as int),
        decreases 8 - r,
    {
        out.push('\u{e303}');
        let ghost row_start = out@;
        let mut c: u8 = 0;
        while c < 8
            invariant
                c <= 8,
                r < 8,
                board.wf(),
                out@ == row_start + row_glyphs(board@, side, marks@, r as int).subrange(0, c as int),
            decreases 8 - c,
        {
            let sq: u8 = if side == Side::White {
                (7 - r) * 8 + c
            } else {
                r * 8 + (7 - c)
            };
            assert(sq as int == square_at(side, r as int, c as int));
            let g = square_glyph_at(board, marks, sq);
            out.push(g);
            proof {
                assert(out@ =~= row_start + row_glyphs(board@, side, marks@, r as int).subrange(
                    0, (c + 1) as int));
            }
            c += 1;
        }
        out.push('\u{e304}');
        push_break(&mut out);
        proof {
            assert(row_glyphs(board@, side, marks@, r as int).subrange(0, 8) =~= row_glyphs(
                board@, side, marks@, r as int));
            assert(out@ =~= top_frame() + rows_upto(board@, side, marks@, r as int + 1));
        }
        r += 1;
    }

    out.push('\u{e305}');
    let ghost tail_start = out@;
    let mut i: usize = 0;
    while i < 8
        invariant
            i <= 8,
            out@ == tail_start + Seq::new(i as nat, |k: int| '\u{e306}'),
        decreases 8 - i,
    {
        out.push('\u{e306}');
        proof {
            assert(out@ =~= tail_start + Seq::new((i + 1) as nat, |k: int| '\u{e306}'));
        }
        i += 1;
    }
    out.push('\u{e307}');
    proof {
        assert(out@ =~= spec_render(board@, side, marks@));
    }
    out
}

/// Viewed from Black, the grid shows at row `r`, column `c` exactly the
/// square that the White view shows at row `7 - r`, column `7 - c`: the two
/// renderings differ only by reversing both traversal axes, never in the
/// glyph chosen for a given square.
pub proof fn lemma_black_view_mirrors_white(board: Seq<u8>, marks: Seq<u8>, r: int, c: int)
    requires
        0 <= r < 8,
        0 <= c < 8,
    ensures
        square_at(Side::Black, r, c) == square_at(Side::White, 7 - r, 7 - c),
        row_glyphs(board, Side::Black, marks, r)[c] == row_glyphs(
            board, Side::White, marks, 7 - r)[7 - c],
{
}

} // verus!
