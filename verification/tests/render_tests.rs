use chess_cards::board::{Board, Side};
use chess_cards::render::render_chars;
use chess_cards::text::chars_to_string;

fn start_codes() -> Vec<u8> {
    // White back rank: R N B Q K B N R -> codes 3 5 4 2 1 4 5 3.
    let mut codes = vec![0u8; 64];
    let back = [3u8, 5, 4, 2, 1, 4, 5, 3];
    for f in 0..8 {
        codes[f] = back[f];
        codes[8 + f] = 6;
        codes[48 + f] = 12;
        codes[56 + f] = back[f] + 6;
    }
    codes
}

#[test]
fn render_is_deterministic() {
    let board = Board::from_codes(start_codes()).unwrap();
    let marks: Vec<u8> = vec![28, 36];
    let a = chars_to_string(&render_chars(&board, Side::White, &marks));
    let b = chars_to_string(&render_chars(&board, Side::White, &marks));
    assert_eq!(a, b);
    let c = chars_to_string(&render_chars(&board, Side::Black, &marks));
    let d = chars_to_string(&render_chars(&board, Side::Black, &marks));
    assert_eq!(c, d);
}

#[test]
fn black_view_reverses_both_axes() {
    let board = Board::from_codes(start_codes()).unwrap();
    let marks: Vec<u8> = vec![];
    let white = render_chars(&board, Side::White, &marks);
    let black = render_chars(&board, Side::Black, &marks);
    // Layout: 15 chars of top frame, then per row one left frame char,
    // eight squares, one right frame char, five break chars.
    let pos = |r: usize, c: usize| 15 + r * 15 + 1 + c;
    for r in 0..8 {
        for c in 0..8 {
            assert_eq!(black[pos(r, c)], white[pos(7 - r, 7 - c)]);
        }
    }
}

#[test]
fn empty_board_renders_fixed_text() {
    let board = Board::empty();
    let marks: Vec<u8> = vec![];
    let txt = chars_to_string(&render_chars(&board, Side::White, &marks));
    let mut expected = String::new();
    expected.push('\u{e300}');
    for _ in 0..8 {
        expected.push('\u{e301}');
    }
    expected.push('\u{e302}');
    expected.push_str("<br/>");
    for r in 0..8 {
        expected.push('\u{e303}');
        for c in 0..8 {
            // Row 0 shows rank 8; a dark square has an even file + rank sum.
            let rank = 7 - r;
            if (c + rank) % 2 == 0 {
                expected.push('\u{e100}');
            } else {
                expected.push('\u{00a0}');
            }
        }
        expected.push('\u{e304}');
        expected.push_str("<br/>");
    }
    expected.push('\u{e305}');
    for _ in 0..8 {
        expected.push('\u{e306}');
    }
    expected.push('\u{e307}');
    assert_eq!(txt, expected);
}

#[test]
fn pieces_and_markers_use_shade_tables() {
    // A white king on a1 (dark) and on b1 (light), a marker on two empty
    // squares of either shade.
    let mut codes = vec![0u8; 64];
    codes[0] = 1;
    codes[1] = 1;
    let board = Board::from_codes(codes).unwrap();
    let marks: Vec<u8> = vec![16, 17];
    let txt = render_chars(&board, Side::White, &marks);
    let pos = |r: usize, c: usize| 15 + r * 15 + 1 + c;
    assert_eq!(txt[pos(7, 0)], '\u{e154}');
    assert_eq!(txt[pos(7, 1)], '\u{2654}');
    assert_eq!(txt[pos(5, 0)], '\u{e122}');
    assert_eq!(txt[pos(5, 1)], '\u{2022}');
}

#[test]
fn from_codes_rejects_bad_input() {
    assert!(Board::from_codes(vec![0u8; 63]).is_none());
    assert!(Board::from_codes(vec![0u8; 65]).is_none());
    let mut bad = vec![0u8; 64];
    bad[10] = 13;
    assert!(Board::from_codes(bad).is_none());
    assert!(Board::from_codes(vec![0u8; 64]).is_some());
}

#[test]
fn board_equality_is_by_squares() {
    let a = Board::from_codes(start_codes()).unwrap();
    let b = Board::from_codes(start_codes()).unwrap();
    assert!(a.same_as(&b));
    let mut codes = start_codes();
    codes[12] = 0;
    codes[28] = 6;
    let c = Board::from_codes(codes).unwrap();
    assert!(!a.same_as(&c));
    assert!(a.same_as(&a.dup()));
}
