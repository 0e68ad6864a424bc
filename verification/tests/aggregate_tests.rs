use chess_cards::aggregate::{Aggregator, Key};
use chess_cards::board::{Board, Side};

fn board_a() -> Board {
    Board::empty()
}

fn board_b() -> Board {
    let mut codes = vec![0u8; 64];
    codes[28] = 6;
    Board::from_codes(codes).unwrap()
}

#[test]
fn comments_append_in_order() {
    let mut agg = Aggregator::new();
    agg.insert(
        Key::new(board_a(), Side::White),
        board_b(),
        String::from("e2-e4"),
        String::from("c1"),
    );
    agg.insert(
        Key::new(board_a(), Side::White),
        board_b(),
        String::from("e2-e4"),
        String::from("c2"),
    );
    let entries = agg.drain();
    assert_eq!(entries.len(), 1);
    let value = &entries[0].1;
    assert_eq!(value.answers().len(), 1);
    let answer = &value.answers()[0];
    assert!(answer.board().same_as(&board_b()));
    assert_eq!(answer.moves().len(), 1);
    let m = &answer.moves()[0];
    assert_eq!(m.san(), "e2-e4");
    assert_eq!(m.comments().len(), 2);
    assert_eq!(m.comments()[0], "c1");
    assert_eq!(m.comments()[1], "c2");
}

#[test]
fn empty_comment_is_not_appended() {
    let mut agg = Aggregator::new();
    agg.insert(
        Key::new(board_a(), Side::White),
        board_b(),
        String::from("e2-e4"),
        String::new(),
    );
    let entries = agg.drain();
    assert_eq!(entries.len(), 1);
    let answer = &entries[0].1.answers()[0];
    assert_eq!(answer.moves().len(), 1);
    assert_eq!(answer.moves()[0].comments().len(), 0);
}

#[test]
fn drain_returns_each_key_once_then_nothing() {
    let mut agg = Aggregator::new();
    agg.insert(
        Key::new(board_a(), Side::White),
        board_b(),
        String::from("e2-e4"),
        String::new(),
    );
    agg.insert(
        Key::new(board_b(), Side::White),
        board_a(),
        String::from("e4-e5"),
        String::new(),
    );
    agg.insert(
        Key::new(board_a(), Side::Black),
        board_b(),
        String::from("e2-e4"),
        String::new(),
    );
    // A repeated key merges rather than adding an entry.
    agg.insert(
        Key::new(board_a(), Side::White),
        board_b(),
        String::from("d2-d4"),
        String::new(),
    );
    let entries = agg.drain();
    assert_eq!(entries.len(), 3);
    for (i, (ki, _)) in entries.iter().enumerate() {
        for (kj, _) in entries.iter().skip(i + 1) {
            assert!(!(ki.board().same_as(kj.board()) && ki.side() == kj.side()));
        }
    }
    let again = agg.drain();
    assert_eq!(again.len(), 0);
}

#[test]
fn insert_after_drain_is_ignored() {
    let mut agg = Aggregator::new();
    agg.insert(
        Key::new(board_a(), Side::White),
        board_b(),
        String::from("e2-e4"),
        String::new(),
    );
    let first = agg.drain();
    assert_eq!(first.len(), 1);
    agg.insert(
        Key::new(board_b(), Side::Black),
        board_a(),
        String::from("e7-e5"),
        String::new(),
    );
    let second = agg.drain();
    assert_eq!(second.len(), 0);
}

#[test]
fn transpositions_merge_under_one_key() {
    // Two different moves reaching two different resulting positions under
    // one question position make one entry with two answers.
    let mut agg = Aggregator::new();
    let mut codes = vec![0u8; 64];
    codes[27] = 6;
    let board_c = Board::from_codes(codes).unwrap();
    agg.insert(
        Key::new(board_a(), Side::White),
        board_b(),
        String::from("e2-e4"),
        String::new(),
    );
    agg.insert(
        Key::new(board_a(), Side::White),
        board_c.dup(),
        String::from("d2-d4"),
        String::new(),
    );
    let entries = agg.drain();
    assert_eq!(entries.len(), 1);
    assert_eq!(entries[0].1.answers().len(), 2);
    assert_eq!(entries[0].1.questions().len(), 0);
}
