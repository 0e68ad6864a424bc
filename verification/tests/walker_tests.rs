use chess_cards::board::{Board, Side};
use chess_cards::tree::{GameTree, walk};

fn board_with(square: usize) -> Board {
    let mut codes = vec![0u8; 64];
    codes[square] = 6;
    Board::from_codes(codes).unwrap()
}

#[test]
fn lone_root_yields_no_tuples() {
    let mut tree = GameTree::new();
    tree.push_root(Board::empty(), Side::White);
    assert_eq!(walk(&tree, Side::White).len(), 0);
    assert_eq!(walk(&tree, Side::Black).len(), 0);
}

#[test]
fn linear_game_yields_one_tuple_per_studied_move() {
    // Four alternating moves from the root: two by White, two by Black.
    let mut tree = GameTree::new();
    tree.push_root(board_with(0), Side::White);
    tree.push_child(0, String::from("m1"), String::new(), Side::Black, board_with(1));
    tree.push_child(1, String::from("m2"), String::new(), Side::White, board_with(2));
    tree.push_child(2, String::from("m3"), String::new(), Side::Black, board_with(3));
    tree.push_child(3, String::from("m4"), String::new(), Side::White, board_with(4));
    let as_white = walk(&tree, Side::White);
    assert_eq!(as_white.len(), 2);
    assert_eq!(as_white[0].san, "m1");
    assert_eq!(as_white[1].san, "m3");
    assert!(as_white[0].question.same_as(&board_with(0)));
    assert!(as_white[0].answer.same_as(&board_with(1)));
    assert!(as_white[1].question.same_as(&board_with(2)));
    assert!(as_white[1].answer.same_as(&board_with(3)));
    let as_black = walk(&tree, Side::Black);
    assert_eq!(as_black.len(), 2);
    assert_eq!(as_black[0].san, "m2");
    assert_eq!(as_black[1].san, "m4");
}

#[test]
fn variations_all_emit() {
    // Two White alternatives at the root and one Black reply under the
    // first: studied as White, both alternatives emit.
    let mut tree = GameTree::new();
    tree.push_root(board_with(0), Side::White);
    tree.push_child(0, String::from("a"), String::from("main"), Side::Black, board_with(1));
    tree.push_child(0, String::from("b"), String::new(), Side::Black, board_with(2));
    tree.push_child(1, String::from("r"), String::new(), Side::White, board_with(3));
    let as_white = walk(&tree, Side::White);
    assert_eq!(as_white.len(), 2);
    assert_eq!(as_white[0].san, "a");
    assert_eq!(as_white[0].comment, "main");
    assert_eq!(as_white[1].san, "b");
    let as_black = walk(&tree, Side::Black);
    assert_eq!(as_black.len(), 1);
    assert_eq!(as_black[0].san, "r");
}
