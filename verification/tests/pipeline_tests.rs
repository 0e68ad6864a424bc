use chess_cards::board::{Board, Side};
use chess_cards::cards::fnv1a_hash;
use chess_cards::deck::gen_cards;
use chess_cards::squares::square_cards;
use chess_cards::tree::GameTree;
use sacrifice::prelude::{Game, Node, NodeTreeTraversalExt};
use sacrifice::{Chess, Color, Position, Role, Square};
use std::collections::HashSet;

fn board_codes(pos: &Chess) -> Vec<u8> {
    let board = pos.board();
    let mut codes = vec![0u8; 64];
    for idx in 0..64u32 {
        let sq = Square::new(idx);
        if let Some(piece) = board.piece_at(sq) {
            let role = match piece.role {
                Role::King => 0u8,
                Role::Queen => 1,
                Role::Rook => 2,
                Role::Bishop => 3,
                Role::Knight => 4,
                Role::Pawn => 5,
            };
            codes[idx as usize] = 1 + role + if piece.color == Color::Black { 6 } else { 0 };
        }
    }
    codes
}

fn side_of(color: Color) -> Side {
    if color == Color::White {
        Side::White
    } else {
        Side::Black
    }
}

fn flatten(pgn: &str) -> GameTree {
    let game = sacrifice::read_pgn(pgn);
    let start = game.initial_position();
    let mut tree = GameTree::new();
    let root = game.root();
    let root_pos = root.board(&start);
    let root_board = Board::from_codes(board_codes(&root_pos)).expect("bad root board");
    tree.push_root(root_board, side_of(root_pos.turn()));
    let mut stack: Vec<_> = root
        .variation_vec()
        .into_iter()
        .map(|child| (child, 0usize))
        .collect();
    while let Some((node, parent)) = stack.pop() {
        let pos = node.board(&start);
        let board = Board::from_codes(board_codes(&pos)).expect("bad board");
        let san = node
            .prev_move()
            .map(|m| format!("{}", m))
            .unwrap_or_default();
        let comment = node.comment().unwrap_or_default();
        let idx = tree.len();
        assert!(parent < idx);
        tree.push_child(parent, san, comment, side_of(pos.turn()), board);
        for child in node.variation_vec() {
            stack.push((child, idx));
        }
    }
    tree
}

fn start_codes() -> Vec<u8> {
    let mut codes = vec![0u8; 64];
    let back = [3u8, 5, 4, 2, 1, 4, 5, 3];
    for f in 0..8 {
        codes[f] = back[f];
        codes[8 + f] = 6;
        codes[48 + f] = 12;
        codes[56 + f] = back[f] + 6;
    }
    codes
}

#[test]
fn short_pgn_makes_two_questions() {
    let tree = flatten("1. e4 e5 2. Nf3");
    let games = vec![(tree, Side::White)];
    let deck = gen_cards(&games, false);
    assert_eq!(deck.questions.len(), 2);
    assert_eq!(deck.square_facts.len(), 0);

    // The first question is the starting position with the answer move to e4.
    let entries = {
        let mut agg = chess_cards::aggregate::Aggregator::new();
        let games = vec![(flatten("1. e4 e5 2. Nf3"), Side::White)];
        let emitted = chess_cards::tree::walk(&games[0].0, Side::White);
        assert_eq!(emitted.len(), 2);
        for e in &emitted {
            agg.insert(
                chess_cards::aggregate::Key::new(e.question.dup(), Side::White),
                e.answer.dup(),
                e.san.clone(),
                e.comment.clone(),
            );
        }
        agg.drain()
    };
    assert_eq!(entries.len(), 2);
    let start = Board::from_codes(start_codes()).unwrap();
    let mut after_e4_codes = start_codes();
    after_e4_codes[12] = 0;
    after_e4_codes[28] = 6;
    let mut after_e4_e5_codes = after_e4_codes.clone();
    after_e4_e5_codes[52] = 0;
    after_e4_e5_codes[36] = 12;
    let after_e4 = Board::from_codes(after_e4_codes).unwrap();
    let after_e4_e5 = Board::from_codes(after_e4_e5_codes).unwrap();

    let first = entries
        .iter()
        .find(|(k, _)| k.board().same_as(&start))
        .expect("no start-position question");
    assert!(first.0.side() == Side::White);
    assert_eq!(first.1.answers().len(), 1);
    assert!(first.1.answers()[0].board().same_as(&after_e4));
    assert_eq!(first.1.answers()[0].moves().len(), 1);
    assert_eq!(first.1.answers()[0].moves()[0].san(), "e2-e4");

    let second = entries
        .iter()
        .find(|(k, _)| k.board().same_as(&after_e4_e5))
        .expect("no post e4 e5 question");
    assert_eq!(second.1.answers().len(), 1);
    assert_eq!(second.1.answers()[0].moves()[0].san(), "Ng1-f3");
}

#[test]
fn squares_make_64_distinct_stable_cards() {
    let tree = flatten("1. d4");
    let games = vec![(tree, Side::Black)];
    let with = gen_cards(&games, true);
    assert_eq!(with.square_facts.len(), 64);
    let mut guids = HashSet::new();
    for card in &with.square_facts {
        assert!(guids.insert(card.guid.clone()));
    }
    assert_eq!(guids.len(), 64);
    let again = square_cards();
    for (a, b) in with.square_facts.iter().zip(again.iter()) {
        assert_eq!(a.guid, b.guid);
        assert_eq!(a.name, b.name);
        assert_eq!(a.color, b.color);
        assert_eq!(a.board_text, b.board_text);
    }
    assert_eq!(with.square_facts[0].name, "a1");
    assert_eq!(with.square_facts[0].color, "dark");
    assert_eq!(with.square_facts[0].guid, "chess_square_a1");
    assert_eq!(with.square_facts[0].tag, "chess::square");
    assert_eq!(with.square_facts[63].name, "h8");
    assert_eq!(with.square_facts[63].color, "dark");
    assert_eq!(with.square_facts[7].color, "light");
}

#[test]
fn regenerated_deck_keeps_identifiers() {
    let pgn = "1. e4 e5 2. Nf3 Nc6 (2... d6 { Philidor }) 3. Bb5";
    let first = gen_cards(&vec![(flatten(pgn), Side::White)], false);
    let second = gen_cards(&vec![(flatten(pgn), Side::White)], false);
    assert_eq!(first.questions.len(), second.questions.len());
    for (a, b) in first.questions.iter().zip(second.questions.iter()) {
        assert_eq!(a.guid, b.guid);
        assert_eq!(a.front, b.front);
        assert_eq!(a.back, b.back);
        assert_eq!(a.tag, b.tag);
    }
    for card in &first.questions {
        assert_eq!(card.tag, "chess::white");
        assert!(!card.guid.is_empty());
        assert!(card.guid.chars().all(|c| c.is_ascii_digit()));
    }
}

#[test]
fn fnv_hash_matches_reference_vectors() {
    let empty: Vec<u8> = vec![];
    assert_eq!(fnv1a_hash(&empty), 14695981039346656037);
    assert_eq!(fnv1a_hash(&vec![0u8]), 12638153115695167455);
    // The digest of "a".
    assert_eq!(fnv1a_hash(&vec![0x61u8]), 12638187200555641996);
}

#[test]
fn question_card_content_holds_moves_and_comments() {
    let pgn = "1. e4 { King's pawn } e5 2. Nf3";
    let deck = gen_cards(&vec![(flatten(pgn), Side::White)], false);
    assert_eq!(deck.questions.len(), 2);
    let with_comment = deck
        .questions
        .iter()
        .find(|c| c.back.contains("e2-e4"))
        .expect("no e4 card");
    assert!(with_comment.back.contains("King's pawn"));
    assert!(with_comment.front.contains("<figure>"));
    assert!(with_comment.back.contains("<hr/>"));
    let other = deck
        .questions
        .iter()
        .find(|c| c.back.contains("Ng1-f3"))
        .expect("no Nf3 card");
    assert!(!other.back.contains("e2-e4"));
}
