//! Turns an annotated chess-opening repertoire, given as a branching move
//! tree, into study flashcards: a verified board renderer, a tree walker
//! that collects question/answer tuples for a studied side, an aggregator
//! that folds transposing lines into one entry per position, and a card
//! assembler with stable persistent identifiers.

pub mod board;
pub mod render;
pub mod tree;
pub mod aggregate;
pub mod text;
pub mod cards;
pub mod squares;
pub mod deck;
