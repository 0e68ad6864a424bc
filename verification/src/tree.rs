//! The move tree of one parsed game, flattened into an indexed node list,
//! and the walker that emits one question/answer tuple for every move the
//! studied side makes anywhere in the tree.

use vstd::prelude::*;
use crate::board::{Board, Side, codes_wf};

verus! {

/// Ghost image of one tree node.
pub struct TreeNodeV {
    /// Index of the parent node; `None` only at the root.
    pub parent: Option<int>,
    /// Text form of the move that led to this node; empty at the root.
    pub san: Seq<char>,
    /// Comment attached to this node; empty when there is none.
    pub comment: Seq<char>,
    /// The side to move in this node's position.
    pub side_to_move: Side,
    /// The position reached at this node.
    pub board: Seq<u8>,
}

/// One node of a game tree: the position it reaches, the move that led to
/// it, its comment, and a link to its parent. Children are implicit: every
/// non-root node names a parent that precedes it in the list.
pub struct TreeNode {
    parent: Option<usize>,
    san: String,
    comment: String,
    side_to_move: Side,
    board: Board,
}

impl View for TreeNode {
    type V = TreeNodeV;

    closed spec fn view(&self) -> TreeNodeV {
        TreeNodeV {
            parent: match self.parent {
                Some(p) => Some(p as int),
                None => None,
            },
            san: self.san@,
            comment: self.comment@,
            side_to_move: self.side_to_move,
            board: self.board@,
        }
    }
}

/// The nodes of one game, root first; node order is the traversal order the
/// producer chose, and it is the order the walker's output follows.
pub struct GameTree {
    nodes: Vec<TreeNode>,
}

impl View for GameTree {
    type V = Seq<TreeNodeV>;

    closed spec fn view(&self) -> Seq<TreeNodeV> {
        Seq::new(self.nodes@.len(), |i: int| self.nodes@[i]@)
    }
}

/// A node list is well formed when the root and only the root lacks a
/// parent, every parent link points strictly backwards, and every board is
/// well formed.
pub open spec fn tree_wf(nodes: Seq<TreeNodeV>) -> bool {
    &&& nodes.len() > 0 ==> nodes[0].parent is None
    &&& forall|i: int| 1 <= i < nodes.len() ==> ((#[trigger] nodes[i].parent) matches Some(p)
        && 0 <= p < i)
    &&& forall|i: int| 0 <= i < nodes.len() ==> codes_wf(#[trigger] nodes[i].board)
}

impl GameTree {
    /// Well-formedness of the flattened tree.
    pub open spec fn wf(&self) -> bool {
        tree_wf(self@)
    }

    /// An empty tree, to be grown with `push_root` and `push_child`.
    pub fn new() -> (r: GameTree)
        ensures
            r@ == Seq::<TreeNodeV>::empty(),
            r.wf(),
    {
        let r = GameTree { nodes: Vec::new() };
        proof {
            assert(r@ =~= Seq::<TreeNodeV>::empty());
        }
        r
    }

    /// How many nodes the tree holds.
    pub fn len(&self) -> (r: usize)
        ensures
            r == self@.len(),
    {
        self.nodes.len()
    }

    /// Places the root node: the game's starting position.
    pub fn push_root(&mut self, board: Board, side_to_move: Side)
        requires
            old(self)@.len() == 0,
            board.wf(),
        ensures
            final(self)@.len() == 1,
            final(self)@[0] == (TreeNodeV {
                parent: None,
                san: Seq::<char>::empty(),
                comment: Seq::<char>::empty(),
                side_to_move: side_to_move,
                board: board@,
            }),
            final(self).wf(),
    {
        let node = TreeNode {
            parent: None,
            san: String::new(),
            comment: String::new(),
            side_to_move,
            board,
        };
        self.nodes.push(node);
        proof {
            assert(final(self)@ =~= old(self)@.push(node@));
        }
    }

    /// Appends a node under an existing parent: the position reached by one
    /// more move, with that move's text and comment.
    pub fn push_child(
        &mut self,
        parent: usize,
        san: String,
        comment: String,
        side_to_move: Side,
        board: Board,
    )
        requires
            old(self)@.len() > 0,
            parent < old(self)@.len(),
            board.wf(),
        ensures
            final(self)@.len() == old(self)@.len() + 1,
            final(self)@ == old(self)@.push(TreeNodeV {
                parent: Some(parent as int),
                san: san@,
                comment: comment@,
                side_to_move: side_to_move,
                board: board@,
            }),
            old(self).wf() ==> final(self).wf(),
    {
        let node = TreeNode {
            parent: Some(parent),
            san,
            comment,
            side_to_move,
            board,
        };
        self.nodes.push(node);
        proof {
            assert(final(self)@ =~= old(self)@.push(node@));
        }
    }
}

/// Ghost image of one emitted tuple: the position the studied side moved
/// from, the position reached, the move's text and its comment.
pub struct EmissionV {
    pub question: Seq<u8>,
    pub answer: Seq<u8>,
    pub san: Seq<char>,
    pub comment: Seq<char>,
}

/// One tuple the walker hands to the aggregator.
pub struct Emission {
    /// The position before the studied side's move: the card's question.
    pub question: Board,
    /// The position after the move.
    pub answer: Board,
    /// The move's text form.
    pub san: String,
    /// The comment on the move, empty when there is none.
    pub comment: String,
}

impl View for Emission {
    type V = EmissionV;

    open spec fn view(&self) -> EmissionV {
        EmissionV {
            question: self.question@,
            answer: self.answer@,
            san: self.san@,
            comment: self.comment@,
        }
    }
}

/// A node yields a tuple exactly when it was reached by a move (it has a
/// parent) and the side to move at it is not the studied side: the move
/// that produced it was made by the studied side.
pub open spec fn node_emits(nodes: Seq<TreeNodeV>, i: int, side: Side) -> bool {
    &&& nodes[i].parent is Some
    &&& nodes[i].side_to_move != side
}

/// The tuple for an emitting node.
pub open spec fn emission_at(nodes: Seq<TreeNodeV>, i: int) -> EmissionV {
    EmissionV {
        question: nodes[nodes[i].parent->Some_0].board,
        answer: nodes[i].board,
        san: nodes[i].san,
        comment: nodes[i].comment,
    }
}

/// The tuples of the first `n` nodes, in node order.
pub open spec fn walk_upto(nodes: Seq<TreeNodeV>, side: Side, n: int) -> Seq<EmissionV>
    decreases n,
{
    if n <= 0 {
        Seq::empty()
    } else if node_emits(nodes, n - 1, side) {
        walk_upto(nodes, side, n - 1).push(emission_at(nodes, n - 1))
    } else {
        walk_upto(nodes, side, n - 1)
    }
}

/// Every tuple the tree yields for the studied side, in node order.
pub open spec fn spec_walk(nodes: Seq<TreeNodeV>, side: Side) -> Seq<EmissionV> {
    walk_upto(nodes, side, nodes.len() as int)
}

/// How many of the first `n` nodes emit a tuple.
pub open spec fn count_emitting(nodes: Seq<TreeNodeV>, side: Side, n: int) -> int
    decreases n,
{
    if n <= 0 {
        0
    } else if node_emits(nodes, n - 1, side) {
        count_emitting(nodes, side, n - 1) + 1
    } else {
        count_emitting(nodes, side, n - 1)
    }
}

/// Visits every node of the tree exactly once, over an explicit node list
/// rather than the call stack, and returns the question/answer tuples of
/// the moves the studied side made, in node order.
pub fn walk(tree: &GameTree, side: Side) -> (r: Vec<Emission>)
    requires
        tree.wf(),
    ensures
        Seq::new(r@.len(), |i: int| r@[i]@) == spec_walk(tree@, side),
{
    let mut out: Vec<Emission> = Vec::new();
    let n = tree.len();
    let mut i: usize = 0;
    while i < n
        invariant
            i <= n,
            n == tree@.len(),
            tree.wf(),
            Seq::new(out@.len(), |k: int| out@[k]@) == walk_upto(tree@, side, i as int),
        decreases n - i,
    {
        let node = &tree.nodes[i];
        proof {
            assert(tree@[i as int] == tree.nodes@[i as int]@);
        }
        if node.side_to_move != side {
            if let Some(p) = node.parent {
                proof {
                    assert(tree@[i as int].parent == Some(p as int));
                    assert(node_emits(tree@, i as int, side));
                }
                let e = Emission {
                    question: tree.nodes[p].board.dup(),
                    answer: node.board.dup(),
                    san: node.san.clone(),
                    comment: node.comment.clone(),
                };
                assert(e@ == emission_at(tree@, i as int));
                out.push(e);
            }
        }
        proof {
            assert(Seq::new(out@.len(), |k: int| out@[k]@) =~= walk_upto(
                tree@, side, i as int + 1));
        }
        i += 1;
    }
    out
}

/// A lone root node yields no tuple, for either studied side.
pub proof fn lemma_root_alone_yields_nothing(nodes: Seq<TreeNodeV>, side: Side)
    requires
        tree_wf(nodes),
        nodes.len() == 1,
    ensures
        spec_walk(nodes, side) == Seq::<EmissionV>::empty(),
{
    assert(nodes[0].parent is None);
    assert(walk_upto(nodes, side, 0) =~= Seq::<EmissionV>::empty());
    assert(spec_walk(nodes, side) == walk_upto(nodes, side, 1));
    assert(spec_walk(nodes, side) =~= Seq::<EmissionV>::empty());
}

/// The walk yields exactly one tuple per emitting node: a linear game with
/// N moves made by the studied side yields exactly N tuples.
pub proof fn lemma_walk_length(nodes: Seq<TreeNodeV>, side: Side)
    ensures
        spec_walk(nodes, side).len() == count_emitting(nodes, side, nodes.len() as int),
{
    lemma_walk_length_upto(nodes, side, nodes.len() as int);
}

proof fn lemma_walk_length_upto(nodes: Seq<TreeNodeV>, side: Side, n: int)
    ensures
        walk_upto(nodes, side, n).len() == count_emitting(nodes, side, n),
    decreases n,
{
    if n > 0 {
        lemma_walk_length_upto(nodes, side, n - 1);
    }
}

/// Every tuple of a well-formed tree carries well-formed boards.
pub proof fn lemma_walk_boards_wf(nodes: Seq<TreeNodeV>, side: Side, n: int)
    requires
        tree_wf(nodes),
        n <= nodes.len(),
    ensures
        forall|i: int| 0 <= i < walk_upto(nodes, side, n).len() ==> codes_wf(
            (#[trigger] walk_upto(nodes, side, n)[i]).question) && codes_wf(
            walk_upto(nodes, side, n)[i].answer),
    decreases n,
{
    if n > 0 {
        lemma_walk_boards_wf(nodes, side, n - 1);
        let prev = walk_upto(nodes, side, n - 1);
        if node_emits(nodes, n - 1, side) {
            let e = emission_at(nodes, n - 1);
            assert(codes_wf(e.answer));
            assert(codes_wf(e.question));
            assert forall|i: int| 0 <= i < walk_upto(nodes, side, n).len() implies codes_wf(
                (#[trigger] walk_upto(nodes, side, n)[i]).question) && codes_wf(
                walk_upto(nodes, side, n)[i].answer) by {
                if i < prev.len() {
                    assert(walk_upto(nodes, side, n)[i] == prev[i]);
                } else {
                    assert(walk_upto(nodes, side, n)[i] == e);
                }
            }
        }
    }
}

} // verus!
