//! The repertoire aggregator: a drain-once builder that folds the tuples of
//! many games into one entry per question position, merging transposing
//! lines and collecting each move's comments in arrival order.

use vstd::prelude::*;
use crate::board::{Board, Side, codes_wf};

verus! {

/// View of a sequence of strings as a sequence of character sequences.
pub open spec fn strings_view(v: Seq<String>) -> Seq<Seq<char>> {
    Seq::new(v.len(), |i: int| v[i]@)
}

/// Ghost image of an aggregation key.
pub struct KeyV {
    pub board: Seq<u8>,
    pub side: Side,
}

/// The key of one flashcard question: the position before the studied
/// side's move, and the studied side.
pub struct Key {
    board: Board,
    side: Side,
}

impl View for Key {
    type V = KeyV;

    closed spec fn view(&self) -> KeyV {
        KeyV { board: self.board@, side: self.side }
    }
}

impl Key {
    pub open spec fn wf(&self) -> bool {
        codes_wf(self@.board)
    }

    pub fn new(board: Board, side: Side) -> (r: Key)
        ensures
            r@ == (KeyV { board: board@, side: side }),
            board.wf() ==> r.wf(),
    {
        Key { board, side }
    }

    /// The question position.
    pub fn board(&self) -> (r: &Board)
        ensures
            r@ == self@.board,
    {
        &self.board
    }

    /// The studied side.
    pub fn side(&self) -> (r: Side)
        ensures
            r == self@.side,
    {
        self.side
    }
}

/// Ghost image of one move under one resulting position.
pub struct MoveEntryV {
    pub san: Seq<char>,
    pub comments: Seq<Seq<char>>,
}

/// One move leading to a resulting position, with its comments in arrival
/// order; duplicates are kept.
pub struct MoveEntry {
    san: String,
    comments: Vec<String>,
}

impl View for MoveEntry {
    type V = MoveEntryV;

    closed spec fn view(&self) -> MoveEntryV {
        MoveEntryV { san: self.san@, comments: strings_view(self.comments@) }
    }
}

impl MoveEntry {
    /// The move's text form.
    pub fn san(&self) -> (r: &String)
        ensures
            r@ == self@.san,
    {
        &self.san
    }

    /// The comments gathered for this move.
    pub fn comments(&self) -> (r: &Vec<String>)
        ensures
            strings_view(r@) == self@.comments,
    {
        &self.comments
    }
}

/// Ghost image of one resulting position and its moves.
pub struct AnswerEntryV {
    pub board: Seq<u8>,
    pub moves: Seq<MoveEntryV>,
}

/// One resulting position under a question, with every move that reached
/// it.
pub struct AnswerEntry {
    board: Board,
    moves: Vec<MoveEntry>,
}

/// View of a sequence of move entries.
pub open spec fn moves_view(v: Seq<MoveEntry>) -> Seq<MoveEntryV> {
    Seq::new(v.len(), |i: int| v[i]@)
}

impl View for AnswerEntry {
    type V = AnswerEntryV;

    closed spec fn view(&self) -> AnswerEntryV {
        AnswerEntryV { board: self.board@, moves: moves_view(self.moves@) }
    }
}

impl AnswerEntry {
    /// The resulting position.
    pub fn board(&self) -> (r: &Board)
        ensures
            r@ == self@.board,
    {
        &self.board
    }

    /// The moves that reach this position, in first-arrival order.
    pub fn moves(&self) -> (r: &Vec<MoveEntry>)
        ensures
            moves_view(r@) == self@.moves,
    {
        &self.moves
    }
}

/// Ghost image of an aggregation value.
pub struct ValueV {
    pub answers: Seq<AnswerEntryV>,
    pub questions: Seq<Seq<char>>,
}

/// Everything gathered under one question: the resulting positions with
/// their moves and comments, and a reserved list of question annotations
/// that no current producer fills.
pub struct Value {
    answers: Vec<AnswerEntry>,
    questions: Vec<String>,
}

/// View of a sequence of answer entries.
pub open spec fn answers_view(v: Seq<AnswerEntry>) -> Seq<AnswerEntryV> {
    Seq::new(v.len(), |i: int| v[i]@)
}

impl View for Value {
    type V = ValueV;

    closed spec fn view(&self) -> ValueV {
        ValueV { answers: answers_view(self.answers@), questions: strings_view(self.questions@) }
    }
}

impl Value {
    /// The resulting positions, in first-arrival order.
    pub fn answers(&self) -> (r: &Vec<AnswerEntry>)
        ensures
            answers_view(r@) == self@.answers,
    {
        &self.answers
    }

    /// The reserved question annotations.
    pub fn questions(&self) -> (r: &Vec<String>)
        ensures
            strings_view(r@) == self@.questions,
    {
        &self.questions
    }
}

/// Ghost image of one aggregated entry.
pub struct EntryV {
    pub key: KeyV,
    pub value: ValueV,
}

/// The first index at or after `i` holding the move `san`, or the length
/// when it is absent.
pub open spec fn find_move(moves: Seq<MoveEntryV>, san: Seq<char>, i: int) -> int
    decreases moves.len() - i,
{
    if i < 0 || i >= moves.len() {
        moves.len() as int
    } else if moves[i].san == san {
        i
    } else {
        find_move(moves, san, i + 1)
    }
}

/// The first index at or after `i` holding the resulting position `board`,
/// or the length when it is absent.
pub open spec fn find_answer(answers: Seq<AnswerEntryV>, board: Seq<u8>, i: int) -> int
    decreases answers.len() - i,
{
    if i < 0 || i >= answers.len() {
        answers.len() as int
    } else if answers[i].board == board {
        i
    } else {
        find_answer(answers, board, i + 1)
    }
}

/// The first index at or after `i` holding the key `k`, or the length when
/// it is absent.
pub open spec fn find_key(entries: Seq<EntryV>, k: KeyV, i: int) -> int
    decreases entries.len() - i,
{
    if i < 0 || i >= entries.len() {
        entries.len() as int
    } else if entries[i].key == k {
        i
    } else {
        find_key(entries, k, i + 1)
    }
}

proof fn lemma_find_move_agree(moves: Seq<MoveEntryV>, san: Seq<char>, i: int)
    requires
        0 <= i <= moves.len(),
        forall|j: int| 0 <= j < i ==> (#[trigger] moves[j].san) != san,
    ensures
        find_move(moves, san, 0) == find_move(moves, san, i),
    decreases i,
{
    if i > 0 {
        lemma_find_move_agree(moves, san, i - 1);
    }
}

proof fn lemma_find_answer_agree(answers: Seq<AnswerEntryV>, board: Seq<u8>, i: int)
    requires
        0 <= i <= answers.len(),
        forall|j: int| 0 <= j < i ==> (#[trigger] answers[j].board) != board,
    ensures
        find_answer(answers, board, 0) == find_answer(answers, board, i),
    decreases i,
{
    if i > 0 {
        lemma_find_answer_agree(answers, board, i - 1);
    }
}

proof fn lemma_find_key_agree(entries: Seq<EntryV>, k: KeyV, i: int)
    requires
        0 <= i <= entries.len(),
        forall|j: int| 0 <= j < i ==> (#[trigger] entries[j].key) != k,
    ensures
        find_key(entries, k, 0) == find_key(entries, k, i),
    decreases i,
{
    if i > 0 {
        lemma_find_key_agree(entries, k, i - 1);
    }
}

/// A move entry after one more sighting: the comment is appended only when
/// it is non-empty.
pub open spec fn with_comment(m: MoveEntryV, comment: Seq<char>) -> MoveEntryV {
    MoveEntryV {
        san: m.san,
        comments: if comment.len() == 0 {
            m.comments
        } else {
            m.comments.push(comment)
        },
    }
}

/// Inserting a move into a move list: appends the comment to an existing
/// entry for the same move text, or starts a new entry at the end.
pub open spec fn moves_insert(moves: Seq<MoveEntryV>, san: Seq<char>, comment: Seq<char>)
    -> Seq<MoveEntryV> {
    let i = find_move(moves, san, 0);
    if i < moves.len() {
        moves.update(i, with_comment(moves[i], comment))
    } else {
        moves.push(with_comment(MoveEntryV { san, comments: Seq::empty() }, comment))
    }
}

/// Inserting into an answer list: extends the entry of the same resulting
/// position, or starts a new one at the end.
pub open spec fn answers_insert(
    answers: Seq<AnswerEntryV>,
    board: Seq<u8>,
    san: Seq<char>,
    comment: Seq<char>,
) -> Seq<AnswerEntryV> {
    let i = find_answer(answers, board, 0);
    if i < answers.len() {
        answers.update(i, AnswerEntryV {
            board: answers[i].board,
            moves: moves_insert(answers[i].moves, san, comment),
        })
    } else {
        answers.push(AnswerEntryV { board, moves: moves_insert(Seq::empty(), san, comment) })
    }
}

/// Inserting into the entry list: extends the value under an existing key,
/// or starts a fresh one at the end. The whole aggregation is built by
/// folding this over the emitted tuples, so tuple order only affects
/// comment order within one move.
pub open spec fn entries_insert(
    entries: Seq<EntryV>,
    k: KeyV,
    board: Seq<u8>,
    san: Seq<char>,
    comment: Seq<char>,
) -> Seq<EntryV> {
    let i = find_key(entries, k, 0);
    if i < entries.len() {
        entries.update(i, EntryV {
            key: entries[i].key,
            value: ValueV {
                answers: answers_insert(entries[i].value.answers, board, san, comment),
                questions: entries[i].value.questions,
            },
        })
    } else {
        entries.push(EntryV {
            key: k,
            value: ValueV {
                answers: answers_insert(Seq::empty(), board, san, comment),
                questions: Seq::empty(),
            },
        })
    }
}

/// Ghost image of the aggregator.
pub struct AggregatorV {
    pub entries: Seq<EntryV>,
    pub drained: bool,
}

/// The aggregator: created empty, filled by `insert`, emptied exactly once
/// by `drain`; inserts after the drain are ignored.
pub struct Aggregator {
    entries: Vec<(Key, Value)>,
    drained: bool,
}

/// View of the entry list.
pub open spec fn entries_view(v: Seq<(Key, Value)>) -> Seq<EntryV> {
    Seq::new(v.len(), |i: int| EntryV { key: v[i].0@, value: v[i].1@ })
}

impl View for Aggregator {
    type V = AggregatorV;

    closed spec fn view(&self) -> AggregatorV {
        AggregatorV { entries: entries_view(self.entries@), drained: self.drained }
    }
}

/// Well-formedness of an aggregation: boards have 64 squares and keys are
/// pairwise distinct, so a drain hands out each inserted key exactly once.
pub open spec fn entries_wf(entries: Seq<EntryV>) -> bool {
    &&& forall|i: int| 0 <= i < entries.len() ==> codes_wf((#[trigger] entries[i].key).board)
    &&& forall|i: int| 0 <= i < entries.len() ==> forall|j: int|
        0 <= j < (#[trigger] entries[i].value.answers).len() ==> codes_wf((
        #[trigger] entries[i].value.answers[j].board))
    &&& forall|i: int, j: int| 0 <= i < j < entries.len() ==> (#[trigger] entries[i].key) != (
    #[trigger] entries[j].key)
}

impl Aggregator {
    pub open spec fn wf(&self) -> bool {
        &&& entries_wf(self@.entries)
        &&& self@.drained ==> self@.entries.len() == 0
    }

    /// A fresh, empty aggregation in its building state.
    pub fn new() -> (r: Aggregator)
        ensures
            r@.entries == Seq::<EntryV>::empty(),
            !r@.drained,
            r.wf(),
    {
        let r = Aggregator { entries: Vec::new(), drained: false };
        proof {
            assert(r@.entries =~= Seq::<EntryV>::empty());
        }
        r
    }

    /// Records one tuple: under `key`, for resulting position `board` and
    /// move `san`, appends `comment` when it is non-empty, creating the
    /// entry, the answer and the move lazily. A no-op once drained.
    #[verifier::loop_isolation(false)]
    pub fn insert(&mut self, key: Key, board: Board, san: String, comment: String)
        requires
            old(self).wf(),
            key.wf(),
            board.wf(),
        ensures
            final(self).wf(),
            old(self)@.drained ==> final(self)@ == old(self)@,
            !old(self)@.drained ==> !final(self)@.drained && final(self)@.entries
                == entries_insert(old(self)@.entries, key@, board@, san@, comment@),
    {
        if self.drained {
            return;
        }
        let ghost entries0 = self@.entries;
        let n = self.entries.len();
        let mut i: usize = 0;
        while i < n
            invariant
                i <= n,
                n == entries0.len(),
                self@.entries == entries0,
                !self@.drained,
                forall|j: int| 0 <= j < i ==> (#[trigger] entries0[j].key) != key@,
            decreases n - i,
        {
            let same_board = self.entries[i].0.board().same_as(&key.board);
            let same_side = self.entries[i].0.side() == key.side();
            proof {
                assert(entries0[i as int].key == self.entries@[i as int].0@);
            }
            if same_board && same_side {
                proof {
                    assert(entries0[i as int].key == key@);
                    lemma_find_key_agree(entries0, key@, i as int);
                    assert(find_key(entries0, key@, 0) == i as int);
                }
                let (k0, mut v0) = self.entries.remove(i);
                value_insert(&mut v0, board, san, comment);
                self.entries.insert(i, (k0, v0));
                proof {
                    assert(self@.entries =~= entries_insert(
                        entries0, key@, board@, san@, comment@));
                }
                return;
            }
            proof {
                assert(entries0[i as int].key != key@);
            }
            i += 1;
        }
        proof {
            lemma_find_key_agree(entries0, key@, n as int);
            assert(find_key(entries0, key@, 0) == entries0.len());
        }
        let mut v0 = Value { answers: Vec::new(), questions: Vec::new() };
        proof {
            assert(v0@.answers =~= Seq::<AnswerEntryV>::empty());
            assert(v0@.questions =~= Seq::<Seq<char>>::empty());
        }
        value_insert(&mut v0, board, san, comment);
        self.entries.push((key, v0));
        proof {
            assert(self@.entries =~= entries_insert(entries0, key@, board@, san@, comment@));
        }
    }

    /// Hands out every entry exactly once and leaves the aggregation empty
    /// and drained; once drained, it returns nothing ever after.
    pub fn drain(&mut self) -> (r: Vec<(Key, Value)>)
        requires
            old(self).wf(),
        ensures
            final(self).wf(),
            final(self)@.drained,
            final(self)@.entries == Seq::<EntryV>::empty(),
            !old(self)@.drained ==> entries_view(r@) == old(self)@.entries
                && entries_wf(entries_view(r@)),
            old(self)@.drained ==> r@.len() == 0,
    {
        self.drained = true;
        let r = self.entries.split_off(0);
        proof {
            assert(entries_view(r@) =~= old(self)@.entries);
            assert(self@.entries =~= Seq::<EntryV>::empty());
        }
        r
    }
}

#[verifier::loop_isolation(false)]
fn value_insert(v: &mut Value, board: Board, san: String, comment: String)
    requires
        board.wf(),
        forall|j: int| 0 <= j < old(v)@.answers.len() ==> codes_wf((#[trigger] old(
            v)@.answers[j].board)),
    ensures
        final(v)@.answers == answers_insert(old(v)@.answers, board@, san@, comment@),
        final(v)@.questions == old(v)@.questions,
        forall|j: int| 0 <= j < final(v)@.answers.len() ==> codes_wf((#[trigger] final(
            v)@.answers[j].board)),
{
    let ghost answers0 = v@.answers;
    let n = v.answers.len();
    let mut i: usize = 0;
    while i < n
        invariant
            i <= n,
            n == answers0.len(),
            v@.answers == answers0,
            v@.questions == old(v)@.questions,
            forall|j: int| 0 <= j < i ==> (#[trigger] answers0[j].board) != board@,
        decreases n - i,
    {
        proof {
            assert(answers0[i as int] == v.answers@[i as int]@);
        }
        if v.answers[i].board().same_as(&board) {
            proof {
                lemma_find_answer_agree(answers0, board@, i as int);
                assert(find_answer(answers0, board@, 0) == i as int);
            }
            let mut a0 = v.answers.remove(i);
            moves_insert_vec(&mut a0.moves, san, comment);
            proof {
                assert(a0@.board == answers0[i as int].board);
            }
            v.answers.insert(i, a0);
            proof {
                assert(v@.answers =~= answers_insert(answers0, board@, san@, comment@));
            }
            return;
        }
        i += 1;
    }
    proof {
        lemma_find_answer_agree(answers0, board@, n as int);
        assert(find_answer(answers0, board@, 0) == answers0.len());
    }
    let mut a0 = AnswerEntry { board, moves: Vec::new() };
    proof {
        assert(a0@.moves =~= Seq::<MoveEntryV>::empty());
    }
    moves_insert_vec(&mut a0.moves, san, comment);
    v.answers.push(a0);
    proof {
        assert(v@.answers =~= answers_insert(answers0, board@, san@, comment@));
    }
}

#[verifier::loop_isolation(false)]
fn moves_insert_vec(moves: &mut Vec<MoveEntry>, san: String, comment: String)
    ensures
        moves_view(final(moves)@) == moves_insert(moves_view(old(moves)@), san@, comment@),
{
    let ghost moves0 = moves_view(old(moves)@);
    let n = moves.len();
    let mut i: usize = 0;
    while i < n
        invariant
            i <= n,
            n == moves0.len(),
            moves_view(moves@) == moves0,
            forall|j: int| 0 <= j < i ==> (#[trigger] moves0[j].san) != san@,
        decreases n - i,
    {
        proof {
            assert(moves0[i as int] == moves@[i as int]@);
        }
        if moves[i].san().eq(&san) {
            proof {
                lemma_find_move_agree(moves0, san@, i as int);
                assert(find_move(moves0, san@, 0) == i as int);
            }
            let mut m0 = moves.remove(i);
            if !comment.as_str().is_empty() {
                m0.comments.push(comment);
            }
            proof {
                assert(m0@.comments =~= with_comment(moves0[i as int], comment@).comments);
                assert(m0@ == with_comment(moves0[i as int], comment@));
            }
            moves.insert(i, m0);
            proof {
                assert(moves_view(moves@) =~= moves_insert(moves0, san@, comment@));
            }
            return;
        }
        i += 1;
    }
    proof {
        lemma_find_move_agree(moves0, san@, n as int);
        assert(find_move(moves0, san@, 0) == moves0.len());
    }
    let mut m0 = MoveEntry { san, comments: Vec::new() };
    if !comment.as_str().is_empty() {
        m0.comments.push(comment);
    }
    proof {
        assert(m0@.comments =~= with_comment(
            MoveEntryV { san: m0@.san, comments: Seq::empty() }, comment@).comments);
    }
    moves.push(m0);
    proof {
        assert(moves_view(moves@) =~= moves_insert(moves0, san@, comment@));
    }
}

/// The comment sequence stored for move `san` under resulting position
/// `board` of key `k`, or the empty sequence where no such move is stored.
pub open spec fn comments_of(entries: Seq<EntryV>, k: KeyV, board: Seq<u8>, san: Seq<char>)
    -> Seq<Seq<char>> {
    let i = find_key(entries, k, 0);
    if i < entries.len() {
        let answers = entries[i].value.answers;
        let j = find_answer(answers, board, 0);
        if j < answers.len() {
            let moves = answers[j].moves;
            let l = find_move(moves, san, 0);
            if l < moves.len() {
                moves[l].comments
            } else {
                Seq::empty()
            }
        } else {
            Seq::empty()
        }
    } else {
        Seq::empty()
    }
}

/// Inserting a tuple for `(k, board, san)` first with comment `c1`, then
/// with comment `c2`, stores the comment sequence `[c1, c2]`, in that
/// order, where the key was not present before.
pub proof fn lemma_comments_arrive_in_order(
    entries: Seq<EntryV>,
    k: KeyV,
    board: Seq<u8>,
    san: Seq<char>,
    c1: Seq<char>,
    c2: Seq<char>,
)
    requires
        c1.len() > 0,
        c2.len() > 0,
        forall|j: int| 0 <= j < entries.len() ==> (#[trigger] entries[j].key) != k,
    ensures
        comments_of(
            entries_insert(entries_insert(entries, k, board, san, c1), k, board, san, c2),
            k,
            board,
            san,
        ) == seq![c1, c2],
{
    lemma_find_key_agree(entries, k, entries.len() as int);
    assert(find_key(entries, k, 0) == entries.len());
    let e1 = entries_insert(entries, k, board, san, c1);
    let m1 = MoveEntryV { san, comments: seq![c1] };
    assert(moves_insert(Seq::empty(), san, c1) =~= seq![m1]) by {
        assert(with_comment(MoveEntryV { san, comments: Seq::empty() }, c1).comments =~= seq![
            c1]);
    };
    let a1 = AnswerEntryV { board, moves: seq![m1] };
    assert(answers_insert(Seq::empty(), board, san, c1) =~= seq![a1]);
    assert(e1 == entries.push(EntryV {
        key: k,
        value: ValueV { answers: seq![a1], questions: Seq::empty() },
    }));
    lemma_find_key_agree(e1, k, entries.len() as int);
    let i = find_key(e1, k, 0);
    assert(i == entries.len());
    assert(e1[i].value.answers == seq![a1]);
    assert(find_answer(seq![a1], board, 0) == 0);
    assert(find_move(seq![m1], san, 0) == 0);
    let m2 = MoveEntryV { san, comments: seq![c1, c2] };
    assert(moves_insert(seq![m1], san, c2) =~= seq![m2]) by {
        assert(with_comment(m1, c2).comments =~= seq![c1, c2]);
    };
    let a2 = AnswerEntryV { board, moves: seq![m2] };
    assert(answers_insert(seq![a1], board, san, c2) =~= seq![a2]);
    let e2 = entries_insert(e1, k, board, san, c2);
    assert(e2 == e1.update(i, EntryV {
        key: k,
        value: ValueV { answers: seq![a2], questions: Seq::empty() },
    }));
    lemma_find_key_agree(e2, k, entries.len() as int);
    assert(find_key(e2, k, 0) == i);
    assert(comments_of(e2, k, board, san) == seq![c1, c2]);
}

} // verus!
