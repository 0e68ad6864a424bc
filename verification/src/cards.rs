//! Card assembly: turns each drained aggregation entry into question and
//! answer content with a stable persistent identifier derived from the key
//! alone, so regenerating a deck from unchanged input reproduces every
//! identifier.

use vstd::prelude::*;
use vstd::string::StringExecFns;
use crate::aggregate::{
    AnswerEntry, AnswerEntryV, EntryV, Key, KeyV, MoveEntryV, Value, entries_view, entries_wf,
};
use crate::board::{Board, Side, codes_wf};
use crate::render::{render_chars, spec_render};
use crate::text::{chars_to_string, join_strings, spec_join};

verus! {

/// Offset basis of the 64-bit FNV-1a hash.
pub const FNV_OFFSET: u64 = 0xcbf29ce484222325;

/// Prime of the 64-bit FNV-1a hash.
pub const FNV_PRIME: u64 = 0x100000001b3;

/// One FNV-1a round: fold a byte into the running hash.
pub open spec fn fnv_step(h: u64, b: u8) -> u64 {
    (((h ^ (b as u64)) as int * FNV_PRIME as int) % 0x10000000000000000) as u64
}

/// The hash of the first `n` bytes.
pub open spec fn fnv_upto(s: Seq<u8>, n: int) -> u64
    decreases n,
{
    if n <= 0 {
        FNV_OFFSET
    } else {
        fnv_step(fnv_upto(s, n - 1), s[n - 1])
    }
}

/// The 64-bit FNV-1a hash of a byte sequence: a pure function of the bytes
/// alone.
pub open spec fn fnv1a(s: Seq<u8>) -> u64 {
    fnv_upto(s, s.len() as int)
}

/// Computes the FNV-1a hash of the bytes.
#[verifier::loop_isolation(false)]
pub fn fnv1a_hash(bytes: &Vec<u8>) -> (r: u64)
    ensures
        r == fnv1a(bytes@),
{
    let mut h: u64 = FNV_OFFSET;
    let mut i: usize = 0;
    while i < bytes.len()
        invariant
            i <= bytes@.len(),
            h == fnv_upto(bytes@, i as int),
        decreases bytes@.len() - i,
    {
        let x: u64 = h ^ (bytes[i] as u64);
        let prod: u128 = (x as u128) * (FNV_PRIME as u128);
        let m: u128 = prod % 0x10000000000000000u128;
        proof {
            assert(m < 0x10000000000000000u128);
        }
        h = m as u64;
        i += 1;
    }
    h
}

/// The decimal digit character for a value 0 through 9.
pub open spec fn dec_digit(d: int) -> char {
    if d == 0 {
        '0'
    } else if d == 1 {
        '1'
    } else if d == 2 {
        '2'
    } else if d == 3 {
        '3'
    } else if d == 4 {
        '4'
    } else if d == 5 {
        '5'
    } else if d == 6 {
        '6'
    } else if d == 7 {
        '7'
    } else if d == 8 {
        '8'
    } else {
        '9'
    }
}

/// The decimal digits of a non-negative number, most significant first.
pub open spec fn dec_chars(n: int) -> Seq<char>
    decreases n,
{
    if n < 10 {
        seq![dec_digit(n)]
    } else {
        dec_chars(n / 10) + seq![dec_digit(n % 10)]
    }
}

fn dec_digit_at(d: u64) -> (r: char)
    requires
        d < 10,
    ensures
        r == dec_digit(d as int),
{
    match d {
        0 => '0',
        1 => '1',
        2 => '2',
        3 => '3',
        4 => '4',
        5 => '5',
        6 => '6',
        7 => '7',
        8 => '8',
        _ => '9',
    }
}

/// Writes a number in decimal.
#[verifier::loop_isolation(false)]
pub fn u64_to_dec(n: u64) -> (r: Vec<char>)
    ensures
        r@ == dec_chars(n as int),
{
    let mut rev: Vec<char> = Vec::new();
    let mut x: u64 = n;
    while x >= 10
        invariant
            dec_chars(n as int) == dec_chars(x as int) + rev@.reverse(),
        decreases x,
    {
        let ghost rev0 = rev@;
        rev.push(dec_digit_at(x % 10));
        proof {
            assert(rev@.reverse() =~= seq![dec_digit(x as int % 10)] + rev0.reverse());
            assert(dec_chars(x as int) == dec_chars(x as int / 10) + seq![
                dec_digit(x as int % 10)]);
            assert(dec_chars(x as int / 10) + (seq![dec_digit(x as int % 10)] + rev0.reverse())
                =~= dec_chars(x as int) + rev0.reverse());
        }
        x = x / 10;
    }
    let ghost revh = rev@;
    rev.push(dec_digit_at(x));
    proof {
        assert(rev@.reverse() =~= seq![dec_digit(x as int)] + revh.reverse());
        assert(dec_chars(x as int) =~= seq![dec_digit(x as int)]);
        assert(dec_chars(n as int) =~= rev@.reverse());
    }
    let mut out: Vec<char> = Vec::new();
    let mut j: usize = rev.len();
    while j > 0
        invariant
            j <= rev@.len(),
            out@.len() == rev@.len() - j,
            forall|m: int| 0 <= m < out@.len() ==> out@[m] == rev@[rev@.len() - 1 - m],
        decreases j,
    {
        j -= 1;
        out.push(rev[j]);
    }
    proof {
        assert(out@ =~= rev@.reverse());
    }
    out
}

/// The byte string that identifies a key: the 64 square codes followed by
/// one byte for the studied side.
pub open spec fn key_bytes(k: KeyV) -> Seq<u8> {
    k.board + seq![if k.side == Side::White { 0u8 } else { 1u8 }]
}

/// The persistent identifier of a question card: the decimal form of the
/// FNV-1a hash of the key's bytes. A pure function of the key, so repeated
/// runs over unchanged input yield identical identifiers.
pub open spec fn spec_guid(k: KeyV) -> Seq<char> {
    dec_chars(fnv1a(key_bytes(k)) as int)
}

/// Computes the persistent identifier of a key.
#[verifier::loop_isolation(false)]
pub fn key_guid(key: &Key) -> (r: String)
    requires
        key.wf(),
    ensures
        r@ == spec_guid(key@),
{
    let board = key.board();
    let mut bytes: Vec<u8> = Vec::new();
    let mut i: u8 = 0;
    while i < 64
        invariant
            i <= 64,
            bytes@ == key@.board.subrange(0, i as int),
        decreases 64 - i,
    {
        bytes.push(board.at(i));
        proof {
            assert(bytes@ =~= key@.board.subrange(0, i + 1));
        }
        i += 1;
    }
    bytes.push(if key.side() == Side::White { 0u8 } else { 1u8 });
    proof {
        assert(key@.board.subrange(0, 64) =~= key@.board);
        assert(bytes@ =~= key_bytes(key@));
    }
    let h = fnv1a_hash(&bytes);
    chars_to_string(&u64_to_dec(h))
}

/// The name of a side, as it appears in a card's tag.
pub open spec fn side_name(side: Side) -> Seq<char> {
    if side == Side::White {
        "white"@
    } else {
        "black"@
    }
}

/// One rendered position wrapped in its figure frame, captioned with
/// `caption`.
pub open spec fn figure_block(board: Seq<u8>, side: Side, caption: Seq<char>) -> Seq<char> {
    "<figure><div class=\"chess\">"@ + spec_render(board, side, Seq::empty())
        + "</div><figcaption>"@ + caption + "</figcaption></figure>"@
}

/// The line shown for one move: its text, a break, and its joined
/// comments.
pub open spec fn move_line(m: MoveEntryV) -> Seq<char> {
    m.san + "<br/>"@ + spec_join(m.comments, "<br/>"@)
}

/// The text of the first `n` move lines, each followed by a break.
pub open spec fn moves_text(moves: Seq<MoveEntryV>, n: int) -> Seq<char>
    decreases n,
{
    if n <= 0 {
        Seq::empty()
    } else {
        moves_text(moves, n - 1) + move_line(moves[n - 1]) + "<br/>\n"@
    }
}

/// The answer text of the first `n` resulting positions: each one a figure
/// of the position with its move lines, followed by a divider.
pub open spec fn answers_text(answers: Seq<AnswerEntryV>, side: Side, n: int) -> Seq<char>
    decreases n,
{
    if n <= 0 {
        Seq::empty()
    } else {
        answers_text(answers, side, n - 1) + figure_block(
            answers[n - 1].board,
            side,
            moves_text(answers[n - 1].moves, answers[n - 1].moves.len() as int),
        ) + "<hr/>\n"@
    }
}

/// The front of a question card: the question position viewed from the
/// studied side, captioned with the joined question annotations.
pub open spec fn spec_front(e: EntryV) -> Seq<char> {
    figure_block(e.key.board, e.key.side, spec_join(e.value.questions, "<br/>\n"@))
}

/// The back of a question card: every resulting position with its moves
/// and comments.
pub open spec fn spec_back(e: EntryV) -> Seq<char> {
    answers_text(e.value.answers, e.key.side, e.value.answers.len() as int)
}

/// The tag of a question card.
pub open spec fn spec_tag(side: Side) -> Seq<char> {
    "chess::"@ + side_name(side)
}

/// Ghost image of a question card.
pub struct QuestionCardV {
    pub front: Seq<char>,
    pub back: Seq<char>,
    pub tag: Seq<char>,
    pub guid: Seq<char>,
}

/// One finished question card: front and back content, a tag naming the
/// studied side, and the persistent identifier.
pub struct QuestionCard {
    pub front: String,
    pub back: String,
    pub tag: String,
    pub guid: String,
}

impl View for QuestionCard {
    type V = QuestionCardV;

    open spec fn view(&self) -> QuestionCardV {
        QuestionCardV { front: self.front@, back: self.back@, tag: self.tag@, guid: self.guid@ }
    }
}

/// The card of one aggregated entry.
pub open spec fn spec_card(e: EntryV) -> QuestionCardV {
    QuestionCardV {
        front: spec_front(e),
        back: spec_back(e),
        tag: spec_tag(e.key.side),
        guid: spec_guid(e.key),
    }
}

fn render_string(board: &Board, side: Side) -> (r: String)
    requires
        board.wf(),
    ensures
        r@ == spec_render(board@, side, Seq::empty()),
{
    let marks: Vec<u8> = Vec::new();
    let chars = render_chars(board, side, &marks);
    proof {
        assert(marks@ =~= Seq::<u8>::empty());
    }
    chars_to_string(&chars)
}

#[verifier::loop_isolation(false)]
#[verifier::rlimit(60)]
fn answer_text_of(value: &Value, side: Side) -> (r: String)
    requires
        forall|j: int| 0 <= j < value@.answers.len() ==> codes_wf(
            (#[trigger] value@.answers[j].board)),
    ensures
        r@ == answers_text(value@.answers, side, value@.answers.len() as int),
{
    let mut out = String::new();
    let answers: &Vec<AnswerEntry> = value.answers();
    let mut i: usize = 0;
    while i < answers.len()
        invariant
            i <= answers@.len(),
            crate::aggregate::answers_view(answers@) == value@.answers,
            out@ == answers_text(value@.answers, side, i as int),
        decreases answers@.len() - i,
    {
        proof {
            assert(value@.answers[i as int] == answers@[i as int]@);
        }
        let a = &answers[i];
        out.append("<figure><div class=\"chess\">");
        let rendered = render_string(a.board(), side);
        out.append(rendered.as_str());
        out.append("</div><figcaption>");
        let moves = a.moves();
        let mut l: usize = 0;
        while l < moves.len()
            invariant
                l <= moves@.len(),
                crate::aggregate::moves_view(moves@) == value@.answers[i as int].moves,
                i < answers@.len(),
                out@ == answers_text(value@.answers, side, i as int) + "<figure><div class=\"chess\">"@
                    + spec_render(value@.answers[i as int].board, side, Seq::empty())
                    + "</div><figcaption>"@ + moves_text(value@.answers[i as int].moves, l as int),
            decreases moves@.len() - l,
        {
            proof {
                assert(value@.answers[i as int].moves[l as int] == moves@[l as int]@);
            }
            let m = &moves[l];
            let ghost mv = value@.answers[i as int].moves[l as int];
            out.append(m.san().as_str());
            out.append("<br/>");
            let joined = join_strings(m.comments(), "<br/>");
            out.append(joined.as_str());
            out.append("<br/>\n");
            proof {
                assert(moves_text(value@.answers[i as int].moves, l + 1) == moves_text(
                    value@.answers[i as int].moves, l as int) + move_line(mv) + "<br/>\n"@);
                assert(out@ =~= answers_text(value@.answers, side, i as int)
                    + "<figure><div class=\"chess\">"@ + spec_render(
                    value@.answers[i as int].board, side, Seq::empty()) + "</div><figcaption>"@
                    + moves_text(value@.answers[i as int].moves, l + 1));
            }
            l += 1;
        }
        out.append("</figcaption></figure>");
        out.append("<hr/>\n");
        proof {
            let a0 = value@.answers[i as int];
            assert(answers_text(value@.answers, side, i as int + 1) == answers_text(
                value@.answers, side, i as int) + figure_block(
                a0.board, side, moves_text(a0.moves, a0.moves.len() as int)) + "<hr/>\n"@);
            assert(out@ =~= answers_text(value@.answers, side, i as int + 1));
        }
        i += 1;
    }
    out
}

/// Assembles the card of one drained entry: front, back, tag and
/// persistent identifier, each exactly the specified content.
pub fn assemble_card(key: &Key, value: &Value) -> (r: QuestionCard)
    requires
        key.wf(),
        forall|j: int| 0 <= j < value@.answers.len() ==> codes_wf(
            (#[trigger] value@.answers[j].board)),
    ensures
        r@ == spec_card(EntryV { key: key@, value: value@ }),
{
    let mut front = String::new();
    front.append("<figure><div class=\"chess\">");
    let rendered = render_string(key.board(), key.side());
    front.append(rendered.as_str());
    front.append("</div><figcaption>");
    let joined = join_strings(value.questions(), "<br/>\n");
    front.append(joined.as_str());
    front.append("</figcaption></figure>");
    let back = answer_text_of(value, key.side());
    let mut tag = String::new();
    tag.append("chess::");
    if key.side() == Side::White {
        tag.append("white");
    } else {
        tag.append("black");
    }
    let guid = key_guid(key);
    QuestionCard { front, back, tag, guid }
}

/// Assembles every drained entry into its card, in drain order.
#[verifier::loop_isolation(false)]
pub fn assemble_cards(entries: &Vec<(Key, Value)>) -> (r: Vec<QuestionCard>)
    requires
        entries_wf(entries_view(entries@)),
    ensures
        r@.len() == entries@.len(),
        forall|i: int| 0 <= i < r@.len() ==> (#[trigger] r@[i])@ == spec_card(
            entries_view(entries@)[i]),
    {
    let mut out: Vec<QuestionCard> = Vec::new();
    let mut i: usize = 0;
    while i < entries.len()
        invariant
            i <= entries@.len(),
            out@.len() == i,
            forall|j: int| 0 <= j < i ==> (#[trigger] out@[j])@ == spec_card(
                entries_view(entries@)[j]),
        decreases entries@.len() - i,
    {
        proof {
            let ev = entries_view(entries@);
            assert(ev[i as int] == (EntryV {
                key: entries@[i as int].0@,
                value: entries@[i as int].1@,
            }));
            assert(codes_wf(ev[i as int].key.board));
            assert(codes_wf(entries@[i as int].0@.board));
            assert(forall|j: int| 0 <= j < ev[i as int].value.answers.len() ==> codes_wf((
                #[trigger] ev[i as int].value.answers[j].board)));
            assert(ev[i as int].value == entries@[i as int].1@);
            assert forall|j: int| 0 <= j < entries@[i as int].1@.answers.len() implies codes_wf((
                #[trigger] entries@[i as int].1@.answers[j].board)) by {
                assert(entries@[i as int].1@.answers[j] == ev[i as int].value.answers[j]);
            }
        }
        let card = assemble_card(&entries[i].0, &entries[i].1);
        out.push(card);
        i += 1;
    }
    out
}

} // verus!
