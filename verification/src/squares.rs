//! The square-facts generator: one fixed card per board square, testing
//! name, location and color recognition, entirely independent of any
//! parsed game input.

use vstd::prelude::*;
use vstd::string::StringExecFns;
use crate::board::{Board, Side, file_char, is_dark, rank_char, spec_square_name, square_name_chars};
use crate::render::spec_render;
use crate::text::chars_to_string;

verus! {

/// The codes of the empty board.
pub open spec fn empty_codes() -> Seq<u8> {
    Seq::new(64, |i: int| 0u8)
}

/// The persistent identifier of a square card: derived from the square's
/// name alone, never from any game input.
pub open spec fn spec_square_guid(sq: int) -> Seq<char> {
    "chess_square_"@ + spec_square_name(sq)
}

/// Ghost image of a square card.
pub struct SquareCardV {
    pub name: Seq<char>,
    pub board_text: Seq<char>,
    pub color: Seq<char>,
    pub tag: Seq<char>,
    pub guid: Seq<char>,
}

/// One square card: the square's name, an empty board with the square
/// marked, the square's color, a fixed tag and a stable identifier.
pub struct SquareCard {
    pub name: String,
    pub board_text: String,
    pub color: String,
    pub tag: String,
    pub guid: String,
}

impl View for SquareCard {
    type V = SquareCardV;

    open spec fn view(&self) -> SquareCardV {
        SquareCardV {
            name: self.name@,
            board_text: self.board_text@,
            color: self.color@,
            tag: self.tag@,
            guid: self.guid@,
        }
    }
}

/// The card of one square.
pub open spec fn spec_square_card(sq: int) -> SquareCardV {
    SquareCardV {
        name: spec_square_name(sq),
        board_text: spec_render(empty_codes(), Side::White, seq![sq as u8]),
        color: if is_dark(sq) {
            "dark"@
        } else {
            "light"@
        },
        tag: "chess::square"@,
        guid: spec_square_guid(sq),
    }
}

/// Two distinct squares have distinct identifiers: the name characters
/// after the common prefix differ in the file letter or the rank digit.
pub proof fn lemma_square_guids_distinct(i: int, j: int)
    requires
        0 <= i < 64,
        0 <= j < 64,
        i != j,
    ensures
        spec_square_guid(i) != spec_square_guid(j),
{
    reveal_strlit("chess_square_");
    let gi = spec_square_guid(i);
    let gj = spec_square_guid(j);
    assert(gi[13] == file_char(i % 8));
    assert(gi[14] == rank_char(i / 8));
    assert(gj[13] == file_char(j % 8));
    assert(gj[14] == rank_char(j / 8));
    if i % 8 != j % 8 {
        assert(file_char(i % 8) != file_char(j % 8));
        assert(gi[13] != gj[13]);
    } else {
        assert(i / 8 != j / 8);
        assert(rank_char(i / 8) != rank_char(j / 8));
        assert(gi[14] != gj[14]);
    }
}

/// Produces exactly 64 cards, one per square in square order, with
/// pairwise distinct identifiers, whatever game input a run holds.
#[verifier::loop_isolation(false)]
pub fn square_cards() -> (r: Vec<SquareCard>)
    ensures
        r@.len() == 64,
        forall|i: int| 0 <= i < 64 ==> (#[trigger] r@[i])@ == spec_square_card(i),
        forall|i: int, j: int| 0 <= i < j < 64 ==> r@[i]@.guid != r@[j]@.guid,
{
    let empty = Board::empty();
    proof {
        assert(empty@ =~= empty_codes());
    }
    let mut out: Vec<SquareCard> = Vec::new();
    let mut sq: u8 = 0;
    while sq < 64
        invariant
            sq <= 64,
            out@.len() == sq,
            forall|i: int| 0 <= i < sq ==> (#[trigger] out@[i])@ == spec_square_card(i),
        decreases 64 - sq,
    {
        let name_chars = square_name_chars(sq);
        let name = chars_to_string(&name_chars);
        let mut marks: Vec<u8> = Vec::new();
        marks.push(sq);
        proof {
            assert(marks@ =~= seq![sq]);
        }
        let board_chars = crate::render::render_chars(&empty, Side::White, &marks);
        let board_text = chars_to_string(&board_chars);
        let mut color = String::new();
        if crate::board::square_is_dark(sq) {
            color.append("dark");
        } else {
            color.append("light");
        }
        let mut tag = String::new();
        tag.append("chess::square");
        let mut guid = String::new();
        guid.append("chess_square_");
        guid.append(name.as_str());
        let card = SquareCard { name, board_text, color, tag, guid };
        proof {
            assert(card@ == spec_square_card(sq as int));
        }
        out.push(card);
        sq += 1;
    }
    proof {
        assert forall|i: int, j: int| 0 <= i < j < 64 implies out@[i]@.guid != out@[j]@.guid by {
            lemma_square_guids_distinct(i, j);
        }
    }
    out
}

} // verus!
