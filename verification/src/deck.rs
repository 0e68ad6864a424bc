//! The whole run, from parsed game trees to finished cards: every game is
//! walked for its studied side, all tuples are folded into one aggregation,
//! and the drained entries become question cards, optionally joined by the
//! square-facts cards.

use vstd::prelude::*;
use crate::aggregate::{Aggregator, EntryV, Key, KeyV, entries_insert, entries_view, entries_wf};
use crate::board::Side;
use crate::cards::{QuestionCard, assemble_cards, spec_card};
use crate::squares::{SquareCard, spec_square_card, square_cards};
use crate::tree::{EmissionV, GameTree, lemma_walk_boards_wf, spec_walk, walk};

verus! {

/// The aggregation after folding in the given tuples, in order, for one
/// studied side.
pub open spec fn insert_emissions(entries: Seq<EntryV>, ems: Seq<EmissionV>, side: Side)
    -> Seq<EntryV>
    decreases ems.len(),
{
    if ems.len() == 0 {
        entries
    } else {
        entries_insert(
            insert_emissions(entries, ems.drop_last(), side),
            KeyV { board: ems.last().question, side },
            ems.last().answer,
            ems.last().san,
            ems.last().comment,
        )
    }
}

/// The aggregation of the first `n` games: each game's walk folded in, in
/// game order.
pub open spec fn aggregate_games(games: Seq<(GameTree, Side)>, n: int) -> Seq<EntryV>
    decreases n,
{
    if n <= 0 {
        Seq::empty()
    } else {
        insert_emissions(
            aggregate_games(games, n - 1),
            spec_walk(games[n - 1].0@, games[n - 1].1),
            games[n - 1].1,
        )
    }
}

/// Everything one run produces: the question cards of the aggregated
/// repertoire, and the square-facts cards when they were asked for.
pub struct DeckCards {
    /// One card per aggregated question position, in drain order.
    pub questions: Vec<QuestionCard>,
    /// The 64 square cards, or empty when the switch is off.
    pub square_facts: Vec<SquareCard>,
}

/// Runs the whole pipeline over the parsed games, each with its studied
/// side: walks every tree, aggregates all tuples, drains once, and
/// assembles the cards.
#[verifier::loop_isolation(false)]
pub fn gen_cards(games: &Vec<(GameTree, Side)>, with_squares: bool) -> (r: DeckCards)
    requires
        forall|i: int| 0 <= i < games@.len() ==> (#[trigger] games@[i].0).wf(),
    ensures
        r.questions@.len() == aggregate_games(games@, games@.len() as int).len(),
        forall|i: int| 0 <= i < r.questions@.len() ==> (#[trigger] r.questions@[i])@ == spec_card(
            aggregate_games(games@, games@.len() as int)[i]),
        with_squares ==> r.square_facts@.len() == 64 && (forall|i: int|
            0 <= i < 64 ==> (#[trigger] r.square_facts@[i])@ == spec_square_card(i)) && (forall|
            i: int,
            j: int,
        | 0 <= i < j < 64 ==> r.square_facts@[i]@.guid != r.square_facts@[j]@.guid),
        !with_squares ==> r.square_facts@.len() == 0,
{
    let mut agg = Aggregator::new();
    let mut g: usize = 0;
    while g < games.len()
        invariant
            g <= games@.len(),
            agg.wf(),
            !agg@.drained,
            agg@.entries == aggregate_games(games@, g as int),
        decreases games@.len() - g,
    {
        let tree = &games[g].0;
        let side = games[g].1;
        let ghost walked = spec_walk(tree@, side);
        let ghost before = agg@.entries;
        proof {
            lemma_walk_boards_wf(tree@, side, tree@.len() as int);
        }
        let ems = walk(tree, side);
        let mut e: usize = 0;
        while e < ems.len()
            invariant
                e <= ems@.len(),
                agg.wf(),
                !agg@.drained,
                Seq::new(ems@.len(), |k: int| ems@[k]@) == walked,
                agg@.entries == insert_emissions(before, walked.subrange(0, e as int), side),
            decreases ems@.len() - e,
        {
            proof {
                assert(ems@[e as int]@ == walked[e as int]);
                assert(crate::board::codes_wf(walked[e as int].question));
                assert(crate::board::codes_wf(walked[e as int].answer));
            }
            let em = &ems[e];
            let key = Key::new(em.question.dup(), side);
            agg.insert(key, em.answer.dup(), em.san.clone(), em.comment.clone());
            proof {
                assert(walked.subrange(0, e + 1).drop_last() =~= walked.subrange(0, e as int));
                assert(walked.subrange(0, e + 1).last() == walked[e as int]);
                assert(agg@.entries == insert_emissions(before, walked.subrange(0, e + 1), side));
            }
            e += 1;
        }
        proof {
            assert(walked.subrange(0, walked.len() as int) =~= walked);
            assert(agg@.entries == aggregate_games(games@, g as int + 1));
        }
        g += 1;
    }
    let entries = agg.drain();
    proof {
        assert(entries_view(entries@) == aggregate_games(games@, games@.len() as int));
        assert(entries_wf(entries_view(entries@)));
    }
    let questions = assemble_cards(&entries);
    let square_facts = if with_squares {
        square_cards()
    } else {
        Vec::new()
    };
    DeckCards { questions, square_facts }
}

} // verus!
