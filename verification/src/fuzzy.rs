//! The highlighting of fuzzy-matched items: which characters of a listed
//! item the matcher picked out. The interactive picker around it lives at
//! the boundary; the chunking of an item into highlighted and plain runs is
//! decided here.

use vstd::prelude::*;

verus! {

/// Whether a character of an item is one the matcher picked out.
#[derive(Debug, Clone, Copy, PartialEq, Eq, Structural)]
pub enum HighlightState {
    Highlighted,
    NotHighlighted,
}

/// One run of characters under one highlight state.
#[derive(Debug)]
pub struct ItemHighlight {
    pub highlight_state: HighlightState,
    pub text: String,
}

/// A run's characters, each paired with whether the run is highlighted.
pub open spec fn pair_up(h: ItemHighlight) -> Seq<(char, bool)> {
    Seq::new(h.text@.len(), |i: int| (h.text@[i], h.highlight_state is Highlighted))
}

/// The runs flattened back into one character-and-state sequence.
pub open spec fn flat_of(r: Seq<ItemHighlight>) -> Seq<(char, bool)>
    decreases r.len(),
{
    if r.len() == 0 {
        Seq::empty()
    } else {
        pair_up(r[0]) + flat_of(r.drop_first())
    }
}

/// Each character of the item paired with whether the matcher picked it.
pub open spec fn expected_flat(chars: Seq<char>, indicies: Seq<u32>) -> Seq<(char, bool)> {
    Seq::new(chars.len(), |i: int| (chars[i], indicies.contains(i as u32)))
}

/// `flat_of`, one run added at the right end.
proof fn lemma_flat_snoc(r: Seq<ItemHighlight>)
    requires
        r.len() > 0,
    ensures
        flat_of(r) == flat_of(r.drop_last()) + pair_up(r.last()),
    decreases r.len(),
{
    if r.len() == 1 {
        assert(r.drop_last() =~= Seq::<ItemHighlight>::empty());
        assert(r.drop_first() =~= Seq::<ItemHighlight>::empty());
        assert(flat_of(r) =~= flat_of(r.drop_last()) + pair_up(r.last()));
    } else {
        lemma_flat_snoc(r.drop_first());
        assert(r.drop_first().drop_last() =~= r.drop_last().drop_first());
        assert(r.drop_first().last() == r.last());
        assert(r.drop_last()[0] == r[0]);
        assert(flat_of(r) =~= flat_of(r.drop_last()) + pair_up(r.last()));
    }
}

/// Cuts an item into its runs of alike characters: flattening the runs gives
/// back every character with its state, no run is empty, and neighboring
/// runs differ in state — so the runs are exactly the maximal stretches the
/// display colors in one piece.
#[verifier::rlimit(60)]
pub fn item_highlights(chars: &Vec<char>, indicies: &Vec<u32>) -> (r: Vec<ItemHighlight>)
    ensures
        flat_of(r@) == expected_flat(chars@, indicies@),
        forall|k: int| 0 <= k < r@.len() ==> (#[trigger] r@[k]).text@.len() > 0,
        forall|k: int| 0 <= k && k + 1 < r@.len() ==> (#[trigger] r@[k]).highlight_state
            != r@[k + 1].highlight_state,
{
    let n = chars.len();
    let mut out: Vec<ItemHighlight> = Vec::new();
    let mut run: Vec<char> = Vec::new();
    let mut run_state: HighlightState = HighlightState::NotHighlighted;
    let mut i: usize = 0;
    proof {
        assert(flat_of(out@) + Seq::new(run@.len(), |j: int| (run@[j], run_state is Highlighted))
            =~= expected_flat(chars@.subrange(0, 0), indicies@));
    }
    while i < n
        invariant
            0 <= i <= n,
            n == chars@.len(),
            run@.len() == 0 ==> i == 0 && out@.len() == 0,
            flat_of(out@) + Seq::new(
                run@.len(),
                |j: int| (run@[j], run_state is Highlighted),
            ) == expected_flat(chars@.subrange(0, i as int), indicies@),
            forall|k: int| 0 <= k < out@.len() ==> (#[trigger] out@[k]).text@.len() > 0,
            forall|k: int| 0 <= k && k + 1 < out@.len() ==> (#[trigger] out@[k]).highlight_state
                != out@[k + 1].highlight_state,
            out@.len() > 0 && run@.len() > 0 ==> out@.last().highlight_state != run_state,
        decreases n - i,
    {
        let ghost run_pairs_old = Seq::new(
            run@.len(),
            |j: int| (run@[j], run_state is Highlighted),
        );
        let ghost pair = (chars@[i as int], indicies@.contains(i as u32));
        let st = highlight_state(indicies, i);
        if run.len() == 0 || st == run_state {
            run.push(chars[i]);
            run_state = st;
            proof {
                let new_pairs = Seq::new(
                    run@.len(),
                    |j: int| (run@[j], run_state is Highlighted),
                );
                if run_pairs_old.len() == 0 {
                    assert(flat_of(out@) =~= Seq::<(char, bool)>::empty());
                }
                assert(new_pairs =~= run_pairs_old.push(pair));
                assert(flat_of(out@) + new_pairs =~= (flat_of(out@)
                    + run_pairs_old).push(pair));
                assert(expected_flat(chars@.subrange(0, i + 1), indicies@) =~= expected_flat(
                    chars@.subrange(0, i as int),
                    indicies@,
                ).push(pair));
            }
        } else {
            let text = crate::text::string_from_chars(&run);
            let ghost out_old = out@;
            out.push(ItemHighlight { highlight_state: run_state, text });
            run = Vec::new();
            run.push(chars[i]);
            run_state = st;
            proof {
                let new_pairs = Seq::new(
                    run@.len(),
                    |j: int| (run@[j], run_state is Highlighted),
                );
                lemma_flat_snoc(out@);
                assert(out@.drop_last() =~= out_old);
                assert(pair_up(out@.last()) =~= run_pairs_old);
                assert(new_pairs =~= Seq::<(char, bool)>::empty().push(pair));
                assert(flat_of(out@) + new_pairs =~= (flat_of(out_old)
                    + run_pairs_old).push(pair));
                assert(expected_flat(chars@.subrange(0, i + 1), indicies@) =~= expected_flat(
                    chars@.subrange(0, i as int),
                    indicies@,
                ).push(pair));
            }
        }
        i = i + 1;
    }
    if run.len() > 0 {
        let text = crate::text::string_from_chars(&run);
        let ghost out_old = out@;
        let ghost run_pairs = Seq::new(
            run@.len(),
            |j: int| (run@[j], run_state is Highlighted),
        );
        out.push(ItemHighlight { highlight_state: run_state, text });
        proof {
            lemma_flat_snoc(out@);
            assert(out@.drop_last() =~= out_old);
            assert(pair_up(out@.last()) =~= run_pairs);
            assert(chars@.subrange(0, n as int) =~= chars@);
            assert(flat_of(out@) =~= expected_flat(chars@, indicies@));
        }
    } else {
        proof {
            assert(chars@.subrange(0, 0) =~= chars@);
            assert(flat_of(out@) =~= expected_flat(chars@, indicies@));
        }
    }
    out
}

/// The state of the character at `index`, given the matched indices.
pub fn highlight_state(indicies: &Vec<u32>, index: usize) -> (r: HighlightState)
    ensures
        r is Highlighted <==> indicies@.contains(index as u32),
{
    let n = indicies.len();
    let mut i: usize = 0;
    while i < n
        invariant
            0 <= i <= n,
            n == indicies@.len(),
            forall|j: int| 0 <= j < i ==> indicies@[j] != index as u32,
        decreases n - i,
    {
        if indicies[i] == index as u32 {
            proof {
                assert(indicies@.contains(index as u32));
            }
            return HighlightState::Highlighted;
        }
        i = i + 1;
    }
    HighlightState::NotHighlighted
}

} // verus!
