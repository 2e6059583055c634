//! Round trip: the text that is written for a plain card reads back as that
//! card, where the regular expressions find in its lines what they were
//! written from.
//!
//! What the expressions find is not known here. The law takes it as its
//! premise that they find the header in the header line as it was written, no
//! header in any other line of the card, and the scales of the card in the
//! lines behind the header.

use vstd::prelude::*;
use crate::card::{unranged, CardView};
use crate::laws::cards::{
    card_lines, found_as_written, fresh, is_plain_record, lemma_card_lines_round_trip,
};
use crate::laws::reading::{lemma_text_reads_lines, read_lines};
use crate::laws::writing::lemma_text_splits;
use crate::setnames::SetNameMap;
use crate::transformers::xyyz::{card_text, cards_of_text, closed, finished};

verus! {

/// The text of a plain card reads as one card, which is the card that was
/// written, but for its span: where the regular expressions find in the
/// header line what it was written from, take no other line of
/// the card for a header line, and find the scales of the card in the lines
/// behind the header.
pub proof fn lemma_card_round_trip(card: CardView, names: SetNameMap, desc_lines: Seq<Seq<char>>)
    requires
        is_plain_record(card, names, desc_lines),
    ensures
        found_as_written(card, names, desc_lines) ==> {
            let cards = cards_of_text(card_text(card, names), names);
            &&& cards.len() == 1
            &&& unranged(cards[0]) == unranged(card)
        },
{
    if found_as_written(card, names, desc_lines) {
        let text = card_text(card, names);
        lemma_text_splits(card, names, desc_lines);
        lemma_text_reads_lines(text, names);
        lemma_card_lines_round_trip(card, names, desc_lines);
        let st = read_lines(card_lines(card, names, desc_lines), names, fresh(), 0);
        let open = st.current->0;
        assert(finished(st, text.len() as usize) == st.cards.push(closed(open, text.len() as usize)));
        assert(unranged(closed(open, text.len() as usize)) == unranged(open));
    }
}

} // verus!
