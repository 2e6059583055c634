//! Round trip of a batch: the texts of plain cards, joined with an empty
//! line between each two, read back as these cards in their order, where
//! the regular expressions find in each card what it was written from.

use vstd::prelude::*;
use crate::card::{card_texts, unranged, CardView};
use crate::laws::cards::{
    card_lines, completed, found_as_written, fresh, is_plain_record, lemma_card_lines_read,
};
use crate::laws::reading::{lemma_read_lines_append, lemma_text_reads_lines, lines_len, read_lines};
use crate::laws::writing::{lemma_lines_unbroken, lemma_text_is_lines};
use crate::setnames::SetNameMap;
use crate::text::{has_char, is_blank, join, lemma_join_append, lemma_split_join, starts_with};
use crate::transformers::xyyz::{
    card_text, cards_of_text, closed, line_step, without_cr, ReaderState,
};

verus! {

/// The lines that are written for the cards, an empty line between each two
/// cards; `descs` holds the lines of the description of each card.
pub open spec fn batch_lines(
    cards: Seq<CardView>,
    names: SetNameMap,
    descs: Seq<Seq<Seq<char>>>,
) -> Seq<Seq<char>>
    decreases cards.len(),
{
    if cards.len() == 0 || descs.len() != cards.len() {
        seq![]
    } else if cards.len() == 1 {
        card_lines(cards[0], names, descs[0])
    } else {
        batch_lines(cards.drop_last(), names, descs.drop_last()) + seq![Seq::<char>::empty()]
            + card_lines(cards.last(), names, descs.last())
    }
}

/// The text of the cards, an empty line between each two.
pub open spec fn batch_text(cards: Seq<CardView>, names: SetNameMap) -> Seq<char> {
    join(card_texts(cards, |c: CardView| card_text(c, names)), "\n\n"@)
}

/// Whether each card can be read back, with the given lines of its
/// description.
pub open spec fn all_plain(
    cards: Seq<CardView>,
    names: SetNameMap,
    descs: Seq<Seq<Seq<char>>>,
) -> bool {
    &&& descs.len() == cards.len()
    &&& forall|i: int| 0 <= i < cards.len() ==> is_plain_record(#[trigger] cards[i], names, descs[i])
}

/// Whether the regular expressions find in each card what it was written
/// from.
pub open spec fn all_found(
    cards: Seq<CardView>,
    names: SetNameMap,
    descs: Seq<Seq<Seq<char>>>,
) -> bool {
    forall|i: int| 0 <= i < cards.len() ==> found_as_written(#[trigger] cards[i], names, descs[i])
}

/// The lines of a batch are at least one, and none holds a line break.
proof fn lemma_batch_unbroken(cards: Seq<CardView>, names: SetNameMap, descs: Seq<Seq<Seq<char>>>)
    requires
        cards.len() >= 1,
        all_plain(cards, names, descs),
    ensures
        batch_lines(cards, names, descs).len() >= 1,
        forall|i: int|
            0 <= i < batch_lines(cards, names, descs).len() ==> !has_char(
                #[trigger] batch_lines(cards, names, descs)[i],
                '\n',
            ),
    decreases cards.len(),
{
    let last = cards[cards.len() - 1];
    let last_desc = descs[descs.len() - 1];
    assert(is_plain_record(last, names, last_desc));
    lemma_lines_unbroken(last, names, last_desc);
    if cards.len() > 1 {
        let init = cards.drop_last();
        let init_descs = descs.drop_last();
        assert forall|i: int| 0 <= i < init.len() implies is_plain_record(
            #[trigger] init[i],
            names,
            init_descs[i],
        ) by {
            assert(init[i] == cards[i]);
            assert(init_descs[i] == descs[i]);
        }
        lemma_batch_unbroken(init, names, init_descs);
        let a = batch_lines(init, names, init_descs);
        let b = card_lines(last, names, last_desc);
        let lines = batch_lines(cards, names, descs);
        assert(lines == a + seq![Seq::<char>::empty()] + b);
        assert forall|i: int| 0 <= i < lines.len() implies !has_char(#[trigger] lines[i], '\n') by {
            if i < a.len() {
                assert(lines[i] == a[i]);
            } else if i == a.len() {
                assert(lines[i] == Seq::<char>::empty());
            } else {
                assert(lines[i] == b[i - a.len() - 1]);
            }
        }
    }
}

/// The text of a batch is its lines, joined by line breaks.
proof fn lemma_batch_is_lines(cards: Seq<CardView>, names: SetNameMap, descs: Seq<Seq<Seq<char>>>)
    requires
        cards.len() >= 1,
        all_plain(cards, names, descs),
    ensures
        batch_text(cards, names) == join(batch_lines(cards, names, descs), "\n"@),
    decreases cards.len(),
{
    reveal_strlit("\n");
    reveal_strlit("\n\n");
    let nl = "\n"@;
    let f = |c: CardView| card_text(c, names);
    let texts = card_texts(cards, f);
    let last = cards[cards.len() - 1];
    let last_desc = descs[descs.len() - 1];
    assert(is_plain_record(last, names, last_desc));
    lemma_text_is_lines(last, names, last_desc);
    if cards.len() == 1 {
        assert(texts.len() == 1);
        assert(texts[0] == card_text(last, names));
        assert(join(texts, "\n\n"@) == texts[0]);
    } else {
        let init = cards.drop_last();
        let init_descs = descs.drop_last();
        assert forall|i: int| 0 <= i < init.len() implies is_plain_record(
            #[trigger] init[i],
            names,
            init_descs[i],
        ) by {
            assert(init[i] == cards[i]);
            assert(init_descs[i] == descs[i]);
        }
        lemma_batch_is_lines(init, names, init_descs);
        lemma_batch_unbroken(init, names, init_descs);
        lemma_lines_unbroken(last, names, last_desc);
        let a = batch_lines(init, names, init_descs);
        let e = seq![Seq::<char>::empty()];
        let b = card_lines(last, names, last_desc);
        assert(texts.drop_last() =~= card_texts(init, f));
        assert(texts.last() == card_text(last, names));
        lemma_join_append(a, e, nl);
        lemma_join_append(a + e, b, nl);
        assert(join(e, nl) == Seq::<char>::empty());
        assert("\n\n"@ =~= nl + nl);
        assert(join(a, nl) + nl + Seq::<char>::empty() + nl + join(b, nl) =~= join(a, nl) + (nl
            + nl) + join(b, nl));
    }
}

/// Reading the lines of a batch completes every card but the last and
/// leaves the last open; each is the card that was written, but for its
/// span.
proof fn lemma_batch_read(cards: Seq<CardView>, names: SetNameMap, descs: Seq<Seq<Seq<char>>>)
    requires
        cards.len() >= 1,
        all_plain(cards, names, descs),
        all_found(cards, names, descs),
    ensures
        read_lines(batch_lines(cards, names, descs), names, fresh(), 0).cards.len() == cards.len()
            - 1,
        forall|i: int|
            0 <= i < cards.len() - 1 ==> unranged(
                #[trigger] read_lines(batch_lines(cards, names, descs), names, fresh(), 0).cards[i],
            ) == unranged(cards[i]),
        read_lines(batch_lines(cards, names, descs), names, fresh(), 0).current is Some,
        unranged(read_lines(batch_lines(cards, names, descs), names, fresh(), 0).current->0)
            == unranged(cards[cards.len() - 1]),
    decreases cards.len(),
{
    reveal_strlit("#");
    let last = cards[cards.len() - 1];
    let last_desc = descs[descs.len() - 1];
    assert(is_plain_record(last, names, last_desc));
    assert(found_as_written(last, names, last_desc));
    if cards.len() == 1 {
        lemma_card_lines_read(last, names, last_desc, fresh(), 0);
    } else {
        let init = cards.drop_last();
        let init_descs = descs.drop_last();
        assert forall|i: int| 0 <= i < init.len() implies is_plain_record(
            #[trigger] init[i],
            names,
            init_descs[i],
        ) by {
            assert(init[i] == cards[i]);
            assert(init_descs[i] == descs[i]);
        }
        assert forall|i: int| 0 <= i < init.len() implies found_as_written(
            #[trigger] init[i],
            names,
            init_descs[i],
        ) by {
            assert(init[i] == cards[i]);
            assert(init_descs[i] == descs[i]);
        }
        lemma_batch_read(init, names, init_descs);
        let a = batch_lines(init, names, init_descs);
        let none = Seq::<char>::empty();
        let e = seq![none];
        let b = card_lines(last, names, last_desc);
        let st0 = read_lines(a, names, fresh(), 0);
        let open = st0.current->0;
        let o1 = lines_len(a);
        lemma_read_lines_append(a, e, names, fresh(), 0);
        assert(e.drop_first() =~= Seq::<Seq<char>>::empty());
        assert(e[0] == none);
        let st1 = line_step(st0, none, o1 as usize, names);
        assert(read_lines(Seq::<Seq<char>>::empty(), names, st1, o1 + 1) == st1);
        assert(read_lines(e, names, st0, o1) == st1);
        assert(without_cr(none) == none);
        assert(!starts_with(none, "#"@));
        assert(crate::text::space_run(none, 0) == 0);
        assert(is_blank(none));
        assert(st1 == (ReaderState { current: Some(closed(open, o1 as usize)), ..st0 }));
        let o2 = lines_len(a + e);
        lemma_read_lines_append(a + e, b, names, fresh(), 0);
        lemma_card_lines_read(last, names, last_desc, st1, o2);
        let st2 = read_lines(a + e + b, names, fresh(), 0);
        assert(st2 == read_lines(b, names, st1, o2));
        assert(st2.cards == completed(st1, o2 as usize));
        let before = closed(closed(open, o1 as usize), o2 as usize);
        assert(st2.cards == st0.cards.push(before));
        assert(unranged(before) == unranged(open));
        assert forall|i: int| 0 <= i < cards.len() - 1 implies unranged(#[trigger] st2.cards[i])
            == unranged(cards[i]) by {
            if i < init.len() - 1 {
                assert(st2.cards[i] == st0.cards[i]);
                assert(init[i] == cards[i]);
            } else {
                assert(st2.cards[i] == before);
                assert(init[init.len() - 1] == cards[i]);
            }
        }
    }
}

/// The text of a batch of plain cards reads as these cards in their order,
/// each but for its span: where the regular expressions find in the header
/// line of each card what it was written from, take no other
/// line of the card for a header line, and find the scales of the card in
/// the lines behind its header.
pub proof fn lemma_batch_round_trip(
    cards: Seq<CardView>,
    names: SetNameMap,
    descs: Seq<Seq<Seq<char>>>,
)
    requires
        cards.len() >= 1,
        all_plain(cards, names, descs),
    ensures
        all_found(cards, names, descs) ==> {
            let read = cards_of_text(batch_text(cards, names), names);
            &&& read.len() == cards.len()
            &&& forall|i: int| 0 <= i < cards.len() ==> unranged(#[trigger] read[i]) == unranged(cards[i])
        },
{
    if all_found(cards, names, descs) {
        reveal_strlit("\n");
        assert("\n"@ =~= seq!['\n']);
        let text = batch_text(cards, names);
        let lines = batch_lines(cards, names, descs);
        lemma_batch_is_lines(cards, names, descs);
        lemma_batch_unbroken(cards, names, descs);
        lemma_split_join(lines, '\n');
        lemma_text_reads_lines(text, names);
        lemma_batch_read(cards, names, descs);
        let st = read_lines(lines, names, fresh(), 0);
        let open = st.current->0;
        let read = cards_of_text(text, names);
        let end = closed(open, text.len() as usize);
        assert(read == st.cards.push(end));
        assert(unranged(end) == unranged(open));
        assert forall|i: int| 0 <= i < cards.len() implies unranged(#[trigger] read[i]) == unranged(
            cards[i],
        ) by {
            if i < cards.len() - 1 {
                assert(read[i] == st.cards[i]);
            } else {
                assert(read[i] == end);
            }
        }
    }
}

} // verus!
