//! Whole cards: reading the lines that were written for a card gives the
//! card back, where the regular expressions find in the header what it was
//! written from, take no other line for a header, and find the scales of
//! the card in the lines behind the header.

use vstd::prelude::*;
use crate::card::{blank_card, unranged, CardView};
use crate::constants::{Category, Type};
use crate::laws::header::{
    header_fields, is_plain_card, lemma_header_round_trip, tells_header, tells_stats_of,
};
use crate::laws::lines::{
    is_labelled, lemma_category_line_round_trip, lemma_desc_round_trip, lemma_label_line,
    lemma_other_label, lemma_texts_round_trip,
};
use crate::laws::reading::{lemma_read_lines_append, lines_len, read_lines};
use crate::laws::series::{
    is_plain_set_name, lemma_no_set_text, lemma_one_set_text, lemma_series_round_trip,
    lemma_set_name_shape,
};
use crate::pattern::captures_of;
use crate::setnames::{is_least_id, setcode_text, SetNameMap};
use crate::text::{
    has_char, is_blank, join, lemma_join_cons, lemma_not_blank, starts_with, unbroken,
};
use crate::transformers::xyyz::{
    category_text, closed, continued_card, desc_with, group, header_pattern, header_text, is_header,
    line_step, ot_suffix, pendulum_pattern, stat_pattern, with_scales, without_cr, ReaderState,
};

verus! {

/// Whether the header expression takes a line for a header line.
pub open spec fn is_header_line(line: Seq<char>) -> bool {
    match captures_of(header_pattern(), line) {
        Some(groups) => is_header(groups),
        None => false,
    }
}

/// The header line of a card.
pub open spec fn header_line(card: CardView) -> Seq<char> {
    header_text(card) + ot_suffix(card.ot)
}

/// The series line of a card, where it has one.
pub open spec fn series_lines(card: CardView, names: SetNameMap) -> Seq<Seq<char>> {
    if setcode_text(names, card.setcode).len() > 0 {
        seq!["系列："@ + setcode_text(names, card.setcode)]
    } else {
        seq![]
    }
}

/// The category line of a card, where it has one.
pub open spec fn category_lines(card: CardView) -> Seq<Seq<char>> {
    if card.category != 0 {
        seq!["效果分类："@ + category_text(card.category)]
    } else {
        seq![]
    }
}

/// The line of hint texts of a card, where it has one.
pub open spec fn texts_lines(card: CardView) -> Seq<Seq<char>> {
    if card.texts.len() > 0 {
        seq!["提示文本："@ + join(card.texts, "、"@)]
    } else {
        seq![]
    }
}

/// The lines that are written for a card whose description has the given
/// lines.
pub open spec fn card_lines(
    card: CardView,
    names: SetNameMap,
    desc_lines: Seq<Seq<char>>,
) -> Seq<Seq<char>> {
    seq![header_line(card)] + series_lines(card, names) + desc_lines + category_lines(card)
        + texts_lines(card)
}

/// Whether a line can stand in a description: it is not blank, holds no line
/// break, begins neither with `#` nor with a label, and does not end with a
/// carriage return.
pub open spec fn is_plain_line(line: Seq<char>) -> bool {
    &&& line.len() > 0
    &&& unbroken(line)
    &&& !is_blank(line)
    &&& line[0] != '#'
    &&& !is_labelled(line)
    &&& line[line.len() - 1] != '\r'
}

/// Whether a card can be read back from what is written of it.
///
/// Its header can be read back, and its name holds no line break and does
/// not begin with `#`. It has no pack, and no scales unless it is a Pendulum
/// card. A monster that is no Link monster has no link arrows, and a card
/// that is no monster has no stats.
/// Its set code is that of at most one set, which has no name or a plain
/// name that no smaller identifier has too. Its categories are of their
/// list. No hint text holds `、` or a line break, and the first does not
/// begin with the label of their line. Its description is the given lines:
/// one empty line, or lines that can stand in a description. The line of
/// hint texts does not end with a carriage return.
pub open spec fn is_plain_record(
    card: CardView,
    names: SetNameMap,
    desc_lines: Seq<Seq<char>>,
) -> bool {
    &&& is_plain_card(card)
    &&& unbroken(card.name)
    &&& card.name.len() == 0 || card.name[0] != '#'
    &&& card.pack is None
    &&& card._type & Type::PENDULUM != Type::PENDULUM ==> card.lscale == 0 && card.rscale == 0
    &&& if card._type & Type::MONSTER == Type::MONSTER {
        card._type & Type::LINK != Type::LINK ==> card.link_marker == 0
    } else {
        card.attribute == 0 && card.level == 0 && card.race == 0 && card.attack == 0
            && card.defense == 0 && card.link_marker == 0
    }
    &&& card.setcode < 0x10000
    &&& names.contains_key(card.setcode as u16) ==> is_plain_set_name(names[card.setcode as u16])
        && is_least_id(names, names[card.setcode as u16], card.setcode as u16)
    &&& card.category & !Category::ALL == 0
    &&& forall|i: int| 0 <= i < card.texts.len() ==> !has_char(#[trigger] card.texts[i], '、')
    &&& forall|i: int| 0 <= i < card.texts.len() ==> unbroken(#[trigger] card.texts[i])
    &&& !starts_with(join(card.texts, "、"@), "提示文本："@)
    &&& card.desc == join(desc_lines, "\n"@)
    &&& desc_lines == seq![Seq::<char>::empty()] || (desc_lines.len() >= 1 && forall|i: int|
        0 <= i < desc_lines.len() ==> is_plain_line(#[trigger] desc_lines[i]))
    &&& card.texts.len() > 0 ==> without_cr(texts_lines(card)[0]) == texts_lines(card)[0]
}

/// The card with the scales that the pendulum expression finds in a line.
pub open spec fn scaled_by(card: CardView, line: Seq<char>) -> CardView {
    with_scales(card, captures_of(pendulum_pattern(), line))
}

/// The card with the scales that the pendulum expression finds in the
/// lines, a later line over an earlier one.
pub open spec fn scaled(card: CardView, lines: Seq<Seq<char>>) -> CardView
    decreases lines.len(),
{
    if lines.len() == 0 {
        card
    } else {
        scaled(scaled_by(card, lines[0]), lines.drop_first())
    }
}

/// The lines of a description in which scales are looked for: none of an
/// empty description.
pub open spec fn scale_lines(desc_lines: Seq<Seq<char>>) -> Seq<Seq<char>> {
    if desc_lines == seq![Seq::<char>::empty()] {
        seq![]
    } else {
        desc_lines
    }
}

/// The lines behind the header of a card in which scales are looked for.
pub open spec fn tail_lines(
    card: CardView,
    names: SetNameMap,
    desc_lines: Seq<Seq<char>>,
) -> Seq<Seq<char>> {
    series_lines(card, names) + scale_lines(desc_lines) + category_lines(card) + texts_lines(card)
}

/// Whether the regular expressions find in the lines of a card what the
/// lines were written from: in the header line groups that tell the header,
/// in its stats groups that tell the stats, no header in any other line,
/// and in the lines behind the header the scales of the card.
pub open spec fn found_as_written(
    card: CardView,
    names: SetNameMap,
    desc_lines: Seq<Seq<char>>,
) -> bool {
    let lines = card_lines(card, names, desc_lines);
    let found = scaled(
        CardView { _type: card._type, ..blank_card() },
        tail_lines(card, names, desc_lines),
    );
    &&& match captures_of(header_pattern(), header_line(card)) {
        Some(groups) => tells_header(groups, card) && tells_stats_of(
            captures_of(stat_pattern(), group(groups, 6)->0),
            card,
        ),
        None => false,
    }
    &&& forall|i: int| 1 <= i < lines.len() ==> !is_header_line(#[trigger] lines[i])
    &&& found.lscale == card.lscale
    &&& found.rscale == card.rscale
}

/// The scales that lines give depend on the kinds and the scales of a card
/// alone, and the lines change nothing else.
proof fn lemma_scaled_fields(a: CardView, b: CardView, lines: Seq<Seq<char>>)
    requires
        a._type == b._type,
        a.lscale == b.lscale,
        a.rscale == b.rscale,
    ensures
        scaled(a, lines) == (CardView {
            lscale: scaled(b, lines).lscale,
            rscale: scaled(b, lines).rscale,
            ..a
        }),
    decreases lines.len(),
{
    if lines.len() > 0 {
        lemma_scaled_fields(scaled_by(a, lines[0]), scaled_by(b, lines[0]), lines.drop_first());
    }
}

/// The scales of two runs of lines, one after the other.
proof fn lemma_scaled_append(card: CardView, first: Seq<Seq<char>>, second: Seq<Seq<char>>)
    ensures
        scaled(card, first + second) == scaled(scaled(card, first), second),
    decreases first.len(),
{
    if first.len() == 0 {
        assert(first + second =~= second);
    } else {
        let all = first + second;
        assert(all[0] == first[0]);
        assert(all.drop_first() =~= first.drop_first() + second);
        lemma_scaled_append(scaled_by(card, first[0]), first.drop_first(), second);
    }
}

/// The scales of one line.
proof fn lemma_scaled_one(card: CardView, line: Seq<char>)
    ensures
        scaled(card, seq![line]) == scaled_by(card, line),
        scaled(card, Seq::<Seq<char>>::empty()) == card,
{
    let lines = seq![line];
    assert(lines[0] == line);
    assert(lines.drop_first() =~= Seq::<Seq<char>>::empty());
    assert(scaled(scaled_by(card, line), Seq::<Seq<char>>::empty()) == scaled_by(card, line));
}

/// Reading one line.
proof fn lemma_read_one(line: Seq<char>, names: SetNameMap, st: ReaderState, offset: int)
    ensures
        read_lines(seq![line], names, st, offset) == line_step(st, line, offset as usize, names),
        lines_len(seq![line]) == line.len() + 1,
{
    let lines = seq![line];
    let none = Seq::<Seq<char>>::empty();
    assert(lines.drop_first() =~= none);
    assert(lines[0] == line);
    assert(lines_len(none) == 0);
    let next = line_step(st, line, offset as usize, names);
    assert(read_lines(none, names, next, offset + line.len() + 1) == next);
}

/// A line that is no comment, not blank and no header continues the open
/// card, with the scales that the pendulum expression finds in it.
proof fn lemma_continue_step(
    st: ReaderState,
    card: CardView,
    line: Seq<char>,
    offset: int,
    names: SetNameMap,
)
    requires
        st.current == Some(card),
        line.len() > 0,
        line[0] != '#',
        !is_blank(line),
        without_cr(line) == line,
        !is_header_line(line),
    ensures
        line_step(st, line, offset as usize, names) == (ReaderState {
            current: Some(
                continued_card(card, line, captures_of(pendulum_pattern(), line), names),
            ),
            ..st
        }),
{
    reveal_strlit("#");
    lemma_other_label(line, "#"@);
}

/// Reading the lines of a description into a card adds them to its
/// description, one by one, and gives it the scales found in them.
proof fn lemma_desc_lines(
    lines: Seq<Seq<char>>,
    names: SetNameMap,
    st: ReaderState,
    card: CardView,
    offset: int,
)
    requires
        st.current == Some(card),
        forall|i: int| 0 <= i < lines.len() ==> is_plain_line(#[trigger] lines[i]),
        forall|i: int| 0 <= i < lines.len() ==> !is_header_line(#[trigger] lines[i]),
    ensures
        read_lines(lines, names, st, offset) == (ReaderState {
            current: Some(
                CardView { desc: desc_after(card.desc, lines), ..scaled(card, lines) },
            ),
            ..st
        }),
    decreases lines.len(),
{
    if lines.len() > 0 {
        let line = lines[0];
        assert(is_plain_line(line));
        assert(!is_header_line(line));
        lemma_continue_step(st, card, line, offset, names);
        let scales = captures_of(pendulum_pattern(), line);
        lemma_desc_round_trip(card, line, scales, names);
        let with = scaled_by(card, line);
        let next = CardView { desc: desc_with(card.desc, line), ..with };
        let st1 = ReaderState { current: Some(next), ..st };
        assert(line_step(st, line, offset as usize, names) == st1);
        let rest = lines.drop_first();
        assert forall|i: int| 0 <= i < rest.len() implies is_plain_line(#[trigger] rest[i]) by {
            assert(rest[i] == lines[i + 1]);
        }
        assert forall|i: int| 0 <= i < rest.len() implies !is_header_line(#[trigger] rest[i]) by {
            assert(rest[i] == lines[i + 1]);
        }
        lemma_desc_lines(rest, names, st1, next, offset + line.len() + 1);
        lemma_scaled_fields(next, with, rest);
        lemma_scaled_fields(with, with, rest);
    }
}

/// The description after the given lines were added to it.
pub open spec fn desc_after(desc: Seq<char>, lines: Seq<Seq<char>>) -> Seq<char>
    decreases lines.len(),
{
    if lines.len() == 0 {
        desc
    } else {
        desc_after(desc_with(desc, lines[0]), lines.drop_first())
    }
}

/// Lines that are not empty, added to a description that is not empty,
/// follow it each on a new line.
proof fn lemma_desc_after_some(desc: Seq<char>, lines: Seq<Seq<char>>)
    requires
        desc.len() > 0,
        lines.len() >= 1,
        forall|i: int| 0 <= i < lines.len() ==> (#[trigger] lines[i]).len() > 0,
    ensures
        desc_after(desc, lines) == desc + "\n"@ + join(lines, "\n"@),
    decreases lines.len(),
{
    let rest = lines.drop_first();
    let next = desc_with(desc, lines[0]);
    assert(next == desc + "\n"@ + lines[0]);
    if rest.len() == 0 {
        assert(lines =~= seq![lines[0]]);
        assert(join(lines, "\n"@) == lines[0]);
        assert(desc_after(next, rest) == next);
    } else {
        assert forall|i: int| 0 <= i < rest.len() implies (#[trigger] rest[i]).len() > 0 by {
            assert(rest[i] == lines[i + 1]);
        }
        lemma_desc_after_some(next, rest);
        assert(seq![lines[0]] + rest =~= lines);
        lemma_join_cons(lines[0], rest, "\n"@);
        assert((desc + "\n"@ + lines[0]) + "\n"@ + join(rest, "\n"@) =~= desc + "\n"@ + (lines[0]
            + "\n"@ + join(rest, "\n"@)));
    }
}

/// Lines that are not empty, added to an empty description, make the
/// description of these lines.
proof fn lemma_desc_after_none(lines: Seq<Seq<char>>)
    requires
        lines.len() >= 1,
        forall|i: int| 0 <= i < lines.len() ==> (#[trigger] lines[i]).len() > 0,
    ensures
        desc_after(Seq::<char>::empty(), lines) == join(lines, "\n"@),
{
    let rest = lines.drop_first();
    let first = lines[0];
    assert(desc_with(Seq::<char>::empty(), first) == first);
    if rest.len() == 0 {
        assert(lines =~= seq![first]);
        assert(join(lines, "\n"@) == first);
        assert(desc_after(first, rest) == first);
    } else {
        assert forall|i: int| 0 <= i < rest.len() implies (#[trigger] rest[i]).len() > 0 by {
            assert(rest[i] == lines[i + 1]);
        }
        lemma_desc_after_some(first, rest);
        assert(seq![first] + rest =~= lines);
        lemma_join_cons(first, rest, "\n"@);
    }
}

/// The state of a reader that holds no complete card.
pub open spec fn fresh() -> ReaderState {
    ReaderState { cards: seq![], current: None }
}

/// The cards that are complete once a header line at `offset` is read: the
/// card that was open is complete too, its span ended there unless it ended
/// before.
pub open spec fn completed(st: ReaderState, offset: usize) -> Seq<CardView> {
    match st.current {
        Some(open) => st.cards.push(closed(open, offset)),
        None => st.cards,
    }
}

/// The header line of a plain card is no comment and not blank: it
/// completes the card that was open and opens the card that the header
/// tells of.
proof fn lemma_header_step(
    card: CardView,
    names: SetNameMap,
    desc_lines: Seq<Seq<char>>,
    st: ReaderState,
    offset: int,
)
    requires
        is_plain_record(card, names, desc_lines),
        found_as_written(card, names, desc_lines),
    ensures
        line_step(st, header_line(card), offset as usize, names) == (ReaderState {
            cards: completed(st, offset as usize),
            current: Some(header_fields(card, offset as usize)),
        }),
{
    reveal_strlit("(");
    reveal_strlit("#");
    let line = header_line(card);
    let n = card.name.len() as int;
    let lead = card.name + "("@;
    assert(lead[n] == '(');
    assert(line.len() > n);
    assert(line[n] == lead[n]);
    if n > 0 {
        assert(line[0] == card.name[0]);
    }
    lemma_other_label(line, "#"@);
    lemma_not_blank(line, n);
    crate::laws::writing::lemma_header_end(card);
    let groups = captures_of(header_pattern(), line)->0;
    lemma_header_round_trip(
        card,
        groups,
        captures_of(stat_pattern(), group(groups, 6)->0),
        offset as usize,
    );
}

/// The series line of a plain card, read into the card that its header
/// opened, gives the set code of the card.
proof fn lemma_series_step(
    card: CardView,
    names: SetNameMap,
    st: ReaderState,
    open: CardView,
    offset: int,
)
    requires
        st.current == Some(open),
        open.setcode == 0,
        card.setcode < 0x10000,
        names.contains_key(card.setcode as u16) ==> is_plain_set_name(names[card.setcode as u16])
            && is_least_id(names, names[card.setcode as u16], card.setcode as u16),
        forall|i: int|
            0 <= i < series_lines(card, names).len() ==> !is_header_line(
                #[trigger] series_lines(card, names)[i],
            ),
    ensures
        read_lines(series_lines(card, names), names, st, offset) == (ReaderState {
            current: Some(
                CardView { setcode: card.setcode, ..scaled(open, series_lines(card, names)) },
            ),
            ..st
        }),
{
    reveal_strlit("系列字段：");
    reveal_strlit("系列：");
    let id = card.setcode as u16;
    if card.setcode == 0 {
        lemma_no_set_text(names);
        assert(series_lines(card, names) =~= Seq::<Seq<char>>::empty());
    } else {
        lemma_one_set_text(names, id);
        lemma_set_name_shape(names, id);
        lemma_series_round_trip(names, id);
        let shown = setcode_text(names, card.setcode);
        let label = "系列："@;
        let line = label + shown;
        assert(series_lines(card, names) =~= seq![line]);
        assert(series_lines(card, names)[0] == line);
        assert(line[0] == '系');
        assert(line[2] == '：');
        assert(line[line.len() - 1] == shown[shown.len() - 1]);
        lemma_not_blank(line, 0);
        lemma_continue_step(st, open, line, offset, names);
        lemma_read_one(line, names, st, offset);
        lemma_scaled_one(open, line);
        if starts_with(line, "系列字段："@) {
            assert(line.subrange(0, 5)[2] == line[2]);
        }
        lemma_label_line(label, shown);
    }
}

/// The description of a plain card, read into a card that has none yet,
/// gives the description of the card and the scales found in it; the span
/// of the card may end.
proof fn lemma_desc_step(
    desc_lines: Seq<Seq<char>>,
    names: SetNameMap,
    st: ReaderState,
    open: CardView,
    offset: int,
)
    requires
        st.current == Some(open),
        open.desc.len() == 0,
        desc_lines == seq![Seq::<char>::empty()] || (desc_lines.len() >= 1 && forall|i: int|
            0 <= i < desc_lines.len() ==> is_plain_line(#[trigger] desc_lines[i])),
        forall|i: int| 0 <= i < desc_lines.len() ==> !is_header_line(#[trigger] desc_lines[i]),
    ensures
        read_lines(desc_lines, names, st, offset).cards == st.cards,
        read_lines(desc_lines, names, st, offset).current is Some,
        unranged(read_lines(desc_lines, names, st, offset).current->0) == unranged(
            CardView { desc: join(desc_lines, "\n"@), ..scaled(open, scale_lines(desc_lines)) },
        ),
{
    reveal_strlit("#");
    let e = Seq::<char>::empty();
    if desc_lines == seq![e] {
        lemma_read_one(e, names, st, offset);
        assert(without_cr(e) == e);
        assert(!starts_with(e, "#"@));
        assert(crate::text::space_run(e, 0) == 0);
        assert(is_blank(e));
        assert(join(seq![e], "\n"@) == e);
        assert(open.desc =~= e);
    } else {
        lemma_desc_lines(desc_lines, names, st, open, offset);
        assert forall|i: int| 0 <= i < desc_lines.len() implies (#[trigger] desc_lines[i]).len()
            > 0 by {
            assert(is_plain_line(desc_lines[i]));
        }
        assert(open.desc =~= e);
        lemma_desc_after_none(desc_lines);
    }
}

/// The category line of a plain card, read into a card, gives the
/// categories of the card.
proof fn lemma_category_step(
    card: CardView,
    names: SetNameMap,
    st: ReaderState,
    open: CardView,
    offset: int,
)
    requires
        st.current == Some(open),
        open.category == 0,
        card.category & !Category::ALL == 0,
        forall|i: int|
            0 <= i < category_lines(card).len() ==> !is_header_line(
                #[trigger] category_lines(card)[i],
            ),
    ensures
        read_lines(category_lines(card), names, st, offset) == (ReaderState {
            current: Some(
                CardView { category: card.category, ..scaled(open, category_lines(card)) },
            ),
            ..st
        }),
{
    reveal_strlit("效果分类：");
    if card.category == 0 {
        assert(category_lines(card) =~= Seq::<Seq<char>>::empty());
    } else {
        let label = "效果分类："@;
        let shown = category_text(card.category);
        let line = label + shown;
        assert(category_lines(card) =~= seq![line]);
        assert(category_lines(card)[0] == line);
        assert(line[0] == '效');
        lemma_not_blank(line, 0);
        crate::laws::lines::lemma_category_line_end(card.category);
        assert(line[line.len() - 1] != '\r');
        lemma_continue_step(st, open, line, offset, names);
        lemma_read_one(line, names, st, offset);
        lemma_scaled_one(open, line);
        lemma_category_line_round_trip(
            open,
            card.category,
            captures_of(pendulum_pattern(), line),
            names,
        );
    }
}

/// The line of hint texts of a plain card, read into a card, gives the hint
/// texts of the card.
proof fn lemma_texts_step(
    card: CardView,
    names: SetNameMap,
    st: ReaderState,
    open: CardView,
    offset: int,
)
    requires
        st.current == Some(open),
        open.texts == Seq::<Seq<char>>::empty(),
        forall|i: int| 0 <= i < card.texts.len() ==> !has_char(#[trigger] card.texts[i], '、'),
        !starts_with(join(card.texts, "、"@), "提示文本："@),
        card.texts.len() > 0 ==> without_cr(texts_lines(card)[0]) == texts_lines(card)[0],
        forall|i: int|
            0 <= i < texts_lines(card).len() ==> !is_header_line(#[trigger] texts_lines(card)[i]),
    ensures
        read_lines(texts_lines(card), names, st, offset) == (ReaderState {
            current: Some(CardView { texts: card.texts, ..scaled(open, texts_lines(card)) }),
            ..st
        }),
{
    reveal_strlit("提示文本：");
    if card.texts.len() == 0 {
        assert(texts_lines(card) =~= Seq::<Seq<char>>::empty());
        assert(card.texts =~= Seq::<Seq<char>>::empty());
    } else {
        let label = "提示文本："@;
        let line = label + join(card.texts, "、"@);
        assert(texts_lines(card) =~= seq![line]);
        assert(texts_lines(card)[0] == line);
        assert(line[0] == '提');
        lemma_not_blank(line, 0);
        lemma_continue_step(st, open, line, offset, names);
        lemma_read_one(line, names, st, offset);
        lemma_scaled_one(open, line);
        lemma_texts_round_trip(open, card.texts, captures_of(pendulum_pattern(), line), names);
    }
}

/// Reading the lines that were written for a plain card completes the card
/// that was open and opens one card, which is the card that was written, but
/// for its span: where the regular expressions find in the lines what they
/// were written from.
pub proof fn lemma_card_lines_read(
    card: CardView,
    names: SetNameMap,
    desc_lines: Seq<Seq<char>>,
    st: ReaderState,
    offset: int,
)
    requires
        is_plain_record(card, names, desc_lines),
    ensures
        found_as_written(card, names, desc_lines) ==> {
            let after = read_lines(card_lines(card, names, desc_lines), names, st, offset);
            &&& after.cards == completed(st, offset as usize)
            &&& after.current is Some
            &&& unranged(after.current->0) == unranged(card)
        },
{
    if found_as_written(card, names, desc_lines) {
        lemma_card_lines_found(card, names, desc_lines, st, offset);
    }
}

/// The same, with the premise about the regular expressions taken for
/// granted.
proof fn lemma_card_lines_found(
    card: CardView,
    names: SetNameMap,
    desc_lines: Seq<Seq<char>>,
    st: ReaderState,
    offset: int,
)
    requires
        is_plain_record(card, names, desc_lines),
        found_as_written(card, names, desc_lines),
    ensures
        read_lines(card_lines(card, names, desc_lines), names, st, offset).cards == completed(
            st,
            offset as usize,
        ),
        read_lines(card_lines(card, names, desc_lines), names, st, offset).current is Some,
        unranged(read_lines(card_lines(card, names, desc_lines), names, st, offset).current->0)
            == unranged(card),
{
    let lines = card_lines(card, names, desc_lines);
    let h = seq![header_line(card)];
    let s = series_lines(card, names);
    let d = desc_lines;
    let c = category_lines(card);
    let t = texts_lines(card);
    assert(lines == h + s + d + c + t);
    assert forall|i: int| 0 <= i < s.len() implies !is_header_line(#[trigger] s[i]) by {
        assert(lines[1 + i] == s[i]);
    }
    assert forall|i: int| 0 <= i < d.len() implies !is_header_line(#[trigger] d[i]) by {
        assert(lines[1 + s.len() + i] == d[i]);
    }
    assert forall|i: int| 0 <= i < c.len() implies !is_header_line(#[trigger] c[i]) by {
        assert(lines[1 + s.len() + d.len() + i] == c[i]);
    }
    assert forall|i: int| 0 <= i < t.len() implies !is_header_line(#[trigger] t[i]) by {
        assert(lines[1 + s.len() + d.len() + c.len() + i] == t[i]);
    }
    let done = completed(st, offset as usize);
    lemma_header_step(card, names, desc_lines, st, offset);
    lemma_read_one(header_line(card), names, st, offset);
    let sd = scale_lines(d);
    let base = CardView { _type: card._type, ..blank_card() };
    let e1 = scaled(base, s);
    let e2 = scaled(e1, sd);
    let e3 = scaled(e2, c);
    let e4 = scaled(e3, t);
    lemma_scaled_append(base, s, sd);
    lemma_scaled_append(base, s + sd, c);
    lemma_scaled_append(base, s + sd + c, t);
    assert(e4 == scaled(base, s + sd + c + t));
    lemma_scaled_fields(base, base, s);
    lemma_scaled_fields(e1, e1, sd);
    lemma_scaled_fields(e2, e2, c);
    lemma_scaled_fields(e3, e3, t);
    let c1 = header_fields(card, offset as usize);
    let st1 = ReaderState { cards: done, current: Some(c1) };
    assert(read_lines(h, names, st, offset) == st1);
    let o1 = offset + lines_len(h);
    lemma_read_lines_append(h, s, names, st, offset);
    lemma_series_step(card, names, st1, c1, o1);
    lemma_scaled_fields(c1, base, s);
    let c2 = CardView { setcode: card.setcode, ..scaled(c1, s) };
    let st2 = ReaderState { cards: done, current: Some(c2) };
    assert(read_lines(h + s, names, st, offset) == st2);
    let o2 = offset + lines_len(h + s);
    lemma_read_lines_append(h + s, d, names, st, offset);
    lemma_desc_step(d, names, st2, c2, o2);
    lemma_scaled_fields(c2, e1, sd);
    let st3 = read_lines(h + s + d, names, st, offset);
    assert(st3 == read_lines(d, names, st2, o2));
    let c3 = st3.current->0;
    assert(unranged(c3) == unranged(CardView { desc: card.desc, ..scaled(c2, sd) }));
    let o3 = offset + lines_len(h + s + d);
    lemma_read_lines_append(h + s + d, c, names, st, offset);
    lemma_category_step(card, names, st3, c3, o3);
    lemma_scaled_fields(c3, e2, c);
    let c4 = CardView { category: card.category, ..scaled(c3, c) };
    let st4 = ReaderState { current: Some(c4), ..st3 };
    assert(read_lines(h + s + d + c, names, st, offset) == st4);
    let o4 = offset + lines_len(h + s + d + c);
    lemma_read_lines_append(h + s + d + c, t, names, st, offset);
    lemma_texts_step(card, names, st4, c4, o4);
    lemma_scaled_fields(c4, e3, t);
    let c5 = CardView { texts: card.texts, ..scaled(c4, t) };
    assert(read_lines(lines, names, st, offset) == (ReaderState { current: Some(c5), ..st4 }));
    assert(c5.lscale == e4.lscale && c5.rscale == e4.rscale);
    assert(unranged(c5) == unranged(card));
}

/// Reading the lines that were written for a plain card opens one card and
/// completes none; the open card is the card that was written, but for its
/// span: where the regular expressions find in the lines what they were
/// written from.
pub proof fn lemma_card_lines_round_trip(
    card: CardView,
    names: SetNameMap,
    desc_lines: Seq<Seq<char>>,
)
    requires
        is_plain_record(card, names, desc_lines),
    ensures
        found_as_written(card, names, desc_lines) ==> {
            let st = read_lines(card_lines(card, names, desc_lines), names, fresh(), 0);
            &&& st.cards == Seq::<CardView>::empty()
            &&& st.current is Some
            &&& unranged(st.current->0) == unranged(card)
        },
{
    lemma_card_lines_read(card, names, desc_lines, fresh(), 0);
}

} // verus!
