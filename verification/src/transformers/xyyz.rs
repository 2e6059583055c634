//! The xyyz text notation: one header line per card, followed by marked lines
//! and free description.

use vstd::prelude::*;
use crate::card::{
    card_views, unranged, Card, CardTransformer, CardView, PackInfo, PackInfoView, Range,
};
use crate::constants::{Attribute, Category, Linkmarkers, Race, Type, OT};
use crate::names::{
    attribute_names, attribute_table, category_names, category_table, decode_flags, find_key,
    find_name, flag_names, flags_of_names, key_of, linkmarker_names, linkmarker_table, name_of,
    names_of_flags, noneffect_names, noneffect_table, ot_names, ot_table, race_names, race_table,
    table_view, type_names, type_table, Names,
};
use crate::number::{decimal, parse_i32, parse_u32, read_i32, read_u32, write_decimal};
use crate::pattern::{captures_of, groups_view, match_view, Groups, Pattern};
use crate::setnames::{setcode_of_text, setcode_text, SetNameMap, SetNames};
use crate::text::{
    append, append_str, chars_of, chars_of_all, drop_empty, is_blank, blank, string_views,
    strings_of, ends_with, has_prefix, has_suffix, join, join_with, non_empty, seq_eq, slice_of,
    split, split_on, starts_with, string_of, strip_leading, strip_trailing, trim, trim_all,
    trim_each, trim_end_matches, trim_start_matches, trimmed, views,
};

verus! {

/// The xyyz text notation.
pub struct Xyyz;

/// The extra-deck kinds of monster.
pub open spec fn extra_kinds() -> u32 {
    Type::FUSION | Type::RITUAL | Type::XYZ | Type::SYNCHRO | Type::LINK
}

/// The kinds that the subtype list shows first.
pub open spec fn model_kinds() -> u32 {
    Type::NORMAL | Type::FUSION | Type::RITUAL | Type::SYNCHRO | Type::XYZ | Type::PENDULUM
        | Type::LINK | Type::SPSUMMON
}

/// The kinds that the subtype list shows last.
pub open spec fn minor_kinds() -> u32 {
    Type::FLIP | Type::TOKEN | Type::SPIRIT | Type::UNION | Type::TOON | Type::DUAL | Type::TUNER
}

/// The level of a card as the header shows it: the rank and `阶` for an Xyz
/// monster, `LINK-` and the link rating for a Link monster, else the level
/// and `星`.
pub open spec fn level_text(card: CardView) -> Seq<char> {
    if card._type & Type::XYZ == Type::XYZ {
        decimal(card.level as int) + "阶"@
    } else if card._type & Type::LINK == Type::LINK {
        "LINK-"@ + decimal(card.level as int)
    } else {
        decimal(card.level as int) + "星"@
    }
}

/// What a level text says: the kind it implies (Xyz for a rank, Link for a
/// link rating) and the number, 0 where it is no number that fits; or `None`
/// for a text of no known shape.
pub open spec fn level_of_text(s: Seq<char>) -> Option<(u32, u32)> {
    if ends_with(s, "星"@) {
        Some((0u32, number_or_zero(trim(trim_end_matches(s, "星"@)))))
    } else if ends_with(s, "阶"@) {
        Some((Type::XYZ, number_or_zero(trim(trim_end_matches(s, "阶"@)))))
    } else if starts_with(s, "LINK-"@) {
        Some((Type::LINK, number_or_zero(trim(trim_start_matches(s, "LINK-"@)))))
    } else {
        None
    }
}

/// The number that a decimal text denotes, 0 where it denotes none that fits.
pub open spec fn number_or_zero(s: Seq<char>) -> u32 {
    match parse_u32(s) {
        Some(n) => n,
        None => 0,
    }
}

/// An attack or defense value as text: `?` for -2, `∞` for -1, else decimal.
pub open spec fn stat_text(n: i32) -> Seq<char> {
    if n == -2 {
        "?"@
    } else if n == -1 {
        "∞"@
    } else {
        decimal(n as int)
    }
}

/// The value that a stat text denotes, 0 where it denotes none.
pub open spec fn stat_of_text(s: Seq<char>) -> i32 {
    if s == "?"@ {
        (-2i32)
    } else if s == "∞"@ {
        (-1i32)
    } else {
        match parse_i32(s) {
            Some(n) => n,
            None => 0,
        }
    }
}

/// The names of the attributes of a set joined by `/`; `无` for the empty set.
pub open spec fn attribute_text(bits: u32) -> Seq<char> {
    if bits == 0 {
        "无"@
    } else {
        join(flag_names((bits & Attribute::ALL) as u64, attribute_table(), 7), "/"@)
    }
}

/// The attributes that a list of names joined by `/` denotes.
pub open spec fn attribute_of_text(s: Seq<char>) -> u32 {
    decode_flags(split(s, "/"@), attribute_table(), Attribute::ALL as u64) as u32
}

/// The names of the races of a set joined by `/`; `无种族` for the empty set.
pub open spec fn race_text(bits: u32) -> Seq<char> {
    if bits == 0 {
        "无种族"@
    } else {
        join(flag_names((bits & Race::ALL) as u64, race_table(), 25), "/"@)
    }
}

/// The races that a list of names joined by `/` denotes.
pub open spec fn race_of_text(s: Seq<char>) -> u32 {
    decode_flags(split(s, "/"@), race_table(), Race::ALL as u64) as u32
}

/// The name that stands before `魔法` or `陷阱`: that of the kinds left when
/// the given one is taken away, `通常` where those have no name of their own.
pub open spec fn kind_prefix(rest: u32) -> Seq<char> {
    match name_of(type_table(), rest as u64) {
        Some(name) => name,
        None => "通常"@,
    }
}

/// The kind of a spell or trap card as the header shows it; empty for any
/// other card.
pub open spec fn type_text(bits: u32) -> Seq<char> {
    if bits & Type::SPELL == Type::SPELL {
        kind_prefix((bits - Type::SPELL) as u32) + "魔法"@
    } else if bits & Type::TRAP == Type::TRAP {
        kind_prefix((bits - Type::TRAP) as u32) + "陷阱"@
    } else {
        seq![]
    }
}

/// The subtype list of a monster: `/` before each name. First the model
/// kinds, Normal left out for an extra-deck monster; then `非效果` for an
/// extra-deck monster without the Effect flag; then the minor kinds.
pub open spec fn subtype_names(bits: u32) -> Seq<Seq<char>> {
    let extra = bits & extra_kinds() != 0;
    let shown = if extra {
        bits & model_kinds() & !Type::NORMAL
    } else {
        bits & model_kinds()
    };
    let label: Seq<Seq<char>> = if extra && bits & Type::EFFECT != Type::EFFECT {
        seq!["非效果"@]
    } else {
        seq![]
    };
    flag_names(shown as u64, type_table(), 27) + label + flag_names(
        (bits & minor_kinds()) as u64,
        type_table(),
        27,
    )
}

/// The subtype list of a monster as text; empty where it has no name.
pub open spec fn subtype_text(bits: u32) -> Seq<char> {
    let names = subtype_names(bits);
    if names.len() == 0 {
        seq![]
    } else {
        "/"@ + join(names, "/"@)
    }
}

/// The kinds that the names of a subtype list stand for, before the Effect
/// flag is worked out: `非效果` reads as Normal.
pub open spec fn subtype_flags(s: Seq<char>) -> u32 {
    decode_flags(non_empty(split(s, "/"@)), noneffect_table() + type_table(), Type::ALL as u64) as u32
}

/// The kinds that a subtype list denotes. An extra-deck monster marked Normal
/// loses that mark and has no effect, one not marked so has the Effect flag;
/// any other monster has the Effect flag unless it is a Token or Normal.
pub open spec fn subtype_of_text(s: Seq<char>) -> u32 {
    let t = subtype_flags(s);
    if t & extra_kinds() != 0 {
        if t & Type::NORMAL == Type::NORMAL {
            t & !Type::NORMAL
        } else {
            t | Type::EFFECT
        }
    } else if t & (Type::TOKEN | Type::NORMAL) == 0 {
        t | Type::EFFECT
    } else {
        t
    }
}

/// The link arrows as text: each glyph in brackets; empty for no arrow.
pub open spec fn linkmarkers_text(bits: i32) -> Seq<char> {
    if bits == 0 {
        seq![]
    } else {
        "["@ + join(
            flag_names((bits & Linkmarkers::ALL) as u64, linkmarker_table(), 9),
            "]["@,
        ) + "]"@
    }
}

/// The text between the first and the last character of `s`.
pub open spec fn inner(s: Seq<char>) -> Seq<char> {
    if s.len() >= 2 {
        s.subrange(1, s.len() - 1)
    } else {
        seq![]
    }
}

/// The link arrows that a text of glyphs in brackets denotes.
pub open spec fn linkmarkers_of_text(s: Seq<char>) -> i32 {
    if s.len() == 0 {
        0
    } else {
        decode_flags(split(inner(s), "]["@), linkmarker_table(), Linkmarkers::ALL as u64) as i32
    }
}

/// The rule sets as text: empty for OCG with TCG, the name of the whole
/// combination where it has one, else the names of the flags joined by `&`.
pub open spec fn ot_text(bits: u32) -> Seq<char> {
    if bits == 3 {
        seq![]
    } else {
        match name_of(ot_table(), bits as u64) {
            Some(name) => name,
            None => join(flag_names((bits & OT::ALL) as u64, ot_table(), 11), "&"@),
        }
    }
}

/// The rule sets that a list of names joined by `&` denotes.
pub open spec fn ot_of_text(s: Seq<char>) -> u32 {
    decode_flags(trim_each(split(s, "&"@)), ot_table(), OT::ALL as u64) as u32
}

/// The names of the categories of a set joined by `、`.
pub open spec fn category_text(bits: u64) -> Seq<char> {
    join(flag_names(bits & Category::ALL, category_table(), 32), "、"@)
}

/// The categories that a list of names joined by `、` denotes.
pub open spec fn category_of_text(s: Seq<char>) -> u64 {
    decode_flags(trim_each(split(s, "、"@)), category_table(), Category::ALL)
}

/// The kinds of a spell or trap card whose kind text names `prefix` before
/// `魔法` or `陷阱`: the kind of that name united with the spell or trap,
/// without the Normal kind; no kind where `prefix` is no name of a kind.
pub open spec fn kind_with(prefix: Seq<char>, base: u32) -> u32 {
    match key_of(type_table(), prefix) {
        Some(key) => ((key as u32) | base) & !Type::NORMAL & Type::ALL,
        None => 0,
    }
}

/// The kinds that the kind text of a spell or trap card denotes: the name of
/// a kind followed by `魔法` or by `陷阱`. Any other text denotes no kind.
pub open spec fn type_of_text(s: Seq<char>) -> u32 {
    if ends_with(s, "魔法"@) {
        kind_with(s.subrange(0, s.len() - "魔法"@.len()), Type::SPELL)
    } else if ends_with(s, "陷阱"@) {
        kind_with(s.subrange(0, s.len() - "陷阱"@.len()), Type::TRAP)
    } else {
        0
    }
}

/// The alias of a card as the header shows it: `=>` and the number, nothing
/// for no alias.
pub open spec fn alias_text(alias: u32) -> Seq<char> {
    if alias > 0 {
        "=>"@ + decimal(alias as int)
    } else {
        seq![]
    }
}

/// The header line of a card without the rule sets: name, code and alias,
/// then the stats of a monster or the kind of another card.
pub open spec fn header_text(card: CardView) -> Seq<char> {
    let lead = card.name + "("@ + decimal(card.code as int) + alias_text(card.alias) + ") "@;
    if card._type & Type::MONSTER == Type::MONSTER {
        lead + attribute_text(card.attribute) + " "@ + level_text(card) + " "@ + race_text(
            card.race,
        ) + subtype_text(card._type) + " "@ + stat_text(card.attack) + " "@ + (if card._type
            & Type::LINK == Type::LINK {
            linkmarkers_text(card.link_marker)
        } else {
            stat_text(card.defense)
        })
    } else {
        lead + type_text(card._type)
    }
}

/// The rule sets at the end of the header line: nothing for OCG with TCG,
/// else the text of the set in parentheses after a space.
pub open spec fn ot_suffix(ot: u32) -> Seq<char> {
    if ot != 3 {
        " ("@ + ot_text(ot) + ")"@
    } else {
        seq![]
    }
}

/// The series line, left out where the set code shows no name.
pub open spec fn series_line(names: SetNameMap, setcode: u64) -> Seq<char> {
    let shown = setcode_text(names, setcode);
    if shown.len() > 0 {
        "\n系列："@ + shown
    } else {
        seq![]
    }
}

/// The category line, left out for no category.
pub open spec fn category_line(category: u64) -> Seq<char> {
    if category != 0 {
        "\n效果分类："@ + category_text(category)
    } else {
        seq![]
    }
}

/// The line of hint texts, left out where there is none.
pub open spec fn texts_line(texts: Seq<Seq<char>>) -> Seq<char> {
    if texts.len() > 0 {
        "\n提示文本："@ + join(texts, "、"@)
    } else {
        seq![]
    }
}

/// The text of a card: header line with rule sets, series line, description,
/// category line and hint line, each on a new line and with no line break at
/// the end.
pub open spec fn card_text(card: CardView, names: SetNameMap) -> Seq<char> {
    header_text(card) + ot_suffix(card.ot) + series_line(names, card.setcode) + "\n"@ + card.desc
        + category_line(card.category) + texts_line(card.texts)
}

/// The regular expression of a header line. Its groups: 1 the bracketed
/// prefix with the white space behind it, 2 the name, 3 the code, 5 the
/// alias, 6 the stats or kind, 8 the rule sets between the parentheses.
pub open spec fn header_pattern() -> Seq<char> {
    r"^(\[.+\-.+\]\s+)?(.+)\((\d+)(\s*=>\s*(\d+)\s*)?\)\s+(.+?)\s*(\((.*)\))?$"@
}

/// The regular expression of the stats of a monster. Its groups: 1 the
/// attributes, 2 the level, 3 the races, 4 the subtype list, 5 the attack,
/// 6 the defense, 7 the link arrows.
pub open spec fn stat_pattern() -> Seq<char> {
    r"^(.+?) (.+?) (.+?)((?:/.+?)*) (\d+|\?|∞) ?(\d+|\?|∞|(\[.+\])?)$"@
}

/// The regular expression of a pendulum scale line. Its groups: 1 the left
/// scale, 2 the right scale.
pub open spec fn pendulum_pattern() -> Seq<char> {
    r"^←(\d+)\s*【灵摆】\s*(\d+)→$"@
}

/// The text of group `i`, `None` where the match has no such group or the
/// group took no part.
pub open spec fn group(groups: Seq<Option<Seq<char>>>, i: int) -> Option<Seq<char>> {
    if 0 <= i < groups.len() {
        groups[i]
    } else {
        None
    }
}

/// Whether the groups are those of a header line: name, code and the stats
/// or kind are there.
pub open spec fn is_header(groups: Seq<Option<Seq<char>>>) -> bool {
    group(groups, 2) is Some && group(groups, 3) is Some && group(groups, 6) is Some
}

/// Whether the groups are those of the stats of a monster.
pub open spec fn is_stats(groups: Seq<Option<Seq<char>>>) -> bool {
    group(groups, 1) is Some && group(groups, 2) is Some && group(groups, 3) is Some && group(
        groups,
        5,
    ) is Some && group(groups, 6) is Some
}

/// The provenance that a bracketed prefix gives: the text between its
/// brackets as the pack identifier, without the white space behind the
/// closing bracket; nothing else known.
pub open spec fn pack_of(prefix: Option<Seq<char>>, code: u32) -> Option<PackInfoView> {
    match prefix {
        Some(p) => Some(
            PackInfoView {
                id: code,
                pack_id: inner(trim(p)),
                pack: seq![],
                rarity: seq![],
                date: seq![],
            },
        ),
        None => None,
    }
}

/// The card with the stats of a monster read into it.
pub open spec fn with_stats(card: CardView, stats: Seq<Option<Seq<char>>>) -> CardView {
    let level = match level_of_text(group(stats, 2)->0) {
        Some((_, level)) => level,
        None => card.level,
    };
    let subtype = match group(stats, 4) {
        Some(s) => s,
        None => seq![],
    };
    let kinds = subtype_of_text(subtype) | Type::MONSTER;
    let read = CardView {
        attribute: attribute_of_text(group(stats, 1)->0),
        level: level,
        race: race_of_text(group(stats, 3)->0),
        _type: kinds,
        attack: stat_of_text(group(stats, 5)->0),
        defense: stat_of_text(group(stats, 6)->0),
        ..card
    };
    match group(stats, 7) {
        Some(arrows) => CardView {
            _type: kinds | Type::LINK,
            link_marker: linkmarkers_of_text(arrows),
            defense: linkmarkers_of_text(arrows),
            ..read
        },
        None => read,
    }
}

/// The card that a header line opens. `groups` are the groups of the header,
/// `stats` what the stat expression found in group 6, `offset` the place of
/// the line in the text.
pub open spec fn opened_card(
    groups: Seq<Option<Seq<char>>>,
    stats: Option<Seq<Option<Seq<char>>>>,
    offset: usize,
) -> CardView {
    let code = number_or_zero(group(groups, 3)->0);
    let card = CardView {
        code: code,
        name: group(groups, 2)->0,
        alias: match group(groups, 5) {
            Some(a) => number_or_zero(a),
            None => 0,
        },
        ot: match group(groups, 8) {
            Some(o) => ot_of_text(o),
            None => 3,
        },
        pack: pack_of(group(groups, 1), code),
        range: Some(Range { start: offset, end: offset }),
        ..crate::card::blank_card()
    };
    match stats {
        Some(s) if is_stats(s) => with_stats(card, s),
        _ => CardView { _type: type_of_text(group(groups, 6)->0), ..card },
    }
}

/// The card with the scales of a pendulum line read into it; unchanged where
/// the card is no Pendulum monster or the line is no such line.
pub open spec fn with_scales(card: CardView, scales: Option<Seq<Option<Seq<char>>>>) -> CardView {
    match scales {
        Some(s) if card._type & Type::PENDULUM == Type::PENDULUM && group(s, 1) is Some && group(
            s,
            2,
        ) is Some => CardView {
            lscale: number_or_zero(group(s, 1)->0),
            rscale: number_or_zero(group(s, 2)->0),
            ..card
        },
        _ => card,
    }
}

/// The description with one more line.
pub open spec fn desc_with(desc: Seq<char>, line: Seq<char>) -> Seq<char> {
    if desc.len() > 0 {
        desc + "\n"@ + line
    } else {
        line
    }
}

/// The card after a line that follows its header. The first label that the
/// line begins with decides: `系列字段：` sets the set code, `系列：` adds to
/// it, `效果分类：` sets the categories, `提示文本：` sets the hint texts; a
/// line with none of them is added to the description. Before that, a
/// pendulum line sets the scales of a Pendulum monster.
pub open spec fn continued_card(
    card: CardView,
    line: Seq<char>,
    scales: Option<Seq<Option<Seq<char>>>>,
    names: SetNameMap,
) -> CardView {
    let c = with_scales(card, scales);
    if starts_with(line, "系列字段："@) {
        CardView { setcode: setcode_of_text(names, trim_start_matches(line, "系列字段："@)), ..c }
    } else if starts_with(line, "系列："@) {
        CardView {
            setcode: c.setcode | setcode_of_text(names, trim_start_matches(line, "系列："@)),
            ..c
        }
    } else if starts_with(line, "效果分类："@) {
        CardView { category: category_of_text(trim_start_matches(line, "效果分类："@)), ..c }
    } else if starts_with(line, "提示文本："@) {
        CardView { texts: split(trim_start_matches(line, "提示文本："@), "、"@), ..c }
    } else {
        CardView { desc: desc_with(c.desc, line), ..c }
    }
}

/// The card with its span ended at `end`, unless it was ended before.
pub open spec fn closed(card: CardView, end: usize) -> CardView {
    match card.range {
        Some(r) if r.start >= r.end => CardView {
            range: Some(Range { start: r.start, end: end }),
            ..card
        },
        _ => card,
    }
}

/// A line without the carriage return at its end.
pub open spec fn without_cr(line: Seq<char>) -> Seq<char> {
    if line.len() > 0 && line.last() == '\r' {
        line.drop_last()
    } else {
        line
    }
}

/// What the reader holds between two lines: the cards that are complete,
/// and the card that is open.
pub struct ReaderState {
    pub cards: Seq<CardView>,
    pub current: Option<CardView>,
}

/// The state after one line, which starts at `offset`.
///
/// A line that begins with `#` changes nothing. A blank line ends the span of
/// the open card there. A header line completes the open card, its span
/// ending there unless it ended before, and opens a new one. Any other line
/// continues the open card and is dropped where none is open.
pub open spec fn line_step(
    st: ReaderState,
    raw: Seq<char>,
    offset: usize,
    names: SetNameMap,
) -> ReaderState {
    let line = without_cr(raw);
    if starts_with(line, "#"@) {
        st
    } else if is_blank(line) {
        match st.current {
            Some(c) => ReaderState { current: Some(closed(c, offset)), ..st },
            None => st,
        }
    } else {
        match captures_of(header_pattern(), line) {
            Some(groups) if is_header(groups) => ReaderState {
                cards: match st.current {
                    Some(c) => st.cards.push(closed(c, offset)),
                    None => st.cards,
                },
                current: Some(
                    opened_card(groups, captures_of(stat_pattern(), group(groups, 6)->0), offset),
                ),
            },
            _ => match st.current {
                Some(c) => ReaderState {
                    current: Some(
                        continued_card(c, line, captures_of(pendulum_pattern(), line), names),
                    ),
                    ..st
                },
                None => st,
            },
        }
    }
}

/// The cards at the end of the text: the complete ones and the open one, its
/// span ending with the text unless it ended before.
pub open spec fn finished(st: ReaderState, end: usize) -> Seq<CardView> {
    match st.current {
        Some(c) => st.cards.push(closed(c, end)),
        None => st.cards,
    }
}

/// The cards of a text whose lines before `start` were read into `st`, the
/// current line starting at `start` and holding no line break before `at`.
pub open spec fn read_scan(
    text: Seq<char>,
    names: SetNameMap,
    st: ReaderState,
    start: int,
    at: int,
) -> Seq<CardView>
    decreases text.len() - at,
{
    if start < 0 || at < start || at >= text.len() {
        finished(
            line_step(st, text.subrange(start, text.len() as int), start as usize, names),
            text.len() as usize,
        )
    } else if text[at] == '\n' {
        read_scan(
            text,
            names,
            line_step(st, text.subrange(start, at), start as usize, names),
            at + 1,
            at + 1,
        )
    } else {
        read_scan(text, names, st, start, at + 1)
    }
}

/// The cards of a text. Lines end at `\n`; offsets count characters.
pub open spec fn cards_of_text(text: Seq<char>, names: SetNameMap) -> Seq<CardView> {
    read_scan(text, names, ReaderState { cards: seq![], current: None }, 0, 0)
}

/// The link arrows among `bits`, as an unsigned number.
fn arrow_bits(bits: i32) -> (r: u64)
    ensures
        r == (bits & Linkmarkers::ALL) as u64,
{
    let valid: i32 = bits & Linkmarkers::ALL;
    assert(0 <= valid <= 0x1ef) by (bit_vector)
        requires
            valid == bits & 0x1efi32,
    ;
    valid as u64
}

/// The decimal text of a number.
fn decimal_of(n: i64) -> (r: Vec<char>)
    ensures
        r@ == decimal(n as int),
{
    write_decimal(n)
}

/// The number that a decimal text denotes, 0 where it denotes none that fits.
fn number_of(s: &Vec<char>) -> (r: u32)
    ensures
        r == number_or_zero(s@),
{
    match read_u32(s) {
        Some(n) => n,
        None => 0,
    }
}

/// The names of the flags of `bits`, joined.
fn joined_names(bits: u64, table: &Names, n: u32, sep: &str) -> (r: Vec<char>)
    requires
        n <= 64,
    ensures
        r@ == join(flag_names(bits, table_view(table@), n as nat), sep@),
{
    let names = names_of_flags(bits, table, n);
    let sep = chars_of(sep);
    join_with(&names, &sep)
}

/// The text of group `i` of a match.
pub(crate) fn group_of(groups: &Groups, i: usize) -> (r: Option<Vec<char>>)
    ensures
        match r {
            Some(t) => group(groups_view(groups@), i as int) == Some(t@),
            None => group(groups_view(groups@), i as int) is None,
        },
{
    if i < groups.len() {
        match &groups[i] {
            Some(t) => Some(chars_of(t.as_str())),
            None => None,
        }
    } else {
        None
    }
}

/// The text between the first and the last character of `s`.
fn inner_of(s: &Vec<char>) -> (r: Vec<char>)
    ensures
        r@ == inner(s@),
{
    if s.len() >= 2 {
        slice_of(s, 1, s.len() - 1)
    } else {
        Vec::new()
    }
}

/// Ends the span of a card at `end`, unless it was ended before.
pub fn set_card_range(card: &mut Card, end: usize)
    ensures
        final(card)@ == closed(old(card)@, end),
{
    match card.range {
        Some(r) => {
            if r.start >= r.end {
                card.range = Some(Range { start: r.start, end });
            }
        },
        None => {},
    }
}

/// What the reader holds between two lines.
pub struct Reader {
    pub cards: Vec<Card>,
    pub current: Option<Card>,
}

impl View for Reader {
    type V = ReaderState;

    open spec fn view(&self) -> ReaderState {
        ReaderState {
            cards: card_views(self.cards@),
            current: match self.current {
                Some(c) => Some(c@),
                None => None,
            },
        }
    }
}

/// The three expressions that reading takes.
pub struct Grammar {
    pub header: Pattern,
    pub stats: Pattern,
    pub pendulum: Pattern,
}

impl Grammar {
    /// Whether the expressions are those of the notation.
    pub open spec fn is_xyyz(&self) -> bool {
        &&& self.header.source() == header_pattern()
        &&& self.stats.source() == stat_pattern()
        &&& self.pendulum.source() == pendulum_pattern()
    }

    /// The expressions of the notation.
    pub fn new() -> (r: Grammar)
        ensures
            r.is_xyyz(),
    {
        Grammar {
            header: Pattern::new(
                r"^(\[.+\-.+\]\s+)?(.+)\((\d+)(\s*=>\s*(\d+)\s*)?\)\s+(.+?)\s*(\((.*)\))?$",
            ),
            stats: Pattern::new(r"^(.+?) (.+?) (.+?)((?:/.+?)*) (\d+|\?|∞) ?(\d+|\?|∞|(\[.+\])?)$"),
            pendulum: Pattern::new(r"^←(\d+)\s*【灵摆】\s*(\d+)→$"),
        }
    }
}

impl Xyyz {
    /// The level of a card as the header shows it.
    pub fn format_level(this: &Card) -> (r: String)
        ensures
            r@ == level_text(this@),
    {
        let mut out: Vec<char> = Vec::new();
        if this._type.bits & Type::XYZ == Type::XYZ {
            let digits = decimal_of(this.level as i64);
            append(&mut out, &digits);
            append_str(&mut out, "阶");
            assert(out@ =~= level_text(this@));
        } else if this._type.bits & Type::LINK == Type::LINK {
            append_str(&mut out, "LINK-");
            let digits = decimal_of(this.level as i64);
            append(&mut out, &digits);
            assert(out@ =~= level_text(this@));
        } else {
            let digits = decimal_of(this.level as i64);
            append(&mut out, &digits);
            append_str(&mut out, "星");
            assert(out@ =~= level_text(this@));
        }
        string_of(&out)
    }

    /// Reads a level text into the card: the number becomes its level, and a
    /// rank or link rating adds the Xyz or Link kind. A text of no known
    /// shape changes nothing.
    pub fn set_level(card: &mut Card, s: &str)
        ensures
            final(card)@ == match level_of_text(s@) {
                Some((kind, level)) => CardView {
                    _type: old(card)@._type | kind,
                    level: level,
                    ..old(card)@
                },
                None => old(card)@,
            },
    {
        let s = chars_of(s);
        let star = chars_of("星");
        let rank = chars_of("阶");
        let link = chars_of("LINK-");
        if has_suffix(&s, &star) {
            let digits = trimmed(&strip_trailing(&s, &star));
            card.level = number_of(&digits);
            assert(card._type.bits | 0u32 == card._type.bits) by (bit_vector);
        } else if has_suffix(&s, &rank) {
            let digits = trimmed(&strip_trailing(&s, &rank));
            card._type = card._type.union(Type::from_bits_retain(Type::XYZ));
            card.level = number_of(&digits);
        } else if has_prefix(&s, &link) {
            let digits = trimmed(&strip_leading(&s, &link));
            card._type = card._type.union(Type::from_bits_retain(Type::LINK));
            card.level = number_of(&digits);
        }
    }

    /// An attack or defense value as text.
    pub fn format_number(num: i32) -> (r: String)
        ensures
            r@ == stat_text(num),
    {
        if num == -2 {
            "?".to_owned()
        } else if num == -1 {
            "∞".to_owned()
        } else {
            let digits = decimal_of(num as i64);
            string_of(&digits)
        }
    }

    /// The value that a stat text denotes, 0 where it denotes none.
    pub fn get_num(s: &str) -> (r: i32)
        ensures
            r == stat_of_text(s@),
    {
        let s = chars_of(s);
        let unknown = chars_of("?");
        let infinite = chars_of("∞");
        if seq_eq(&s, &unknown) {
            -2
        } else if seq_eq(&s, &infinite) {
            -1
        } else {
            match read_i32(&s) {
                Some(n) => n,
                None => 0,
            }
        }
    }

    /// The names of the sets of a card, joined by `、`. The result is always
    /// `Some`; it is empty where no slot of the set code is used.
    pub fn format_setcode(this: &Card, names: &SetNames) -> (r: Option<String>)
        ensures
            r matches Some(s) && s@ == setcode_text(names@, this@.setcode),
    {
        let text = names.decode(this.setcode);
        Some(string_of(&text))
    }

    /// The set code that a `、`-separated list of set names denotes.
    pub fn get_setcode(s: &str, names: &SetNames) -> (r: u64)
        ensures
            r == setcode_of_text(names@, s@),
    {
        let s = chars_of(s);
        names.encode(&s)
    }

    /// The names of the attributes of a set joined by `/`.
    pub fn format_attribute(this: &Attribute) -> (r: String)
        ensures
            r@ == attribute_text(this.bits),
    {
        if this.is_empty() {
            return "无".to_owned();
        }
        let table = attribute_names();
        let text = joined_names((this.bits & Attribute::ALL) as u64, &table, 7, "/");
        string_of(&text)
    }

    /// The attributes that a list of names denotes; a name that is none is
    /// dropped.
    pub fn get_attribute(value: &str) -> (r: Attribute)
        ensures
            r.bits == attribute_of_text(value@),
    {
        let value = chars_of(value);
        let sep = chars_of("/");
        proof {
            reveal_strlit("/");
        }
        let tokens = split_on(&value, &sep);
        let table = attribute_names();
        Attribute::from_bits_retain(flags_of_names(&tokens, &table, Attribute::ALL as u64) as u32)
    }

    /// The names of the races of a set joined by `/`.
    pub fn format_race(this: &Race) -> (r: String)
        ensures
            r@ == race_text(this.bits),
    {
        if this.is_empty() {
            return "无种族".to_owned();
        }
        let table = race_names();
        let text = joined_names((this.bits & Race::ALL) as u64, &table, 25, "/");
        string_of(&text)
    }

    /// The races that a list of names denotes; a name that is none is dropped.
    pub fn get_race(value: &str) -> (r: Race)
        ensures
            r.bits == race_of_text(value@),
    {
        let value = chars_of(value);
        let sep = chars_of("/");
        proof {
            reveal_strlit("/");
        }
        let tokens = split_on(&value, &sep);
        let table = race_names();
        Race::from_bits_retain(flags_of_names(&tokens, &table, Race::ALL as u64) as u32)
    }

    /// The kind of a spell or trap card as the header shows it.
    pub fn format_type(this: &Type) -> (r: String)
        ensures
            r@ == type_text(this.bits),
    {
        let bits = this.bits;
        let mut out: Vec<char> = Vec::new();
        if bits & Type::SPELL == Type::SPELL {
            proof {
                lemma_at_least(bits, Type::SPELL);
            }
            let prefix = Self::kind_prefix(bits - Type::SPELL);
            append(&mut out, &prefix);
            append_str(&mut out, "魔法");
            assert(out@ =~= type_text(this.bits));
        } else if bits & Type::TRAP == Type::TRAP {
            proof {
                lemma_at_least(bits, Type::TRAP);
            }
            let prefix = Self::kind_prefix(bits - Type::TRAP);
            append(&mut out, &prefix);
            append_str(&mut out, "陷阱");
            assert(out@ =~= type_text(this.bits));
        }
        string_of(&out)
    }

    fn kind_prefix(rest: u32) -> (r: Vec<char>)
        ensures
            r@ == kind_prefix(rest),
    {
        let table = type_names();
        match find_name(&table, rest as u64) {
            Some(name) => name,
            None => chars_of("通常"),
        }
    }

    /// The kinds of a kind name united with a spell or trap.
    fn kind_with(prefix: &Vec<char>, base: u32) -> (r: u32)
        ensures
            r == kind_with(prefix@, base),
    {
        let table = type_names();
        match find_key(&table, prefix) {
            Some(key) => {
                proof {
                    lemma_type_keys(prefix@);
                }
                ((key as u32) | base) & !Type::NORMAL & Type::ALL
            },
            None => 0,
        }
    }

    /// The kinds that the kind text of a spell or trap card denotes; a text
    /// that is no such text denotes none.
    pub fn get_type(s: &str) -> (r: Type)
        ensures
            r.bits == type_of_text(s@),
    {
        let s = chars_of(s);
        let spell = chars_of("魔法");
        let trap = chars_of("陷阱");
        if has_suffix(&s, &spell) {
            let prefix = slice_of(&s, 0, s.len() - spell.len());
            Type::from_bits_retain(Self::kind_with(&prefix, Type::SPELL))
        } else if has_suffix(&s, &trap) {
            let prefix = slice_of(&s, 0, s.len() - trap.len());
            Type::from_bits_retain(Self::kind_with(&prefix, Type::TRAP))
        } else {
            Type::from_bits_retain(0)
        }
    }

    /// The subtype list of a monster.
    pub fn format_subtype(this: &Type) -> (r: String)
        ensures
            r@ == subtype_text(this.bits),
    {
        let bits = this.bits;
        let table = type_names();
        let extra = bits & (Type::FUSION | Type::RITUAL | Type::XYZ | Type::SYNCHRO | Type::LINK)
            != 0;
        let model = Type::NORMAL | Type::FUSION | Type::RITUAL | Type::SYNCHRO | Type::XYZ
            | Type::PENDULUM | Type::LINK | Type::SPSUMMON;
        let minor = Type::FLIP | Type::TOKEN | Type::SPIRIT | Type::UNION | Type::TOON
            | Type::DUAL | Type::TUNER;
        let shown = if extra {
            bits & model & !Type::NORMAL
        } else {
            bits & model
        };
        let mut names = names_of_flags(shown as u64, &table, 27);
        if extra && bits & Type::EFFECT != Type::EFFECT {
            let label = chars_of("非效果");
            proof {
                assert(views(names@.push(label)) =~= views(names@) + seq!["非效果"@]);
            }
            names.push(label);
        } else {
            assert(views(names@) + Seq::<Seq<char>>::empty() =~= views(names@));
        }
        let mut last = names_of_flags((bits & minor) as u64, &table, 27);
        let ghost first = views(names@);
        let ghost second = views(last@);
        names.append(&mut last);
        assert(views(names@) =~= first + second);
        let mut out: Vec<char> = Vec::new();
        if names.len() > 0 {
            let sep = chars_of("/");
            append(&mut out, &sep);
            let joined = join_with(&names, &sep);
            append(&mut out, &joined);
            assert(out@ =~= "/"@ + join(views(names@), "/"@));
        }
        string_of(&out)
    }

    /// The kinds that a subtype list denotes.
    pub fn get_subtype(value: &str) -> (r: Type)
        ensures
            r.bits == subtype_of_text(value@),
    {
        let value = chars_of(value);
        let sep = chars_of("/");
        proof {
            reveal_strlit("/");
        }
        let tokens = drop_empty(&split_on(&value, &sep));
        let mut table = noneffect_names();
        let mut kinds = type_names();
        let ghost first = table_view(table@);
        let ghost second = table_view(kinds@);
        table.append(&mut kinds);
        assert(table_view(table@) =~= first + second);
        let t: u32 = flags_of_names(&tokens, &table, Type::ALL as u64) as u32;
        let extra = Type::FUSION | Type::RITUAL | Type::XYZ | Type::SYNCHRO | Type::LINK;
        let bits = if t & extra != 0 {
            if t & Type::NORMAL == Type::NORMAL {
                t & !Type::NORMAL
            } else {
                t | Type::EFFECT
            }
        } else if t & (Type::TOKEN | Type::NORMAL) == 0 {
            t | Type::EFFECT
        } else {
            t
        };
        Type::from_bits_retain(bits)
    }

    /// The link arrows as text.
    pub fn format_linkmarkers(this: &Linkmarkers) -> (r: String)
        ensures
            r@ == linkmarkers_text(this.bits),
    {
        if this.is_empty() {
            return String::new();
        }
        let table = linkmarker_names();
        let joined = joined_names(arrow_bits(this.bits), &table, 9, "][");
        let mut out: Vec<char> = Vec::new();
        append_str(&mut out, "[");
        append(&mut out, &joined);
        append_str(&mut out, "]");
        assert(out@ =~= linkmarkers_text(this.bits));
        string_of(&out)
    }

    /// The link arrows that a text denotes; a glyph that is none is dropped.
    pub fn get_linkmarkers(value: &str) -> (r: Linkmarkers)
        ensures
            r.bits == linkmarkers_of_text(value@),
    {
        let value = chars_of(value);
        if value.len() == 0 {
            return Linkmarkers::empty();
        }
        let middle = if value.len() >= 2 {
            slice_of(&value, 1, value.len() - 1)
        } else {
            Vec::new()
        };
        let sep = chars_of("][");
        proof {
            reveal_strlit("][");
        }
        let tokens = split_on(&middle, &sep);
        let table = linkmarker_names();
        Linkmarkers::from_bits_retain(
            flags_of_names(&tokens, &table, Linkmarkers::ALL as u64) as i32,
        )
    }

    /// The rule sets as text.
    pub fn format_ot(this: &OT) -> (r: String)
        ensures
            r@ == ot_text(this.bits),
    {
        if this.bits == 3 {
            return String::new();
        }
        let table = ot_names();
        match find_name(&table, this.bits as u64) {
            Some(name) => string_of(&name),
            None => {
                let text = joined_names((this.bits & OT::ALL) as u64, &table, 11, "&");
                string_of(&text)
            },
        }
    }

    /// The rule sets that a text denotes; a name that is none is dropped.
    pub fn get_ot(value: &str) -> (r: OT)
        ensures
            r.bits == ot_of_text(value@),
    {
        let value = chars_of(value);
        let sep = chars_of("&");
        proof {
            reveal_strlit("&");
        }
        let tokens = trim_all(&split_on(&value, &sep));
        let table = ot_names();
        OT::from_bits_retain(flags_of_names(&tokens, &table, OT::ALL as u64) as u32)
    }

    /// The names of the categories of a set joined by `、`.
    pub fn format_category(this: &Category) -> (r: String)
        ensures
            r@ == category_text(this.bits),
    {
        let table = category_names();
        let text = joined_names(this.bits & Category::ALL, &table, 32, "、");
        string_of(&text)
    }

    /// The categories that a text denotes; a name that is none is dropped.
    pub fn get_category(value: &str) -> (r: Category)
        ensures
            r.bits == category_of_text(value@),
    {
        let value = chars_of(value);
        let sep = chars_of("、");
        proof {
            reveal_strlit("、");
        }
        let tokens = trim_all(&split_on(&value, &sep));
        let table = category_names();
        Category::from_bits_retain(flags_of_names(&tokens, &table, Category::ALL))
    }

    /// The lead of the header line: name, code and alias.
    fn lead_of(card: &Card) -> (r: Vec<char>)
        ensures
            r@ == card@.name + "("@ + decimal(card@.code as int) + alias_text(card@.alias) + ") "@,
    {
        let mut out: Vec<char> = chars_of(card.name.as_str());
        append_str(&mut out, "(");
        append(&mut out, &decimal_of(card.code as i64));
        if card.alias > 0 {
            append_str(&mut out, "=>");
            append(&mut out, &decimal_of(card.alias as i64));
        }
        append_str(&mut out, ") ");
        assert(out@ =~= card@.name + "("@ + decimal(card@.code as int) + alias_text(card@.alias)
            + ") "@);
        out
    }

    /// The header line of a card without the rule sets.
    fn header_of(card: &Card) -> (r: Vec<char>)
        ensures
            r@ == header_text(card@),
    {
        let mut out = Self::lead_of(card);
        let ghost lead = out@;
        if card._type.bits & Type::MONSTER == Type::MONSTER {
            let attribute = Self::format_attribute(&card.attribute);
            let level = Self::format_level(card);
            let race = Self::format_race(&card.race);
            let subtype = Self::format_subtype(&card._type);
            let attack = Self::format_number(card.attack);
            let last = if card._type.bits & Type::LINK == Type::LINK {
                Self::format_linkmarkers(&card.link_marker)
            } else {
                Self::format_number(card.defense)
            };
            append_str(&mut out, attribute.as_str());
            append_str(&mut out, " ");
            append_str(&mut out, level.as_str());
            append_str(&mut out, " ");
            append_str(&mut out, race.as_str());
            append_str(&mut out, subtype.as_str());
            append_str(&mut out, " ");
            append_str(&mut out, attack.as_str());
            append_str(&mut out, " ");
            append_str(&mut out, last.as_str());
            assert(out@ =~= lead + attribute@ + " "@ + level@ + " "@ + race@ + subtype@ + " "@
                + attack@ + " "@ + last@);
        } else {
            append_str(&mut out, Self::format_type(&card._type).as_str());
        }
        out
    }

    /// What follows the header of a card: rule sets, series line,
    /// description, category line and hint line.
    fn tail_of(card: &Card, names: &SetNames) -> (r: Vec<char>)
        ensures
            r@ == ot_suffix(card@.ot) + series_line(names@, card@.setcode) + "\n"@ + card@.desc
                + category_line(card@.category) + texts_line(card@.texts),
    {
        let mut out: Vec<char> = Vec::new();
        if card.ot.bits != 3 {
            append_str(&mut out, " (");
            append_str(&mut out, Self::format_ot(&card.ot).as_str());
            append_str(&mut out, ")");
        }
        assert(out@ =~= ot_suffix(card@.ot));
        let series = names.decode(card.setcode);
        if series.len() > 0 {
            append_str(&mut out, "\n系列：");
            append(&mut out, &series);
        }
        assert(out@ =~= ot_suffix(card@.ot) + series_line(names@, card@.setcode));
        append_str(&mut out, "\n");
        append_str(&mut out, card.desc.as_str());
        let ghost upto = out@;
        assert(upto =~= ot_suffix(card@.ot) + series_line(names@, card@.setcode) + "\n"@
            + card@.desc);
        if !card.category.is_empty() {
            append_str(&mut out, "\n效果分类：");
            append_str(&mut out, Self::format_category(&card.category).as_str());
        }
        assert(out@ =~= upto + category_line(card@.category));
        if card.texts.len() > 0 {
            append_str(&mut out, "\n提示文本：");
            let texts = chars_of_all(&card.texts);
            let sep = chars_of("、");
            append(&mut out, &join_with(&texts, &sep));
        }
        assert(out@ =~= upto + category_line(card@.category) + texts_line(card@.texts));
        out
    }

    /// Reads the stats of a monster into a card.
    fn read_stats(card: &mut Card, stats: &Groups)
        requires
            is_stats(groups_view(stats@)),
        ensures
            final(card)@ == with_stats(old(card)@, groups_view(stats@)),
    {
        let ghost before = card@;
        let ghost g = groups_view(stats@);
        let attribute = group_of(stats, 1).unwrap();
        let level = group_of(stats, 2).unwrap();
        let race = group_of(stats, 3).unwrap();
        let subtype = match group_of(stats, 4) {
            Some(t) => t,
            None => Vec::new(),
        };
        let attack = group_of(stats, 5).unwrap();
        let defense = group_of(stats, 6).unwrap();
        card.attribute = Self::get_attribute(string_of(&attribute).as_str());
        Self::set_level(card, string_of(&level).as_str());
        card.race = Self::get_race(string_of(&race).as_str());
        card._type = Self::get_subtype(string_of(&subtype).as_str()).union(
            Type::from_bits_retain(Type::MONSTER),
        );
        card.attack = Self::get_num(string_of(&attack).as_str());
        card.defense = Self::get_num(string_of(&defense).as_str());
        match group_of(stats, 7) {
            Some(arrows) => {
                card._type = card._type.union(Type::from_bits_retain(Type::LINK));
                card.link_marker = Self::get_linkmarkers(string_of(&arrows).as_str());
                card.defense = card.link_marker.bits;
            },
            None => {},
        }
        assert(card@.texts == before.texts);
        assert(card@ == with_stats(before, g));
    }

    /// The card that a header line opens, `None` where the groups are not
    /// those of a header line. `stats` is what the stat expression found in
    /// group 6 of the header, `offset` the place of the line in the text.
    pub fn open_card(groups: &Groups, stats: &Option<Groups>, offset: usize) -> (r: Option<Card>)
        ensures
            match r {
                Some(card) => is_header(groups_view(groups@)) && card@ == opened_card(
                    groups_view(groups@),
                    match_view(*stats),
                    offset,
                ),
                None => !is_header(groups_view(groups@)),
            },
    {
        let name = match group_of(groups, 2) {
            Some(t) => t,
            None => {
                return None;
            },
        };
        let code = match group_of(groups, 3) {
            Some(t) => number_of(&t),
            None => {
                return None;
            },
        };
        let rest = match group_of(groups, 6) {
            Some(t) => t,
            None => {
                return None;
            },
        };
        let mut card = Card::new();
        card.code = code;
        card.name = string_of(&name);
        card.alias = match group_of(groups, 5) {
            Some(t) => number_of(&t),
            None => 0,
        };
        card.ot = match group_of(groups, 8) {
            Some(t) => Self::get_ot(string_of(&t).as_str()),
            None => OT::from_bits_retain(3),
        };
        card.pack = match group_of(groups, 1) {
            Some(t) => {
                let rarity: Vec<String> = Vec::new();
                assert(string_views(rarity@) =~= Seq::<Seq<char>>::empty());
                Some(
                    PackInfo {
                        id: code,
                        pack_id: string_of(&inner_of(&trimmed(&t))),
                        pack: String::new(),
                        rarity,
                        date: String::new(),
                    },
                )
            },
            None => None,
        };
        card.range = Some(Range { start: offset, end: offset });
        match stats {
            Some(s) => {
                if group_of(s, 1).is_some() && group_of(s, 2).is_some() && group_of(s, 3).is_some()
                    && group_of(s, 5).is_some() && group_of(s, 6).is_some() {
                    Self::read_stats(&mut card, s);
                } else {
                    card._type = Self::get_type(string_of(&rest).as_str());
                }
            },
            None => {
                card._type = Self::get_type(string_of(&rest).as_str());
            },
        }
        Some(card)
    }

    /// Reads a line that follows the header of a card into the card. `scales`
    /// is what the pendulum expression found in the line.
    pub fn continue_card(card: &mut Card, line: &str, scales: &Option<Groups>, names: &SetNames)
        ensures
            final(card)@ == continued_card(old(card)@, line@, match_view(*scales), names@),
    {
        let ghost before = card@;
        if card._type.bits & Type::PENDULUM == Type::PENDULUM {
            match scales {
                Some(s) => {
                    match (group_of(s, 1), group_of(s, 2)) {
                        (Some(left), Some(right)) => {
                            card.lscale = number_of(&left);
                            card.rscale = number_of(&right);
                        },
                        _ => {},
                    }
                },
                None => {},
            }
        }
        assert(card@ == with_scales(before, match_view(*scales)));
        let line = chars_of(line);
        let field = chars_of("系列字段：");
        let series = chars_of("系列：");
        let category = chars_of("效果分类：");
        let hints = chars_of("提示文本：");
        if has_prefix(&line, &field) {
            card.setcode = names.encode(&strip_leading(&line, &field));
        } else if has_prefix(&line, &series) {
            card.setcode = card.setcode | names.encode(&strip_leading(&line, &series));
        } else if has_prefix(&line, &category) {
            card.category = Self::get_category(
                string_of(&strip_leading(&line, &category)).as_str(),
            );
        } else if has_prefix(&line, &hints) {
            let sep = chars_of("、");
            proof {
                reveal_strlit("、");
            }
            let parts = split_on(&strip_leading(&line, &hints), &sep);
            card.texts = strings_of(&parts);
        } else {
            let mut desc = chars_of(card.desc.as_str());
            if desc.len() > 0 {
                append_str(&mut desc, "\n");
            }
            append(&mut desc, &line);
            card.desc = string_of(&desc);
            assert(card@.desc =~= desc_with(before.desc, line@));
        }
    }

    /// Reads one line, which starts at `offset`, into the state of the
    /// reader.
    fn read_line(
        st: Reader,
        raw: &Vec<char>,
        offset: usize,
        grammar: &Grammar,
        names: &SetNames,
    ) -> (r: Reader)
        requires
            grammar.is_xyyz(),
        ensures
            r@ == line_step(st@, raw@, offset, names@),
    {
        let mut st = st;
        let ghost before = st@;
        let line = if raw.len() > 0 && raw[raw.len() - 1] == '\r' {
            slice_of(raw, 0, raw.len() - 1)
        } else {
            slice_of(raw, 0, raw.len())
        };
        assert(line@ =~= without_cr(raw@));
        let comment = chars_of("#");
        if has_prefix(&line, &comment) {
            return st;
        }
        if blank(&line) {
            match st.current {
                Some(mut c) => {
                    set_card_range(&mut c, offset);
                    return Reader { cards: st.cards, current: Some(c) };
                },
                None => {
                    return Reader { cards: st.cards, current: None };
                },
            }
        }
        let text = string_of(&line);
        let found = grammar.header.captures(text.as_str());
        let opened = match &found {
            Some(groups) => {
                let stats = match group_of(groups, 6) {
                    Some(rest) => grammar.stats.captures(string_of(&rest).as_str()),
                    None => None,
                };
                Self::open_card(groups, &stats, offset)
            },
            None => None,
        };
        match opened {
            Some(card) => {
                let mut cards = st.cards;
                match st.current {
                    Some(mut c) => {
                        set_card_range(&mut c, offset);
                        proof {
                            assert(card_views(cards@.push(c)) =~= card_views(cards@).push(c@));
                        }
                        cards.push(c);
                    },
                    None => {},
                }
                Reader { cards, current: Some(card) }
            },
            None => {
                match st.current {
                    Some(mut c) => {
                        let scales = if c._type.bits & Type::PENDULUM == Type::PENDULUM {
                            grammar.pendulum.captures(text.as_str())
                        } else {
                            None
                        };
                        Self::continue_card(&mut c, text.as_str(), &scales, names);
                        Reader { cards: st.cards, current: Some(c) }
                    },
                    None => Reader { cards: st.cards, current: None },
                }
            },
        }
    }

    /// The cards of a text, read with the given expressions.
    pub(crate) fn read_text(text: &Vec<char>, grammar: &Grammar, names: &SetNames) -> (r: Vec<Card>)
        requires
            grammar.is_xyyz(),
        ensures
            card_views(r@) == cards_of_text(text@, names@),
    {
        let mut st = Reader { cards: Vec::new(), current: None };
        assert(st@.cards =~= Seq::<CardView>::empty());
        let mut start: usize = 0;
        let mut at: usize = 0;
        while at < text.len()
            invariant
                grammar.is_xyyz(),
                start <= at <= text.len(),
                cards_of_text(text@, names@) == read_scan(
                    text@,
                    names@,
                    st@,
                    start as int,
                    at as int,
                ),
            decreases text.len() - at,
        {
            if text[at] == '\n' {
                let raw = slice_of(text, start, at);
                st = Self::read_line(st, &raw, start, grammar, names);
                start = at + 1;
            }
            at += 1;
        }
        let raw = slice_of(text, start, text.len());
        st = Self::read_line(st, &raw, start, grammar, names);
        let mut cards = st.cards;
        match st.current {
            Some(mut c) => {
                set_card_range(&mut c, text.len());
                proof {
                    assert(card_views(cards@.push(c)) =~= card_views(cards@).push(c@));
                }
                cards.push(c);
            },
            None => {},
        }
        cards
    }
}

impl Xyyz {
    /// Whether the text that is written for a card reads back as that card
    /// alone, whatever its span: what a caller tests who takes no card that
    /// writing and reading would change.
    pub fn reads_back(card: &Card, names: &SetNames) -> (r: bool)
        ensures
            r == {
                let read = cards_of_text(card_text(card@, names@), names@);
                read.len() == 1 && unranged(read[0]) == unranged(card@)
            },
    {
        let text = Self::to_string(card, names);
        let read = Self::from_string(text.as_str(), names);
        assert(Self::text_of(card@, names@) == card_text(card@, names@));
        assert(Self::cards_of(text@, names@) == cards_of_text(text@, names@));
        if read.len() != 1 {
            return false;
        }
        assert(card_views(read@)[0] == read@[0]@);
        read[0].same_but_range(card)
    }
}

impl CardTransformer for Xyyz {
    open spec fn text_of(card: CardView, names: SetNameMap) -> Seq<char> {
        card_text(card, names)
    }

    open spec fn cards_of(text: Seq<char>, names: SetNameMap) -> Seq<CardView> {
        cards_of_text(text, names)
    }

    fn to_string(card: &Card, names: &SetNames) -> (r: String) {
        let mut out = Xyyz::header_of(card);
        append(&mut out, &Xyyz::tail_of(card, names));
        assert(out@ =~= card_text(card@, names@));
        assert(Self::text_of(card@, names@) == card_text(card@, names@));
        string_of(&out)
    }

    fn from_string(text: &str, names: &SetNames) -> (r: Vec<Card>) {
        let grammar = Grammar::new();
        let text = chars_of(text);
        Self::read_text(&text, &grammar, names)
    }
}

/// A set that holds a flag is, as a number, at least the flag.
pub proof fn lemma_at_least(bits: u32, flag: u32)
    by (bit_vector)
    requires
        bits & flag == flag,
    ensures
        bits >= flag,
{
}

/// Every key of the table of kinds is at most the Link flag.
pub proof fn lemma_type_keys(name: Seq<char>)
    ensures
        key_of(type_table(), name) matches Some(key) ==> key <= 0x400_0000,
{
    reveal_with_fuel(crate::names::key_from, 30);
}

} // verus!
