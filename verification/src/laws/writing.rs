//! What is written for a card: its text is its lines joined, and no line
//! holds a line break.

use vstd::prelude::*;
use crate::card::CardView;
use crate::constants::{Attribute, Linkmarkers, Race, Type, OT};
use crate::laws::cards::{
    card_lines, category_lines, header_line, is_plain_line, is_plain_record, series_lines,
    texts_lines,
};
use crate::laws::flags::{lemma_category_low, lemma_masks, lemma_widen, lemma_widen_race};
use crate::laws::header::is_plain_card;
use crate::laws::kinds::lemma_subtype_names_decode;
use crate::laws::levels::lemma_widen_arrows;
use crate::laws::series::{lemma_no_set_text, lemma_one_set_text};
use crate::laws::spells::{is_plain_kind, lemma_kind_names};
use crate::laws::tables::{
    lemma_attribute_names, lemma_category_names, lemma_flag_names_clean, lemma_linkmarker_names,
    lemma_ot_names, lemma_race_names, name_clean,
};
use crate::names::{
    attribute_table, category_table, flag_names, linkmarker_table, name_from, name_of, ot_table,
    race_table,
};
use crate::number::{decimal, hex_digits, lemma_decimal_digits_value, lemma_hex_digits_value};
use crate::setnames::{slot_name, SetNameMap};
use crate::text::{
    has_char, join, lemma_join_append, lemma_split_join, lemma_unbroken_concat, lemma_unbroken_join,
    split, unbroken,
};
use crate::transformers::xyyz::{
    alias_text, attribute_text, card_text, category_line, category_text, header_text, kind_prefix,
    level_text, linkmarkers_text, ot_suffix, ot_text, race_text, series_line, stat_text,
    subtype_names, subtype_text, texts_line, type_text, without_cr,
};

verus! {

/// Names that can stand in a list hold no line break.
pub proof fn lemma_clean_unbroken(names: Seq<Seq<char>>, c: char)
    requires
        forall|i: int| 0 <= i < names.len() ==> name_clean(#[trigger] names[i], c),
    ensures
        forall|i: int| 0 <= i < names.len() ==> unbroken(#[trigger] names[i]),
{
    assert forall|i: int| 0 <= i < names.len() implies unbroken(#[trigger] names[i]) by {
        assert(name_clean(names[i], c));
    }
}

/// A number in decimal notation holds no line break.
pub proof fn lemma_decimal_unbroken(n: int)
    ensures
        unbroken(decimal(n)),
{
    if n < 0 {
        lemma_decimal_digits_value((-n) as nat);
        let d = crate::number::decimal_digits((-n) as nat);
        assert(unbroken(d)) by {
            assert forall|i: int| 0 <= i < d.len() implies #[trigger] d[i] != '\n' by {
                assert('0' <= d[i] <= '9');
            }
        }
        lemma_unbroken_concat(seq!['-'], d);
    } else {
        lemma_decimal_digits_value(n as nat);
        let d = decimal(n);
        assert forall|i: int| 0 <= i < d.len() implies #[trigger] d[i] != '\n' by {
            assert('0' <= d[i] <= '9');
        }
    }
}

/// The names of the flags of a set, joined, hold no line break.
proof fn lemma_names_unbroken(
    bits: u64,
    table: crate::names::NameTable,
    mask: u64,
    n: nat,
    c: char,
    sep: Seq<char>,
)
    requires
        n <= 63,
        bits & !mask == 0,
        crate::laws::tables::names_lead_back(table, table, mask, n),
        crate::laws::tables::names_clean(table, mask, n, c),
        unbroken(sep),
    ensures
        unbroken(join(flag_names(bits, table, n), sep)),
{
    lemma_flag_names_clean(bits, table, table, mask, n, c);
    lemma_clean_unbroken(flag_names(bits, table, n), c);
    lemma_unbroken_join(flag_names(bits, table, n), sep);
}

/// The stats of a plain monster hold no line break.
proof fn lemma_stats_unbroken(card: CardView)
    requires
        card.attribute & !Attribute::ALL == 0,
        card.race & !Race::ALL == 0,
        card.race & Race::BEASTWARRIOR == 0,
        card.link_marker & !Linkmarkers::ALL == 0,
    ensures
        unbroken(attribute_text(card.attribute)),
        unbroken(level_text(card)),
        unbroken(race_text(card.race)),
        unbroken(subtype_text(card._type)),
        unbroken(stat_text(card.attack)),
        unbroken(stat_text(card.defense)),
        unbroken(linkmarkers_text(card.link_marker)),
{
    reveal_strlit("/");
    reveal_strlit("无");
    reveal_strlit("无种族");
    reveal_strlit("阶");
    reveal_strlit("星");
    reveal_strlit("LINK-");
    reveal_strlit("?");
    reveal_strlit("∞");
    reveal_strlit("[");
    reveal_strlit("]");
    reveal_strlit("][");
    lemma_masks();
    // attributes
    let a = card.attribute as u64;
    lemma_widen(card.attribute, 0x7f, a);
    lemma_attribute_names();
    lemma_names_unbroken(a, attribute_table(), 0x7f, 7, '/', "/"@);
    // races
    let r = card.race as u64;
    lemma_widen_race(card.race, r);
    lemma_race_names();
    lemma_names_unbroken(r, race_table(), 0x1ff7fff, 25, '/', "/"@);
    // level
    lemma_decimal_unbroken(card.level as int);
    let m = (card.link_marker & Linkmarkers::ALL) as u64;
    lemma_widen_arrows(card.link_marker, m);
    lemma_linkmarker_names();
    lemma_unbroken_concat(decimal(card.level as int), "阶"@);
    lemma_unbroken_concat(decimal(card.level as int), "星"@);
    lemma_unbroken_concat("LINK-"@, decimal(card.level as int));
    // subtype list
    lemma_subtype_names_decode(card._type);
    lemma_clean_unbroken(subtype_names(card._type), '/');
    lemma_unbroken_join(subtype_names(card._type), "/"@);
    lemma_unbroken_concat("/"@, join(subtype_names(card._type), "/"@));
    // attack, defense
    lemma_decimal_unbroken(card.attack as int);
    lemma_decimal_unbroken(card.defense as int);
    // link arrows
    lemma_names_unbroken(m, linkmarker_table(), 0x1ef, 9, ']', "]["@);
    lemma_unbroken_concat("["@, join(flag_names(m, linkmarker_table(), 9), "]["@));
    lemma_unbroken_concat("["@ + join(flag_names(m, linkmarker_table(), 9), "]["@), "]"@);
}

/// The rule sets of a card, as its header shows them, hold no line break.
proof fn lemma_ot_unbroken(ot: u32)
    requires
        ot & !OT::ALL == 0,
    ensures
        unbroken(ot_suffix(ot)),
{
    reveal_strlit(" (");
    reveal_strlit(")");
    reveal_strlit("&");
    reveal_strlit("OCG");
    reveal_strlit("TCG");
    reveal_strlit("OT");
    reveal_strlit("Custom");
    reveal_strlit("SC");
    reveal_strlit("SCONLY");
    reveal_strlit("Draft");
    if ot != 3 {
        let text = ot_text(ot);
        match name_of(ot_table(), ot as u64) {
            Some(name) => {
                reveal_with_fuel(name_from, 8);
                assert(unbroken(name));
            },
            None => {
                let wide = ot as u64;
                lemma_widen(ot, 0x40f, wide);
                lemma_ot_low(wide);
                lemma_ot_names();
                lemma_names_unbroken(wide, ot_table(), 0x40f, 11, '&', "&"@);
            },
        }
        lemma_unbroken_concat(" ("@, text);
        lemma_unbroken_concat(" ("@ + text, ")"@);
    }
}

/// A set of rule sets lies within the lowest 11 places.
proof fn lemma_ot_low(wide: u64)
    by (bit_vector)
    requires
        wide & !0x40fu64 == 0,
    ensures
        wide & (((1u64 << 11u64) - 1) as u64) == wide,
{
}

/// The kind of a plain spell or trap card holds no line break.
proof fn lemma_kind_unbroken(bits: u32)
    requires
        is_plain_kind(bits),
    ensures
        unbroken(type_text(bits)),
{
    reveal_strlit("魔法");
    reveal_strlit("陷阱");
    reveal_strlit("通常");
    let base = if bits & Type::SPELL == Type::SPELL {
        Type::SPELL
    } else {
        Type::TRAP
    };
    crate::transformers::xyyz::lemma_at_least(bits, base);
    let rest = (bits - base) as u32;
    lemma_kind_names(rest as u64);
    let head = kind_prefix(rest);
    assert(unbroken(head));
    lemma_unbroken_concat(head, "魔法"@);
    lemma_unbroken_concat(head, "陷阱"@);
}

/// The header line of a plain card whose name holds no line break holds
/// none.
pub proof fn lemma_header_unbroken(card: CardView)
    requires
        is_plain_card(card),
        unbroken(card.name),
    ensures
        unbroken(header_line(card)),
{
    reveal_strlit("(");
    reveal_strlit(") ");
    reveal_strlit("=>");
    reveal_strlit(" ");
    lemma_decimal_unbroken(card.code as int);
    lemma_decimal_unbroken(card.alias as int);
    lemma_unbroken_concat("=>"@, decimal(card.alias as int));
    let l1 = card.name + "("@;
    lemma_unbroken_concat(card.name, "("@);
    let l2 = l1 + decimal(card.code as int);
    lemma_unbroken_concat(l1, decimal(card.code as int));
    let l3 = l2 + alias_text(card.alias);
    lemma_unbroken_concat(l2, alias_text(card.alias));
    let lead = l3 + ") "@;
    lemma_unbroken_concat(l3, ") "@);
    lemma_ot_unbroken(card.ot);
    if card._type & Type::MONSTER == Type::MONSTER {
        lemma_stats_unbroken(card);
        let s = " "@;
        let h1 = lead + attribute_text(card.attribute);
        lemma_unbroken_concat(lead, attribute_text(card.attribute));
        let h2 = h1 + s;
        lemma_unbroken_concat(h1, s);
        let h3 = h2 + level_text(card);
        lemma_unbroken_concat(h2, level_text(card));
        let h4 = h3 + s;
        lemma_unbroken_concat(h3, s);
        let h5 = h4 + race_text(card.race);
        lemma_unbroken_concat(h4, race_text(card.race));
        let h6 = h5 + subtype_text(card._type);
        lemma_unbroken_concat(h5, subtype_text(card._type));
        let h7 = h6 + s;
        lemma_unbroken_concat(h6, s);
        let h8 = h7 + stat_text(card.attack);
        lemma_unbroken_concat(h7, stat_text(card.attack));
        let h9 = h8 + s;
        lemma_unbroken_concat(h8, s);
        let last = if card._type & Type::LINK == Type::LINK {
            linkmarkers_text(card.link_marker)
        } else {
            stat_text(card.defense)
        };
        lemma_unbroken_concat(h9, last);
        assert(header_text(card) == h9 + last);
    } else {
        lemma_kind_unbroken(card._type);
        lemma_unbroken_concat(lead, type_text(card._type));
    }
    lemma_unbroken_concat(header_text(card), ot_suffix(card.ot));
}

/// No line that is written for a plain card holds a line break.
pub proof fn lemma_lines_unbroken(card: CardView, names: SetNameMap, desc_lines: Seq<Seq<char>>)
    requires
        is_plain_record(card, names, desc_lines),
    ensures
        forall|i: int|
            0 <= i < card_lines(card, names, desc_lines).len() ==> !has_char(
                #[trigger] card_lines(card, names, desc_lines)[i],
                '\n',
            ),
{
    reveal_strlit("系列：");
    reveal_strlit("效果分类：");
    reveal_strlit("提示文本：");
    reveal_strlit("、");
    reveal_strlit("0x");
    let lines = card_lines(card, names, desc_lines);
    let h = seq![header_line(card)];
    let s = series_lines(card, names);
    let d = desc_lines;
    let c = category_lines(card);
    let t = texts_lines(card);
    lemma_header_unbroken(card);
    let id = card.setcode as u16;
    if s.len() > 0 {
        if card.setcode == 0 {
            lemma_no_set_text(names);
        } else {
            lemma_one_set_text(names, id);
            let shown = slot_name(names, id);
            if !names.contains_key(id) {
                lemma_hex_digits_value(id as nat);
                let digits = hex_digits(id as nat);
                assert forall|i: int| 0 <= i < digits.len() implies #[trigger] digits[i] != '\n' by {
                    assert(('0' <= digits[i] <= '9') || ('A' <= digits[i] <= 'F'));
                }
                lemma_unbroken_concat("0x"@, digits);
            }
            lemma_unbroken_concat("系列："@, shown);
        }
    }
    if c.len() > 0 {
        lemma_category_names();
        lemma_category_low(card.category);
        lemma_names_unbroken(card.category, category_table(), 0xffff_ffff, 32, '、', "、"@);
        crate::laws::flags::lemma_category_valid(card.category);
        lemma_unbroken_concat("效果分类："@, category_text(card.category));
    }
    if t.len() > 0 {
        lemma_unbroken_join(card.texts, "、"@);
        lemma_unbroken_concat("提示文本："@, join(card.texts, "、"@));
    }
    assert forall|i: int| 0 <= i < d.len() implies unbroken(#[trigger] d[i]) by {
        if d != seq![Seq::<char>::empty()] {
            assert(is_plain_line(d[i]));
        }
    }
    assert forall|i: int| 0 <= i < lines.len() implies !has_char(#[trigger] lines[i], '\n') by {
        if i < 1 {
            assert(lines[i] == header_line(card));
        } else if i < 1 + s.len() {
            assert(lines[i] == s[i - 1]);
        } else if i < 1 + s.len() + d.len() {
            assert(lines[i] == d[i - 1 - s.len()]);
            assert(unbroken(d[i - 1 - s.len()]));
        } else if i < 1 + s.len() + d.len() + c.len() {
            assert(lines[i] == c[i - 1 - s.len() - d.len()]);
        } else {
            assert(lines[i] == t[i - 1 - s.len() - d.len() - c.len()]);
        }
        assert(unbroken(lines[i]));
    }
}

/// The text of a card is its lines, joined by line breaks.
pub proof fn lemma_text_is_lines(card: CardView, names: SetNameMap, desc_lines: Seq<Seq<char>>)
    requires
        desc_lines.len() >= 1,
        card.desc == join(desc_lines, "\n"@),
    ensures
        card_text(card, names) == join(card_lines(card, names, desc_lines), "\n"@),
{
    reveal_strlit("\n");
    reveal_strlit("系列：");
    reveal_strlit("效果分类：");
    reveal_strlit("提示文本：");
    reveal_strlit("\n系列：");
    reveal_strlit("\n效果分类：");
    reveal_strlit("\n提示文本：");
    let nl = "\n"@;
    let h = seq![header_line(card)];
    let s = series_lines(card, names);
    let d = desc_lines;
    let c = category_lines(card);
    let t = texts_lines(card);
    assert("\n系列："@ =~= nl + "系列："@);
    assert("\n效果分类："@ =~= nl + "效果分类："@);
    assert("\n提示文本："@ =~= nl + "提示文本："@);
    assert(join(h, nl) == header_line(card));
    let j1 = join(h + s, nl);
    if s.len() == 0 {
        assert(h + s =~= h);
        assert(series_line(names, card.setcode) =~= Seq::<char>::empty());
        assert(j1 =~= header_line(card) + series_line(names, card.setcode));
    } else {
        lemma_join_append(h, s, nl);
        assert(join(s, nl) == s[0]);
        assert(j1 =~= header_line(card) + series_line(names, card.setcode));
    }
    lemma_join_append(h + s, d, nl);
    let j2 = join(h + s + d, nl);
    assert(j2 == j1 + nl + card.desc);
    let j3 = join(h + s + d + c, nl);
    if c.len() == 0 {
        assert(h + s + d + c =~= h + s + d);
        assert(category_line(card.category) =~= Seq::<char>::empty());
        assert(j3 =~= j2 + category_line(card.category));
    } else {
        lemma_join_append(h + s + d, c, nl);
        assert(join(c, nl) == c[0]);
        assert(j3 =~= j2 + category_line(card.category));
    }
    let j4 = join(h + s + d + c + t, nl);
    if t.len() == 0 {
        assert(h + s + d + c + t =~= h + s + d + c);
        assert(texts_line(card.texts) =~= Seq::<char>::empty());
        assert(j4 =~= j3 + texts_line(card.texts));
    } else {
        lemma_join_append(h + s + d + c, t, nl);
        assert(join(t, nl) == t[0]);
        assert(j4 =~= j3 + texts_line(card.texts));
    }
    assert(card_text(card, names) =~= j4);
}

/// Splitting the text of a plain card at its line breaks gives the lines
/// that were written for it.
pub proof fn lemma_text_splits(card: CardView, names: SetNameMap, desc_lines: Seq<Seq<char>>)
    requires
        is_plain_record(card, names, desc_lines),
    ensures
        split(card_text(card, names), "\n"@) == card_lines(card, names, desc_lines),
{
    reveal_strlit("\n");
    assert("\n"@ =~= seq!['\n']);
    lemma_text_is_lines(card, names, desc_lines);
    lemma_lines_unbroken(card, names, desc_lines);
    lemma_split_join(card_lines(card, names, desc_lines), '\n');
}

/// The header line of a plain card does not end with a carriage return.
pub proof fn lemma_header_end(card: CardView)
    requires
        is_plain_card(card),
    ensures
        without_cr(header_line(card)) == header_line(card),
{
    reveal_strlit(" (");
    reveal_strlit(")");
    reveal_strlit(" ");
    reveal_strlit("(");
    reveal_strlit(") ");
    reveal_strlit("?");
    reveal_strlit("∞");
    reveal_strlit("[");
    reveal_strlit("]");
    reveal_strlit("魔法");
    reveal_strlit("陷阱");
    let line = header_line(card);
    let head = header_text(card);
    let lead = card.name + "("@ + decimal(card.code as int) + alias_text(card.alias) + ") "@;
    assert(lead.len() > 0);
    assert(lead[lead.len() - 1] == ' ');
    if card.ot != 3 {
        let suffix = ot_suffix(card.ot);
        assert(suffix[suffix.len() - 1] == ')');
        assert(line[line.len() - 1] == suffix[suffix.len() - 1]);
    } else {
        assert(line =~= head);
        if card._type & Type::MONSTER == Type::MONSTER {
            let before = lead + attribute_text(card.attribute) + " "@ + level_text(card) + " "@
                + race_text(card.race) + subtype_text(card._type) + " "@ + stat_text(card.attack)
                + " "@;
            assert(before[before.len() - 1] == ' ');
            let last = if card._type & Type::LINK == Type::LINK {
                linkmarkers_text(card.link_marker)
            } else {
                stat_text(card.defense)
            };
            assert(head == before + last);
            if last.len() == 0 {
                assert(head =~= before);
            } else {
                assert(head[head.len() - 1] == last[last.len() - 1]);
                if card._type & Type::LINK == Type::LINK {
                    assert(last[last.len() - 1] == ']');
                } else {
                    lemma_stat_end(card.defense);
                }
            }
        } else {
            let kind = type_text(card._type);
            assert(head == lead + kind);
            if kind.len() == 0 {
                assert(head =~= lead);
            } else {
                assert(head[head.len() - 1] == kind[kind.len() - 1]);
                assert(kind[kind.len() - 1] == '法' || kind[kind.len() - 1] == '阱');
            }
        }
    }
}

/// An attack or defense value as text does not end with a carriage return.
proof fn lemma_stat_end(n: i32)
    ensures
        stat_text(n).len() > 0,
        stat_text(n)[stat_text(n).len() - 1] != '\r',
{
    reveal_strlit("?");
    reveal_strlit("∞");
    if n != -1 && n != -2 {
        if n < 0 {
            lemma_decimal_digits_value((-n) as nat);
            let d = crate::number::decimal_digits((-n) as nat);
            let s = decimal(n as int);
            assert(s[s.len() - 1] == d[d.len() - 1]);
            assert('0' <= d[d.len() - 1] <= '9');
        } else {
            lemma_decimal_digits_value(n as nat);
            let d = decimal(n as int);
            assert('0' <= d[d.len() - 1] <= '9');
        }
    }
}

} // verus!
