//! The lines that follow the header of a card: reading a line that was
//! written gives the field back.

use vstd::prelude::*;
use crate::card::CardView;
use crate::constants::Category;
use crate::laws::flags::{lemma_category_round_trip, lemma_flag_keys};
use crate::names::{category_table, flag_names, key_from, key_of};
use crate::laws::tables::{lemma_category_names, lemma_names_round_trip};
use crate::setnames::SetNameMap;
use crate::text::{
    has_char, join, lemma_split_join, matches_at, prefix_run, starts_with, trim_start_matches,
};
use crate::transformers::xyyz::{
    category_line, category_text, continued_card, desc_with, texts_line, with_scales,
};

verus! {

/// A line that is a label and a value that does not begin with the label:
/// the line begins with the label, and without the label, as often as it
/// stands there, it is the value.
pub proof fn lemma_label_line(label: Seq<char>, value: Seq<char>)
    requires
        label.len() > 0,
        !starts_with(value, label),
    ensures
        starts_with(label + value, label),
        trim_start_matches(label + value, label) == value,
{
    let line = label + value;
    let n = label.len() as int;
    assert(line.subrange(0, n) =~= label);
    if n + n <= line.len() {
        assert(line.subrange(n, n + n) =~= value.subrange(0, n));
    }
    assert(!matches_at(line, label, n));
    assert(prefix_run(line, label, n) == n);
    assert(prefix_run(line, label, 0) == n);
    assert(line.subrange(n, line.len() as int) =~= value);
}

/// A line that begins with another first character than a label does not
/// begin with the label.
pub proof fn lemma_other_label(line: Seq<char>, label: Seq<char>)
    requires
        label.len() > 0,
        line.len() == 0 || line[0] != label[0],
    ensures
        !starts_with(line, label),
{
    if label.len() <= line.len() {
        assert(line.subrange(0, label.len() as int)[0] == line[0]);
    }
}

/// Reading the line of hint texts that was written gives the texts back:
/// where there is a text, no text holds the separator `、`, and the first
/// does not begin with the label of the line.
pub proof fn lemma_texts_round_trip(
    card: CardView,
    texts: Seq<Seq<char>>,
    scales: Option<Seq<Option<Seq<char>>>>,
    names: SetNameMap,
)
    requires
        texts.len() >= 1,
        forall|i: int| 0 <= i < texts.len() ==> !has_char(#[trigger] texts[i], '、'),
        !starts_with(join(texts, "、"@), "提示文本："@),
    ensures
        texts_line(texts) == "\n提示文本："@ + join(texts, "、"@),
        continued_card(card, "提示文本："@ + join(texts, "、"@), scales, names) == (CardView {
            texts: texts,
            ..with_scales(card, scales)
        }),
{
    reveal_strlit("系列字段：");
    reveal_strlit("系列：");
    reveal_strlit("效果分类：");
    reveal_strlit("提示文本：");
    reveal_strlit("、");
    assert("、"@ =~= seq!['、']);
    let label = "提示文本："@;
    let value = join(texts, "、"@);
    let line = label + value;
    assert(line[0] == label[0]);
    lemma_other_label(line, "系列字段："@);
    lemma_other_label(line, "系列："@);
    lemma_other_label(line, "效果分类："@);
    lemma_label_line(label, value);
    lemma_split_join(texts, '、');
}

/// Whether a line begins with one of the labels of the lines that follow a
/// header.
pub open spec fn is_labelled(line: Seq<char>) -> bool {
    starts_with(line, "系列字段："@) || starts_with(line, "系列："@) || starts_with(
        line,
        "效果分类："@,
    ) || starts_with(line, "提示文本："@)
}

/// Reading a line of the description that was written adds it to the
/// description: where the line begins with no label.
pub proof fn lemma_desc_round_trip(
    card: CardView,
    line: Seq<char>,
    scales: Option<Seq<Option<Seq<char>>>>,
    names: SetNameMap,
)
    requires
        !is_labelled(line),
    ensures
        continued_card(card, line, scales, names) == (CardView {
            desc: desc_with(with_scales(card, scales).desc, line),
            ..with_scales(card, scales)
        }),
{
}

/// What was joined begins with its first part.
pub proof fn lemma_join_head(parts: Seq<Seq<char>>, sep: Seq<char>)
    requires
        parts.len() >= 1,
    ensures
        join(parts, sep).len() >= parts[0].len(),
        forall|i: int| 0 <= i < parts[0].len() ==> #[trigger] join(parts, sep)[i] == parts[0][i],
    decreases parts.len(),
{
    if parts.len() > 1 {
        let init = parts.drop_last();
        lemma_join_head(init, sep);
        assert(init[0] == parts[0]);
        let a = join(init, sep);
        let s = join(parts, sep);
        assert(s == a + sep + parts.last());
        assert forall|i: int| 0 <= i < parts[0].len() implies #[trigger] s[i] == parts[0][i] by {
            assert(s[i] == a[i]);
        }
    }
}

/// No name of a category begins like the label of the category line.
proof fn lemma_category_heads(name: Seq<char>)
    requires
        key_of(category_table(), name) is Some,
    ensures
        name.len() >= 2,
        name[0] == '效' ==> name.len() >= 3 && name[2] != '分',
{
    reveal_strlit("魔陷破坏");
    reveal_strlit("怪兽破坏");
    reveal_strlit("卡片除外");
    reveal_strlit("送去墓地");
    reveal_strlit("返回手卡");
    reveal_strlit("返回卡组");
    reveal_strlit("手卡破坏");
    reveal_strlit("卡组破坏");
    reveal_strlit("抽卡辅助");
    reveal_strlit("卡组检索");
    reveal_strlit("卡片回收");
    reveal_strlit("表示形式");
    reveal_strlit("控制权");
    reveal_strlit("攻守变化");
    reveal_strlit("穿刺伤害");
    reveal_strlit("多次攻击");
    reveal_strlit("攻击限制");
    reveal_strlit("直接攻击");
    reveal_strlit("特殊召唤");
    reveal_strlit("衍生物");
    reveal_strlit("种族相关");
    reveal_strlit("属性相关");
    reveal_strlit("LP伤害");
    reveal_strlit("LP回复");
    reveal_strlit("破坏耐性");
    reveal_strlit("效果耐性");
    reveal_strlit("指示物");
    reveal_strlit("幸运");
    reveal_strlit("融合相关");
    reveal_strlit("同调相关");
    reveal_strlit("超量相关");
    reveal_strlit("效果无效");
    reveal_with_fuel(key_from, 33);
}

/// The names of a set of categories, joined, do not begin with the label of
/// the category line.
proof fn lemma_category_text_head(bits: u64)
    requires
        bits & !Category::ALL == 0,
    ensures
        !starts_with(category_text(bits), "效果分类："@),
{
    reveal_strlit("效果分类：");
    reveal_strlit("、");
    let label = "效果分类："@;
    let text = category_text(bits);
    crate::laws::flags::lemma_category_valid(bits);
    let names = flag_names(bits, category_table(), 32);
    if names.len() == 0 {
        assert(text.len() == 0);
    } else {
        lemma_category_names();
        lemma_flag_keys(bits, category_table(), 0xffff_ffff, 32);
        assert(key_of(category_table(), names[0]) is Some);
        lemma_category_heads(names[0]);
        lemma_join_head(names, "、"@);
        if starts_with(text, label) {
            assert(text.subrange(0, 5)[0] == text[0]);
            assert(text.subrange(0, 5)[2] == text[2]);
            assert(text[0] == names[0][0]);
            assert(text[2] == names[0][2]);
        }
    }
}

/// Reading the category line that was written gives the categories back,
/// where the set holds categories only and is not empty.
pub proof fn lemma_category_line_round_trip(
    card: CardView,
    bits: u64,
    scales: Option<Seq<Option<Seq<char>>>>,
    names: SetNameMap,
)
    requires
        bits != 0,
        bits & !Category::ALL == 0,
    ensures
        category_line(bits) == "\n效果分类："@ + category_text(bits),
        continued_card(card, "效果分类："@ + category_text(bits), scales, names) == (CardView {
            category: bits,
            ..with_scales(card, scales)
        }),
{
    reveal_strlit("系列字段：");
    reveal_strlit("系列：");
    reveal_strlit("效果分类：");
    let label = "效果分类："@;
    let value = category_text(bits);
    let line = label + value;
    assert(line[0] == label[0]);
    lemma_other_label(line, "系列字段："@);
    lemma_other_label(line, "系列："@);
    lemma_category_text_head(bits);
    lemma_label_line(label, value);
    lemma_category_round_trip(bits);
}

/// What was joined ends with its last part, where that part is not empty.
pub proof fn lemma_join_last(parts: Seq<Seq<char>>, sep: Seq<char>)
    requires
        parts.len() >= 1,
        parts[parts.len() - 1].len() > 0,
    ensures
        join(parts, sep).len() > 0,
        join(parts, sep)[join(parts, sep).len() - 1] == parts[parts.len() - 1][parts[parts.len()
            - 1].len() - 1],
{
    if parts.len() > 1 {
        let a = join(parts.drop_last(), sep) + sep;
        assert(join(parts, sep) == a + parts.last());
    }
}

/// The names of a set of categories that is not empty, joined, do not end
/// with a carriage return.
pub proof fn lemma_category_line_end(bits: u64)
    requires
        bits != 0,
        bits & !Category::ALL == 0,
    ensures
        category_text(bits).len() > 0,
        category_text(bits)[category_text(bits).len() - 1] != '\r',
{
    reveal_strlit("、");
    crate::laws::flags::lemma_category_valid(bits);
    lemma_category_names();
    crate::laws::flags::lemma_category_low(bits);
    lemma_names_round_trip(bits, category_table(), category_table(), 0xffff_ffff, 32, '、');
    crate::laws::tables::lemma_flag_names_clean(
        bits,
        category_table(),
        category_table(),
        0xffff_ffff,
        32,
        '、',
    );
    let names = flag_names(bits, category_table(), 32);
    let last = names[names.len() - 1];
    assert(crate::laws::tables::name_clean(last, '、'));
    lemma_join_last(names, "、"@);
}

} // verus!
