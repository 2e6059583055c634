//! Attributes, races and categories: reading the names that were written
//! gives the set back.

use vstd::prelude::*;
use crate::constants::{Attribute, Category, Race};
use crate::names::{
    attribute_table, category_table, decode_flags, flag_names, key_of, race_table, NameTable,
};
use crate::laws::tables::{
    lemma_attribute_names, lemma_category_names, lemma_decode_push, lemma_names_round_trip,
    lemma_race_names,
};
use crate::text::{has_char, join, lemma_split_join, lemma_trim_clean, split, trim_each};
use crate::transformers::xyyz::{
    attribute_of_text, attribute_text, category_of_text, category_text, race_of_text, race_text,
};

verus! {

/// A text without the separator is the one name of its list, and reads as
/// the key of that name.
pub proof fn lemma_decode_single(name: Seq<char>, table: NameTable, mask: u64, c: char)
    requires
        !has_char(name, c),
    ensures
        split(name, seq![c]) == seq![name],
        decode_flags(seq![name], table, mask) == match key_of(table, name) {
            Some(key) => 0u64 | (key & mask),
            None => 0u64,
        },
{
    lemma_split_join(seq![name], c);
    assert(join(seq![name], seq![c]) == name);
    lemma_decode_push(Seq::<Seq<char>>::empty(), name, table, mask);
    assert(Seq::<Seq<char>>::empty().push(name) =~= seq![name]);
}

/// A set of 32 bits within a mask of at most 32 bits, as a set of 64 bits.
pub proof fn lemma_widen(bits: u32, mask: u32, wide: u64)
    by (bit_vector)
    requires
        bits & !mask == 0,
        wide == bits as u64,
    ensures
        (bits & mask) as u64 == wide,
        wide & !(mask as u64) == 0,
        wide & (((1u64 << 32u64) - 1) as u64) == wide,
        (bits != 0) == (wide != 0),
        wide as u32 == bits,
        0u64 | (0u64 & (mask as u64)) == 0u64,
{
}

/// The low bits of a set within a mask.
pub proof fn lemma_low_bits(wide: u64, mask: u64, n: u64)
    by (bit_vector)
    requires
        wide & !mask == 0,
        n < 63,
        mask & !(((1u64 << n) - 1) as u64) == 0,
    ensures
        wide & (((1u64 << n) - 1) as u64) == wide,
{
}

/// The masks of the flag sets lie within their lowest places.
pub proof fn lemma_masks()
    by (bit_vector)
    ensures
        0x7fu64 & !(((1u64 << 7u64) - 1) as u64) == 0,
        0x1ff7fffu64 & !(((1u64 << 25u64) - 1) as u64) == 0,
        0xffff_ffffu64 & !(((1u64 << 32u64) - 1) as u64) == 0,
        0x1efu64 & !(((1u64 << 9u64) - 1) as u64) == 0,
        0x7fu32 as u64 == 0x7fu64,
        0x1ff_ffffu32 as u64 == 0x1ff_ffffu64,
{
}

/// Reading the attributes that were written gives the set back, where the
/// set holds attributes only.
pub proof fn lemma_attribute_round_trip(bits: u32)
    requires
        bits & !Attribute::ALL == 0,
    ensures
        attribute_of_text(attribute_text(bits)) == bits,
{
    reveal_strlit("/");
    reveal_strlit("无");
    assert("/"@ =~= seq!['/']);
    let wide = bits as u64;
    lemma_widen(bits, 0x7f, wide);
    lemma_masks();
    lemma_low_bits(wide, 0x7f, 7);
    if bits == 0 {
        lemma_decode_single("无"@, attribute_table(), 0x7f, '/');
        assert(attribute_table()[0] == (0x0u64, "无"@));
        assert(key_of(attribute_table(), "无"@) == Some(0u64));
    } else {
        lemma_attribute_names();
        lemma_names_round_trip(wide, attribute_table(), attribute_table(), 0x7f, 7, '/');
    }
}

/// A set of races without the second race named `兽战士`, as 64 bits.
pub proof fn lemma_widen_race(bits: u32, wide: u64)
    by (bit_vector)
    requires
        bits & !0x1ff_ffffu32 == 0,
        bits & 0x8000u32 == 0,
        wide == bits as u64,
    ensures
        (bits & 0x1ff_ffffu32) as u64 == wide,
        wide & !0x1ff7fffu64 == 0,
        (bits != 0) == (wide != 0),
        wide as u32 == bits,
        0u64 | (0u64 & 0x1ff_ffffu64) == 0u64,
{
}

/// The keys of a list of names do not change with bits of the mask that no
/// key of the list has.
pub proof fn lemma_decode_mask(
    tokens: Seq<Seq<char>>,
    table: NameTable,
    narrow: u64,
    wide: u64,
)
    requires
        forall|i: int|
            0 <= i < tokens.len() ==> match key_of(table, #[trigger] tokens[i]) {
                Some(key) => key & narrow == key & wide,
                None => true,
            },
    ensures
        decode_flags(tokens, table, narrow) == decode_flags(tokens, table, wide),
    decreases tokens.len(),
{
    if tokens.len() > 0 {
        let init = tokens.drop_last();
        assert forall|i: int| 0 <= i < init.len() implies match key_of(
            table,
            #[trigger] init[i],
        ) {
            Some(key) => key & narrow == key & wide,
            None => true,
        } by {
            assert(init[i] == tokens[i]);
        }
        lemma_decode_mask(init, table, narrow, wide);
        assert(tokens.last() == tokens[tokens.len() - 1]);
    }
}

/// Reading the races that were written gives the set back, where the set
/// holds races only and not the second race named `兽战士`, whose name reads
/// as the first.
pub proof fn lemma_race_round_trip(bits: u32)
    requires
        bits & !Race::ALL == 0,
        bits & Race::BEASTWARRIOR == 0,
    ensures
        race_of_text(race_text(bits)) == bits,
{
    reveal_strlit("/");
    reveal_strlit("无种族");
    assert("/"@ =~= seq!['/']);
    let wide = bits as u64;
    lemma_widen_race(bits, wide);
    lemma_masks();
    lemma_low_bits(wide, 0x1ff7fff, 25);
    if bits == 0 {
        lemma_decode_single("无种族"@, race_table(), 0x1ff_ffff, '/');
        assert(race_table()[0] == (0x0u64, "无种族"@));
        assert(key_of(race_table(), "无种族"@) == Some(0u64));
    } else {
        lemma_race_names();
        lemma_names_round_trip(wide, race_table(), race_table(), 0x1ff7fff, 25, '/');
        let names = flag_names(wide, race_table(), 25);
        lemma_race_keys(wide);
        lemma_decode_mask(names, race_table(), 0x1ff7fff, 0x1ff_ffff);
    }
}

/// The names of the races of a set without the second `兽战士` have keys
/// other than that race.
proof fn lemma_race_keys(wide: u64)
    requires
        wide & !0x1ff7fffu64 == 0,
    ensures
        forall|i: int|
            0 <= i < flag_names(wide, race_table(), 25).len() ==> match key_of(
                race_table(),
                #[trigger] flag_names(wide, race_table(), 25)[i],
            ) {
                Some(key) => key & 0x1ff7fffu64 == key & 0x1ff_ffffu64,
                None => true,
            },
{
    lemma_race_names();
    lemma_flag_keys(wide, race_table(), 0x1ff7fff, 25);
    let names = flag_names(wide, race_table(), 25);
    assert forall|i: int| 0 <= i < names.len() implies match key_of(
        race_table(),
        #[trigger] names[i],
    ) {
        Some(key) => key & 0x1ff7fffu64 == key & 0x1ff_ffffu64,
        None => true,
    } by {
        let key = key_of(race_table(), names[i])->0;
        assert(key & 0x1ff7fffu64 == key ==> key & 0x1ff7fffu64 == key & 0x1ff_ffffu64)
            by (bit_vector);
    }
}

/// The name of each flag of a set reads as a key within the mask.
pub proof fn lemma_flag_keys(bits: u64, table: NameTable, mask: u64, n: nat)
    requires
        n <= 63,
        bits & !mask == 0,
        crate::laws::tables::names_lead_back(table, table, mask, n),
    ensures
        forall|i: int|
            0 <= i < flag_names(bits, table, n).len() ==> {
                &&& key_of(table, #[trigger] flag_names(bits, table, n)[i]) is Some
                &&& key_of(table, flag_names(bits, table, n)[i])->0 & mask == key_of(
                    table,
                    flag_names(bits, table, n)[i],
                )->0
            },
    decreases n,
{
    if n > 0 {
        let k = (n - 1) as u64;
        let flag = 1u64 << k;
        let low = flag_names(bits, table, (n - 1) as nat);
        let names = flag_names(bits, table, n);
        assert(crate::laws::tables::names_lead_back(table, table, mask, (n - 1) as nat));
        lemma_flag_keys(bits, table, mask, (n - 1) as nat);
        if bits & flag != 0 {
            assert(mask & flag != 0 && flag & mask == flag) by (bit_vector)
                requires
                    bits & !mask == 0,
                    bits & flag != 0,
                    flag == 1u64 << k,
                    k < 63,
            ;
            let name = crate::names::name_of(table, flag)->0;
            assert(names == low.push(name));
            assert forall|i: int| 0 <= i < names.len() implies {
                &&& key_of(table, #[trigger] names[i]) is Some
                &&& key_of(table, names[i])->0 & mask == key_of(table, names[i])->0
            } by {
                if i < low.len() {
                    assert(names[i] == low[i]);
                }
            }
        } else {
            assert(names == low);
        }
    }
}

/// Reading the categories that were written gives the set back, where the
/// set holds categories only.
pub proof fn lemma_category_round_trip(bits: u64)
    requires
        bits & !Category::ALL == 0,
    ensures
        category_of_text(category_text(bits)) == bits,
{
    reveal_strlit("、");
    assert("、"@ =~= seq!['、']);
    lemma_masks();
    lemma_low_bits(bits, 0xffff_ffff, 32);
    lemma_category_valid(bits);
    if bits == 0 {
        crate::laws::rule_sets::lemma_no_flags(category_table(), 32);
        assert(join(Seq::<Seq<char>>::empty(), "、"@) =~= Seq::<char>::empty());
        let e = Seq::<char>::empty();
        lemma_decode_single(e, category_table(), 0xffff_ffff, '、');
        lemma_trim_clean(e);
        assert(trim_each(seq![e]) =~= seq![e]);
        lemma_no_empty_category();
    } else {
        lemma_category_names();
        lemma_names_round_trip(bits, category_table(), category_table(), 0xffff_ffff, 32, '、');
    }
}

/// No category has the empty name.
proof fn lemma_no_empty_category()
    ensures
        key_of(category_table(), Seq::<char>::empty()) is None,
{
    reveal_strlit("魔陷破坏");
    reveal_strlit("怪兽破坏");
    reveal_strlit("卡片除外");
    reveal_strlit("送去墓地");
    reveal_strlit("返回手卡");
    reveal_strlit("返回卡组");
    reveal_strlit("手卡破坏");
    reveal_strlit("卡组破坏");
    reveal_strlit("抽卡辅助");
    reveal_strlit("卡组检索");
    reveal_strlit("卡片回收");
    reveal_strlit("表示形式");
    reveal_strlit("控制权");
    reveal_strlit("攻守变化");
    reveal_strlit("穿刺伤害");
    reveal_strlit("多次攻击");
    reveal_strlit("攻击限制");
    reveal_strlit("直接攻击");
    reveal_strlit("特殊召唤");
    reveal_strlit("衍生物");
    reveal_strlit("种族相关");
    reveal_strlit("属性相关");
    reveal_strlit("LP伤害");
    reveal_strlit("LP回复");
    reveal_strlit("破坏耐性");
    reveal_strlit("效果耐性");
    reveal_strlit("指示物");
    reveal_strlit("幸运");
    reveal_strlit("融合相关");
    reveal_strlit("同调相关");
    reveal_strlit("超量相关");
    reveal_strlit("效果无效");
    reveal_with_fuel(crate::names::key_from, 33);
    let t = category_table();
    assert forall|k: int| 0 <= k < t.len() implies (#[trigger] t[k]).1.len() > 0 by {}
}

/// A set of categories lies within the lowest 32 places.
pub proof fn lemma_category_low(bits: u64)
    requires
        bits & !Category::ALL == 0,
    ensures
        bits & crate::laws::tables::low_bits(32) == bits,
{
    lemma_masks();
    lemma_low_bits(bits, 0xffff_ffff, 32);
}

/// A set of categories of the list is its own part within the list.
pub proof fn lemma_category_valid(bits: u64)
    by (bit_vector)
    requires
        bits & !0xffff_ffffu64 == 0,
    ensures
        bits & 0xffff_ffffu64 == bits,
{
}

} // verus!
