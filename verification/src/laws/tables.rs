//! The name tables as codes: each flag has a name that leads back to it,
//! so that reading the names of a set gives the set back.

use vstd::prelude::*;
use crate::names::{
    attribute_table, category_table, decode_flags, flag_names, key_from, key_of, linkmarker_table,
    name_from, name_of, noneffect_table, ot_table, race_table, type_table, NameTable,
};
use crate::text::{has_char, is_space, join, lemma_split_join, lemma_trim_clean, split, trim_each};

verus! {

/// The lowest `n` bits, all set.
pub open spec fn low_bits(n: nat) -> u64 {
    ((1u64 << (n as u64)) - 1) as u64
}

/// Whether each flag of `mask` among the lowest `n` bit positions has a name
/// in the table, and the table `reader` leads from the name back to the flag.
pub open spec fn names_lead_back(table: NameTable, reader: NameTable, mask: u64, n: nat) -> bool {
    forall|i: u64|
        i < n && mask & (#[trigger] (1u64 << i)) != 0 ==> {
            &&& name_of(table, 1u64 << i) is Some
            &&& key_of(reader, name_of(table, 1u64 << i)->0) == Some(1u64 << i)
        }
}

/// Whether a name can stand in a list with the separator `c`: it is not
/// empty and holds neither `c` nor white space.
pub open spec fn name_clean(name: Seq<char>, c: char) -> bool {
    &&& name.len() > 0
    &&& forall|i: int| 0 <= i < name.len() ==> #[trigger] name[i] != c && !is_space(name[i])
}

/// Whether every name that the table gives to a flag of `mask` among the
/// lowest `n` bit positions can stand in a list with the separator `c`.
pub open spec fn names_clean(table: NameTable, mask: u64, n: nat, c: char) -> bool {
    forall|i: u64|
        i < n && mask & (#[trigger] (1u64 << i)) != 0 && name_of(table, 1u64 << i) is Some
            ==> name_clean(name_of(table, 1u64 << i)->0, c)
}

/// What tells two names apart at a glance: the length and the first three
/// characters.
pub open spec fn mark(s: Seq<char>) -> (nat, char, char, char) {
    (
        s.len(),
        if s.len() > 0 {
            s[0]
        } else {
            ' '
        },
        if s.len() > 1 {
            s[1]
        } else {
            ' '
        },
        if s.len() > 2 {
            s[2]
        } else {
            ' '
        },
    )
}

/// The single flags, by their place.
pub proof fn lemma_flag_values()
    by (bit_vector)
    ensures
        1u64 << 0u64 == 0x1,
        1u64 << 1u64 == 0x2,
        1u64 << 2u64 == 0x4,
        1u64 << 3u64 == 0x8,
        1u64 << 4u64 == 0x10,
        1u64 << 5u64 == 0x20,
        1u64 << 6u64 == 0x40,
        1u64 << 7u64 == 0x80,
        1u64 << 8u64 == 0x100,
        1u64 << 9u64 == 0x200,
        1u64 << 10u64 == 0x400,
        1u64 << 11u64 == 0x800,
        1u64 << 12u64 == 0x1000,
        1u64 << 13u64 == 0x2000,
        1u64 << 14u64 == 0x4000,
        1u64 << 15u64 == 0x8000,
        1u64 << 16u64 == 0x1_0000,
        1u64 << 17u64 == 0x2_0000,
        1u64 << 18u64 == 0x4_0000,
        1u64 << 19u64 == 0x8_0000,
        1u64 << 20u64 == 0x10_0000,
        1u64 << 21u64 == 0x20_0000,
        1u64 << 22u64 == 0x40_0000,
        1u64 << 23u64 == 0x80_0000,
        1u64 << 24u64 == 0x100_0000,
        1u64 << 25u64 == 0x200_0000,
        1u64 << 26u64 == 0x400_0000,
        1u64 << 27u64 == 0x800_0000,
        1u64 << 28u64 == 0x1000_0000,
        1u64 << 29u64 == 0x2000_0000,
        1u64 << 30u64 == 0x4000_0000,
        1u64 << 31u64 == 0x8000_0000,
        1u64 << 32u64 == 0x1_0000_0000,
{
}

/// The keys of a list of names with one more name.
pub proof fn lemma_decode_push(tokens: Seq<Seq<char>>, name: Seq<char>, table: NameTable, mask: u64)
    ensures
        decode_flags(tokens.push(name), table, mask) == match key_of(table, name) {
            Some(key) => decode_flags(tokens, table, mask) | (key & mask),
            None => decode_flags(tokens, table, mask),
        },
{
    assert(tokens.push(name).drop_last() =~= tokens);
}

/// Reading the names of the flags of a set gives the flags back, as far as
/// the place `n`: where the set holds flags of `mask` only, and each of them
/// has a name that leads back to it.
pub proof fn lemma_decode_names(
    bits: u64,
    table: NameTable,
    reader: NameTable,
    mask: u64,
    n: nat,
)
    requires
        n <= 63,
        bits & !mask == 0,
        names_lead_back(table, reader, mask, n),
    ensures
        decode_flags(flag_names(bits, table, n), reader, mask) == bits & low_bits(n),
    decreases n,
{
    if n == 0 {
        assert(bits & (((1u64 << 0u64) - 1) as u64) == 0) by (bit_vector);
    } else {
        let k = (n - 1) as u64;
        let flag = 1u64 << k;
        let low = flag_names(bits, table, (n - 1) as nat);
        assert(names_lead_back(table, reader, mask, (n - 1) as nat));
        lemma_decode_names(bits, table, reader, mask, (n - 1) as nat);
        let m = (k + 1) as u64;
        assert(n as u64 == m);
        if bits & flag != 0 {
            assert(mask & flag != 0 && flag & mask == flag) by (bit_vector)
                requires
                    bits & !mask == 0,
                    bits & flag != 0,
                    flag == 1u64 << k,
                    k < 63,
            ;
            let name = name_of(table, flag)->0;
            lemma_decode_push(low, name, reader, mask);
            assert((bits & (((1u64 << k) - 1) as u64)) | flag == bits & (((1u64 << m) - 1) as u64))
                by (bit_vector)
                requires
                    bits & flag != 0,
                    flag == 1u64 << k,
                    m == k + 1,
                    k < 63,
            ;
        } else {
            assert(bits & (((1u64 << k) - 1) as u64) == bits & (((1u64 << m) - 1) as u64))
                by (bit_vector)
                requires
                    bits & flag == 0,
                    flag == 1u64 << k,
                    m == k + 1,
                    k < 63,
            ;
        }
    }
}

/// The names of the flags of a set can all stand in a list, where the names
/// of the table can; and there is a name where there is a flag.
pub proof fn lemma_flag_names_clean(
    bits: u64,
    table: NameTable,
    reader: NameTable,
    mask: u64,
    n: nat,
    c: char,
)
    requires
        n <= 63,
        bits & !mask == 0,
        names_lead_back(table, reader, mask, n),
        names_clean(table, mask, n, c),
    ensures
        forall|i: int|
            0 <= i < flag_names(bits, table, n).len() ==> name_clean(
                #[trigger] flag_names(bits, table, n)[i],
                c,
            ),
        bits & low_bits(n) != 0 ==> flag_names(bits, table, n).len() >= 1,
    decreases n,
{
    if n == 0 {
        assert(bits & (((1u64 << 0u64) - 1) as u64) == 0) by (bit_vector);
    } else {
        let k = (n - 1) as u64;
        let flag = 1u64 << k;
        assert(names_lead_back(table, reader, mask, (n - 1) as nat));
        assert(names_clean(table, mask, (n - 1) as nat, c));
        lemma_flag_names_clean(bits, table, reader, mask, (n - 1) as nat, c);
        let m = (k + 1) as u64;
        assert(n as u64 == m);
        let low = flag_names(bits, table, (n - 1) as nat);
        let names = flag_names(bits, table, n);
        if bits & flag != 0 {
            assert(mask & flag != 0) by (bit_vector)
                requires
                    bits & !mask == 0,
                    bits & flag != 0,
            ;
            let name = name_of(table, flag)->0;
            assert(name_clean(name, c));
            assert(names == low.push(name));
            assert forall|i: int| 0 <= i < names.len() implies name_clean(
                #[trigger] names[i],
                c,
            ) by {
                if i < low.len() {
                    assert(names[i] == low[i]);
                }
            }
        } else {
            assert(names == low);
            assert(bits & (((1u64 << k) - 1) as u64) == bits & (((1u64 << m) - 1) as u64))
                by (bit_vector)
                requires
                    bits & flag == 0,
                    flag == 1u64 << k,
                    m == k + 1,
                    k < 63,
            ;
        }
    }
}

/// A list of names that can stand in a list is its own trimmed form.
pub proof fn lemma_trim_each_clean(names: Seq<Seq<char>>, c: char)
    requires
        forall|i: int| 0 <= i < names.len() ==> name_clean(#[trigger] names[i], c),
    ensures
        trim_each(names) == names,
{
    assert forall|i: int| 0 <= i < names.len() implies trim_each(names)[i] == names[i] by {
        assert(name_clean(names[i], c));
        lemma_trim_clean(names[i]);
    }
    assert(trim_each(names) =~= names);
}

/// Writing the names of the flags of a set, joined by a separator, and
/// reading the list again gives the set back: where the set is not empty and
/// holds flags of `mask` below the place `n` only, each flag has a name that
/// leads back to it, and the names can stand in a list.
pub proof fn lemma_names_round_trip(
    bits: u64,
    table: NameTable,
    reader: NameTable,
    mask: u64,
    n: nat,
    c: char,
)
    requires
        n <= 63,
        bits != 0,
        bits & !mask == 0,
        bits & low_bits(n) == bits,
        names_lead_back(table, reader, mask, n),
        names_clean(table, mask, n, c),
    ensures
        flag_names(bits, table, n).len() >= 1,
        split(join(flag_names(bits, table, n), seq![c]), seq![c]) == flag_names(bits, table, n),
        trim_each(flag_names(bits, table, n)) == flag_names(bits, table, n),
        decode_flags(flag_names(bits, table, n), reader, mask) == bits,
{
    let names = flag_names(bits, table, n);
    lemma_flag_names_clean(bits, table, reader, mask, n, c);
    lemma_decode_names(bits, table, reader, mask, n);
    assert forall|i: int| 0 <= i < names.len() implies !has_char(#[trigger] names[i], c) by {
        assert(name_clean(names[i], c));
    }
    lemma_split_join(names, c);
    lemma_trim_each_clean(names, c);
}

/// The names of the rule sets lead back to their flags and can stand in a
/// list joined by `&`.
pub proof fn lemma_ot_names()
    ensures
        names_lead_back(ot_table(), ot_table(), 0x40f, 11),
        names_clean(ot_table(), 0x40f, 11, '&'),
{
    lemma_flag_values();
    reveal_strlit("OCG");
    reveal_strlit("TCG");
    reveal_strlit("OT");
    reveal_strlit("Custom");
    reveal_strlit("SC");
    reveal_strlit("SCONLY");
    reveal_strlit("Draft");
    reveal_with_fuel(name_from, 8);
    reveal_with_fuel(key_from, 8);
    assert(mark("OCG"@) == (3nat, 'O', 'C', 'G'));
    assert(mark("TCG"@) == (3nat, 'T', 'C', 'G'));
    assert(mark("OT"@) == (2nat, 'O', 'T', ' '));
    assert(mark("Custom"@) == (6nat, 'C', 'u', 's'));
    assert(mark("SC"@) == (2nat, 'S', 'C', ' '));
    assert(mark("SCONLY"@) == (6nat, 'S', 'C', 'O'));
    assert(mark("Draft"@) == (5nat, 'D', 'r', 'a'));
    assert(0x40fu64 & 0x10 == 0 && 0x40fu64 & 0x20 == 0 && 0x40fu64 & 0x40 == 0 && 0x40fu64 & 0x80
        == 0 && 0x40fu64 & 0x100 == 0 && 0x40fu64 & 0x200 == 0) by (bit_vector);
    let t = ot_table();
    assert forall|i: u64| i < 11 && 0x40fu64 & (#[trigger] (1u64 << i)) != 0 implies {
        &&& name_of(t, 1u64 << i) is Some
        &&& key_of(t, name_of(t, 1u64 << i)->0) == Some(1u64 << i)
        &&& name_clean(name_of(t, 1u64 << i)->0, '&')
    } by {
        if i == 0 {
            assert(1u64 << i == 0x1);
            assert(name_of(t, 0x1) == Some("OCG"@));
            assert(key_of(t, "OCG"@) == Some(0x1u64));
            assert(name_clean("OCG"@, '&'));
        } else if i == 1 {
            assert(1u64 << i == 0x2);
            assert(name_of(t, 0x2) == Some("TCG"@));
            assert(key_of(t, "TCG"@) == Some(0x2u64));
            assert(name_clean("TCG"@, '&'));
        } else if i == 2 {
            assert(1u64 << i == 0x4);
            assert(name_of(t, 0x4) == Some("Custom"@));
            assert(key_of(t, "Custom"@) == Some(0x4u64));
            assert(name_clean("Custom"@, '&'));
        } else if i == 3 {
            assert(1u64 << i == 0x8);
            assert(name_of(t, 0x8) == Some("SCONLY"@));
            assert(key_of(t, "SCONLY"@) == Some(0x8u64));
            assert(name_clean("SCONLY"@, '&'));
        } else if i == 10 {
            assert(1u64 << i == 0x400);
            assert(name_of(t, 0x400) == Some("Draft"@));
            assert(key_of(t, "Draft"@) == Some(0x400u64));
            assert(name_clean("Draft"@, '&'));
        } else if i == 4 {
            assert(1u64 << i == 0x10);
        } else if i == 5 {
            assert(1u64 << i == 0x20);
        } else if i == 6 {
            assert(1u64 << i == 0x40);
        } else if i == 7 {
            assert(1u64 << i == 0x80);
        } else if i == 8 {
            assert(1u64 << i == 0x100);
        } else if i == 9 {
            assert(1u64 << i == 0x200);
        }
    }
}

/// The names of the kinds lead back to their flags, also where `非效果` is read
/// as well, and can stand in a list joined by `/`.
pub proof fn lemma_type_names()
    ensures
        names_lead_back(type_table(), noneffect_table() + type_table(), 0x7ff7ff7, 27),
        names_clean(type_table(), 0x7ff7ff7, 27, '/'),
{
    lemma_flag_values();
    reveal_strlit("怪兽");
    reveal_strlit("魔法");
    reveal_strlit("陷阱");
    reveal_strlit("通常");
    reveal_strlit("效果");
    reveal_strlit("融合");
    reveal_strlit("仪式");
    reveal_strlit("陷阱怪兽");
    reveal_strlit("灵魂");
    reveal_strlit("同盟");
    reveal_strlit("二重");
    reveal_strlit("调整");
    reveal_strlit("同调");
    reveal_strlit("衍生物");
    reveal_strlit("速攻");
    reveal_strlit("永续");
    reveal_strlit("装备");
    reveal_strlit("场地");
    reveal_strlit("反击");
    reveal_strlit("反转");
    reveal_strlit("卡通");
    reveal_strlit("超量");
    reveal_strlit("灵摆");
    reveal_strlit("特殊召唤");
    reveal_strlit("连接");
    reveal_strlit("非效果");
    reveal_with_fuel(name_from, 26);
    reveal_with_fuel(key_from, 27);
    assert(mark("怪兽"@) == (2nat, '怪', '兽', ' '));
    assert(mark("魔法"@) == (2nat, '魔', '法', ' '));
    assert(mark("陷阱"@) == (2nat, '陷', '阱', ' '));
    assert(mark("通常"@) == (2nat, '通', '常', ' '));
    assert(mark("效果"@) == (2nat, '效', '果', ' '));
    assert(mark("融合"@) == (2nat, '融', '合', ' '));
    assert(mark("仪式"@) == (2nat, '仪', '式', ' '));
    assert(mark("陷阱怪兽"@) == (4nat, '陷', '阱', '怪'));
    assert(mark("灵魂"@) == (2nat, '灵', '魂', ' '));
    assert(mark("同盟"@) == (2nat, '同', '盟', ' '));
    assert(mark("二重"@) == (2nat, '二', '重', ' '));
    assert(mark("调整"@) == (2nat, '调', '整', ' '));
    assert(mark("同调"@) == (2nat, '同', '调', ' '));
    assert(mark("衍生物"@) == (3nat, '衍', '生', '物'));
    assert(mark("速攻"@) == (2nat, '速', '攻', ' '));
    assert(mark("永续"@) == (2nat, '永', '续', ' '));
    assert(mark("装备"@) == (2nat, '装', '备', ' '));
    assert(mark("场地"@) == (2nat, '场', '地', ' '));
    assert(mark("反击"@) == (2nat, '反', '击', ' '));
    assert(mark("反转"@) == (2nat, '反', '转', ' '));
    assert(mark("卡通"@) == (2nat, '卡', '通', ' '));
    assert(mark("超量"@) == (2nat, '超', '量', ' '));
    assert(mark("灵摆"@) == (2nat, '灵', '摆', ' '));
    assert(mark("特殊召唤"@) == (4nat, '特', '殊', '召'));
    assert(mark("连接"@) == (2nat, '连', '接', ' '));
    assert(mark("非效果"@) == (3nat, '非', '效', '果'));
    let t = type_table();
    let r = noneffect_table() + type_table();
    assert(r =~= seq![
        (0x10u64, "非效果"@),
        (0x1u64, "怪兽"@),
        (0x2u64, "魔法"@),
        (0x4u64, "陷阱"@),
        (0x10u64, "通常"@),
        (0x20u64, "效果"@),
        (0x40u64, "融合"@),
        (0x80u64, "仪式"@),
        (0x100u64, "陷阱怪兽"@),
        (0x200u64, "灵魂"@),
        (0x400u64, "同盟"@),
        (0x800u64, "二重"@),
        (0x1000u64, "调整"@),
        (0x2000u64, "同调"@),
        (0x4000u64, "衍生物"@),
        (0x10000u64, "速攻"@),
        (0x20000u64, "永续"@),
        (0x40000u64, "装备"@),
        (0x80000u64, "场地"@),
        (0x100000u64, "反击"@),
        (0x200000u64, "反转"@),
        (0x400000u64, "卡通"@),
        (0x800000u64, "超量"@),
        (0x1000000u64, "灵摆"@),
        (0x2000000u64, "特殊召唤"@),
        (0x4000000u64, "连接"@),
    ]);
    assert(0x7ff7ff7u64 & 0x8 == 0 && 0x7ff7ff7u64 & 0x8000 == 0) by (bit_vector);
    assert forall|i: u64| i < 27 && 0x7ff7ff7u64 & (#[trigger] (1u64 << i)) != 0 implies {
        &&& name_of(t, 1u64 << i) is Some
        &&& key_of(r, name_of(t, 1u64 << i)->0) == Some(1u64 << i)
        &&& name_clean(name_of(t, 1u64 << i)->0, '/')
    } by {
        if i == 0 {
            assert(1u64 << i == 0x1);
            assert(name_of(t, 0x1) == Some("怪兽"@));
            assert(key_of(r, "怪兽"@) == Some(0x1u64));
            assert(name_clean("怪兽"@, '/'));
        } else if i == 1 {
            assert(1u64 << i == 0x2);
            assert(name_of(t, 0x2) == Some("魔法"@));
            assert(key_of(r, "魔法"@) == Some(0x2u64));
            assert(name_clean("魔法"@, '/'));
        } else if i == 2 {
            assert(1u64 << i == 0x4);
            assert(name_of(t, 0x4) == Some("陷阱"@));
            assert(key_of(r, "陷阱"@) == Some(0x4u64));
            assert(name_clean("陷阱"@, '/'));
        } else if i == 3 {
            assert(1u64 << i == 0x8);
        } else if i == 4 {
            assert(1u64 << i == 0x10);
            assert(name_of(t, 0x10) == Some("通常"@));
            assert(key_of(r, "通常"@) == Some(0x10u64));
            assert(name_clean("通常"@, '/'));
        } else if i == 5 {
            assert(1u64 << i == 0x20);
            assert(name_of(t, 0x20) == Some("效果"@));
            assert(key_of(r, "效果"@) == Some(0x20u64));
            assert(name_clean("效果"@, '/'));
        } else if i == 6 {
            assert(1u64 << i == 0x40);
            assert(name_of(t, 0x40) == Some("融合"@));
            assert(key_of(r, "融合"@) == Some(0x40u64));
            assert(name_clean("融合"@, '/'));
        } else if i == 7 {
            assert(1u64 << i == 0x80);
            assert(name_of(t, 0x80) == Some("仪式"@));
            assert(key_of(r, "仪式"@) == Some(0x80u64));
            assert(name_clean("仪式"@, '/'));
        } else if i == 8 {
            assert(1u64 << i == 0x100);
            assert(name_of(t, 0x100) == Some("陷阱怪兽"@));
            assert(key_of(r, "陷阱怪兽"@) == Some(0x100u64));
            assert(name_clean("陷阱怪兽"@, '/'));
        } else if i == 9 {
            assert(1u64 << i == 0x200);
            assert(name_of(t, 0x200) == Some("灵魂"@));
            assert(key_of(r, "灵魂"@) == Some(0x200u64));
            assert(name_clean("灵魂"@, '/'));
        } else if i == 10 {
            assert(1u64 << i == 0x400);
            assert(name_of(t, 0x400) == Some("同盟"@));
            assert(key_of(r, "同盟"@) == Some(0x400u64));
            assert(name_clean("同盟"@, '/'));
        } else if i == 11 {
            assert(1u64 << i == 0x800);
            assert(name_of(t, 0x800) == Some("二重"@));
            assert(key_of(r, "二重"@) == Some(0x800u64));
            assert(name_clean("二重"@, '/'));
        } else if i == 12 {
            assert(1u64 << i == 0x1000);
            assert(name_of(t, 0x1000) == Some("调整"@));
            assert(key_of(r, "调整"@) == Some(0x1000u64));
            assert(name_clean("调整"@, '/'));
        } else if i == 13 {
            assert(1u64 << i == 0x2000);
            assert(name_of(t, 0x2000) == Some("同调"@));
            assert(key_of(r, "同调"@) == Some(0x2000u64));
            assert(name_clean("同调"@, '/'));
        } else if i == 14 {
            assert(1u64 << i == 0x4000);
            assert(name_of(t, 0x4000) == Some("衍生物"@));
            assert(key_of(r, "衍生物"@) == Some(0x4000u64));
            assert(name_clean("衍生物"@, '/'));
        } else if i == 15 {
            assert(1u64 << i == 0x8000);
        } else if i == 16 {
            assert(1u64 << i == 0x10000);
            assert(name_of(t, 0x10000) == Some("速攻"@));
            assert(key_of(r, "速攻"@) == Some(0x10000u64));
            assert(name_clean("速攻"@, '/'));
        } else if i == 17 {
            assert(1u64 << i == 0x20000);
            assert(name_of(t, 0x20000) == Some("永续"@));
            assert(key_of(r, "永续"@) == Some(0x20000u64));
            assert(name_clean("永续"@, '/'));
        } else if i == 18 {
            assert(1u64 << i == 0x40000);
            assert(name_of(t, 0x40000) == Some("装备"@));
            assert(key_of(r, "装备"@) == Some(0x40000u64));
            assert(name_clean("装备"@, '/'));
        } else if i == 19 {
            assert(1u64 << i == 0x80000);
            assert(name_of(t, 0x80000) == Some("场地"@));
            assert(key_of(r, "场地"@) == Some(0x80000u64));
            assert(name_clean("场地"@, '/'));
        } else if i == 20 {
            assert(1u64 << i == 0x100000);
            assert(name_of(t, 0x100000) == Some("反击"@));
            assert(key_of(r, "反击"@) == Some(0x100000u64));
            assert(name_clean("反击"@, '/'));
        } else if i == 21 {
            assert(1u64 << i == 0x200000);
            assert(name_of(t, 0x200000) == Some("反转"@));
            assert(key_of(r, "反转"@) == Some(0x200000u64));
            assert(name_clean("反转"@, '/'));
        } else if i == 22 {
            assert(1u64 << i == 0x400000);
            assert(name_of(t, 0x400000) == Some("卡通"@));
            assert(key_of(r, "卡通"@) == Some(0x400000u64));
            assert(name_clean("卡通"@, '/'));
        } else if i == 23 {
            assert(1u64 << i == 0x800000);
            assert(name_of(t, 0x800000) == Some("超量"@));
            assert(key_of(r, "超量"@) == Some(0x800000u64));
            assert(name_clean("超量"@, '/'));
        } else if i == 24 {
            assert(1u64 << i == 0x1000000);
            assert(name_of(t, 0x1000000) == Some("灵摆"@));
            assert(key_of(r, "灵摆"@) == Some(0x1000000u64));
            assert(name_clean("灵摆"@, '/'));
        } else if i == 25 {
            assert(1u64 << i == 0x2000000);
            assert(name_of(t, 0x2000000) == Some("特殊召唤"@));
            assert(key_of(r, "特殊召唤"@) == Some(0x2000000u64));
            assert(name_clean("特殊召唤"@, '/'));
        } else if i == 26 {
            assert(1u64 << i == 0x4000000);
            assert(name_of(t, 0x4000000) == Some("连接"@));
            assert(key_of(r, "连接"@) == Some(0x4000000u64));
            assert(name_clean("连接"@, '/'));
        }
    }
}

/// The keys of two lists of names, one behind the other.
pub proof fn lemma_decode_concat(
    first: Seq<Seq<char>>,
    second: Seq<Seq<char>>,
    table: NameTable,
    mask: u64,
)
    ensures
        decode_flags(first + second, table, mask) == decode_flags(first, table, mask)
            | decode_flags(second, table, mask),
    decreases second.len(),
{
    let a = decode_flags(first, table, mask);
    if second.len() == 0 {
        assert(first + second =~= first);
        assert(a | 0 == a) by (bit_vector);
    } else {
        let init = second.drop_last();
        lemma_decode_concat(first, init, table, mask);
        assert((first + second).drop_last() =~= first + init);
        assert((first + second).last() == second.last());
        let b = decode_flags(init, table, mask);
        match key_of(table, second.last()) {
            Some(key) => {
                let k = key & mask;
                assert((a | b) | k == a | (b | k)) by (bit_vector);
            },
            None => {},
        }
    }
}

/// The names of the attributes lead back to their flags and can stand in a
/// list joined by `/`.
pub proof fn lemma_attribute_names()
    ensures
        names_lead_back(attribute_table(), attribute_table(), 0x7f, 7),
        names_clean(attribute_table(), 0x7f, 7, '/'),
{
    lemma_flag_values();
    reveal_strlit("无");
    reveal_strlit("地");
    reveal_strlit("水");
    reveal_strlit("炎");
    reveal_strlit("风");
    reveal_strlit("光");
    reveal_strlit("暗");
    reveal_strlit("神");
    reveal_with_fuel(name_from, 9);
    reveal_with_fuel(key_from, 9);
    assert(mark("无"@) == (1nat, '无', ' ', ' '));
    assert(mark("地"@) == (1nat, '地', ' ', ' '));
    assert(mark("水"@) == (1nat, '水', ' ', ' '));
    assert(mark("炎"@) == (1nat, '炎', ' ', ' '));
    assert(mark("风"@) == (1nat, '风', ' ', ' '));
    assert(mark("光"@) == (1nat, '光', ' ', ' '));
    assert(mark("暗"@) == (1nat, '暗', ' ', ' '));
    assert(mark("神"@) == (1nat, '神', ' ', ' '));
    let t = attribute_table();
    let r = attribute_table();
    assert forall|i: u64| i < 7 && 0x7fu64 & (#[trigger] (1u64 << i)) != 0 implies {
        &&& name_of(t, 1u64 << i) is Some
        &&& key_of(r, name_of(t, 1u64 << i)->0) == Some(1u64 << i)
        &&& name_clean(name_of(t, 1u64 << i)->0, '/')
    } by {
        if i == 0 {
            assert(1u64 << i == 0x1);
            assert(name_of(t, 0x1) == Some("地"@));
            assert(key_of(r, "地"@) == Some(0x1u64));
            assert(name_clean("地"@, '/'));
        } else if i == 1 {
            assert(1u64 << i == 0x2);
            assert(name_of(t, 0x2) == Some("水"@));
            assert(key_of(r, "水"@) == Some(0x2u64));
            assert(name_clean("水"@, '/'));
        } else if i == 2 {
            assert(1u64 << i == 0x4);
            assert(name_of(t, 0x4) == Some("炎"@));
            assert(key_of(r, "炎"@) == Some(0x4u64));
            assert(name_clean("炎"@, '/'));
        } else if i == 3 {
            assert(1u64 << i == 0x8);
            assert(name_of(t, 0x8) == Some("风"@));
            assert(key_of(r, "风"@) == Some(0x8u64));
            assert(name_clean("风"@, '/'));
        } else if i == 4 {
            assert(1u64 << i == 0x10);
            assert(name_of(t, 0x10) == Some("光"@));
            assert(key_of(r, "光"@) == Some(0x10u64));
            assert(name_clean("光"@, '/'));
        } else if i == 5 {
            assert(1u64 << i == 0x20);
            assert(name_of(t, 0x20) == Some("暗"@));
            assert(key_of(r, "暗"@) == Some(0x20u64));
            assert(name_clean("暗"@, '/'));
        } else if i == 6 {
            assert(1u64 << i == 0x40);
            assert(name_of(t, 0x40) == Some("神"@));
            assert(key_of(r, "神"@) == Some(0x40u64));
            assert(name_clean("神"@, '/'));
        }
    }
}

/// The names of the races lead back to their flags, but for the second race
/// named `兽战士`, and can stand in a list joined by `/`.
pub proof fn lemma_race_names()
    ensures
        names_lead_back(race_table(), race_table(), 0x1ff7fff, 25),
        names_clean(race_table(), 0x1ff7fff, 25, '/'),
{
    lemma_flag_values();
    reveal_strlit("无种族");
    reveal_strlit("战士");
    reveal_strlit("魔法使");
    reveal_strlit("天使");
    reveal_strlit("恶魔");
    reveal_strlit("不死");
    reveal_strlit("机械");
    reveal_strlit("水");
    reveal_strlit("炎");
    reveal_strlit("岩石");
    reveal_strlit("兽战士");
    reveal_strlit("植物");
    reveal_strlit("昆虫");
    reveal_strlit("雷");
    reveal_strlit("龙");
    reveal_strlit("兽");
    reveal_strlit("恐龙");
    reveal_strlit("鱼");
    reveal_strlit("海龙");
    reveal_strlit("爬行类");
    reveal_strlit("念动力");
    reveal_strlit("神");
    reveal_strlit("创世神");
    reveal_strlit("幻龙");
    reveal_strlit("电子界");
    reveal_strlit("幻想魔");
    reveal_with_fuel(name_from, 28);
    reveal_with_fuel(key_from, 28);
    assert(mark("无种族"@) == (3nat, '无', '种', '族'));
    assert(mark("战士"@) == (2nat, '战', '士', ' '));
    assert(mark("魔法使"@) == (3nat, '魔', '法', '使'));
    assert(mark("天使"@) == (2nat, '天', '使', ' '));
    assert(mark("恶魔"@) == (2nat, '恶', '魔', ' '));
    assert(mark("不死"@) == (2nat, '不', '死', ' '));
    assert(mark("机械"@) == (2nat, '机', '械', ' '));
    assert(mark("水"@) == (1nat, '水', ' ', ' '));
    assert(mark("炎"@) == (1nat, '炎', ' ', ' '));
    assert(mark("岩石"@) == (2nat, '岩', '石', ' '));
    assert(mark("兽战士"@) == (3nat, '兽', '战', '士'));
    assert(mark("植物"@) == (2nat, '植', '物', ' '));
    assert(mark("昆虫"@) == (2nat, '昆', '虫', ' '));
    assert(mark("雷"@) == (1nat, '雷', ' ', ' '));
    assert(mark("龙"@) == (1nat, '龙', ' ', ' '));
    assert(mark("兽"@) == (1nat, '兽', ' ', ' '));
    assert(mark("恐龙"@) == (2nat, '恐', '龙', ' '));
    assert(mark("鱼"@) == (1nat, '鱼', ' ', ' '));
    assert(mark("海龙"@) == (2nat, '海', '龙', ' '));
    assert(mark("爬行类"@) == (3nat, '爬', '行', '类'));
    assert(mark("念动力"@) == (3nat, '念', '动', '力'));
    assert(mark("神"@) == (1nat, '神', ' ', ' '));
    assert(mark("创世神"@) == (3nat, '创', '世', '神'));
    assert(mark("幻龙"@) == (2nat, '幻', '龙', ' '));
    assert(mark("电子界"@) == (3nat, '电', '子', '界'));
    assert(mark("幻想魔"@) == (3nat, '幻', '想', '魔'));
    let t = race_table();
    let r = race_table();
    assert(0x1ff7fffu64 & 0x8000 == 0) by (bit_vector);
    assert forall|i: u64| i < 25 && 0x1ff7fffu64 & (#[trigger] (1u64 << i)) != 0 implies {
        &&& name_of(t, 1u64 << i) is Some
        &&& key_of(r, name_of(t, 1u64 << i)->0) == Some(1u64 << i)
        &&& name_clean(name_of(t, 1u64 << i)->0, '/')
    } by {
        if i == 0 {
            assert(1u64 << i == 0x1);
            assert(name_of(t, 0x1) == Some("战士"@));
            assert(key_of(r, "战士"@) == Some(0x1u64));
            assert(name_clean("战士"@, '/'));
        } else if i == 1 {
            assert(1u64 << i == 0x2);
            assert(name_of(t, 0x2) == Some("魔法使"@));
            assert(key_of(r, "魔法使"@) == Some(0x2u64));
            assert(name_clean("魔法使"@, '/'));
        } else if i == 2 {
            assert(1u64 << i == 0x4);
            assert(name_of(t, 0x4) == Some("天使"@));
            assert(key_of(r, "天使"@) == Some(0x4u64));
            assert(name_clean("天使"@, '/'));
        } else if i == 3 {
            assert(1u64 << i == 0x8);
            assert(name_of(t, 0x8) == Some("恶魔"@));
            assert(key_of(r, "恶魔"@) == Some(0x8u64));
            assert(name_clean("恶魔"@, '/'));
        } else if i == 4 {
            assert(1u64 << i == 0x10);
            assert(name_of(t, 0x10) == Some("不死"@));
            assert(key_of(r, "不死"@) == Some(0x10u64));
            assert(name_clean("不死"@, '/'));
        } else if i == 5 {
            assert(1u64 << i == 0x20);
            assert(name_of(t, 0x20) == Some("机械"@));
            assert(key_of(r, "机械"@) == Some(0x20u64));
            assert(name_clean("机械"@, '/'));
        } else if i == 6 {
            assert(1u64 << i == 0x40);
            assert(name_of(t, 0x40) == Some("水"@));
            assert(key_of(r, "水"@) == Some(0x40u64));
            assert(name_clean("水"@, '/'));
        } else if i == 7 {
            assert(1u64 << i == 0x80);
            assert(name_of(t, 0x80) == Some("炎"@));
            assert(key_of(r, "炎"@) == Some(0x80u64));
            assert(name_clean("炎"@, '/'));
        } else if i == 8 {
            assert(1u64 << i == 0x100);
            assert(name_of(t, 0x100) == Some("岩石"@));
            assert(key_of(r, "岩石"@) == Some(0x100u64));
            assert(name_clean("岩石"@, '/'));
        } else if i == 9 {
            assert(1u64 << i == 0x200);
            assert(name_of(t, 0x200) == Some("兽战士"@));
            assert(key_of(r, "兽战士"@) == Some(0x200u64));
            assert(name_clean("兽战士"@, '/'));
        } else if i == 10 {
            assert(1u64 << i == 0x400);
            assert(name_of(t, 0x400) == Some("植物"@));
            assert(key_of(r, "植物"@) == Some(0x400u64));
            assert(name_clean("植物"@, '/'));
        } else if i == 11 {
            assert(1u64 << i == 0x800);
            assert(name_of(t, 0x800) == Some("昆虫"@));
            assert(key_of(r, "昆虫"@) == Some(0x800u64));
            assert(name_clean("昆虫"@, '/'));
        } else if i == 12 {
            assert(1u64 << i == 0x1000);
            assert(name_of(t, 0x1000) == Some("雷"@));
            assert(key_of(r, "雷"@) == Some(0x1000u64));
            assert(name_clean("雷"@, '/'));
        } else if i == 13 {
            assert(1u64 << i == 0x2000);
            assert(name_of(t, 0x2000) == Some("龙"@));
            assert(key_of(r, "龙"@) == Some(0x2000u64));
            assert(name_clean("龙"@, '/'));
        } else if i == 14 {
            assert(1u64 << i == 0x4000);
            assert(name_of(t, 0x4000) == Some("兽"@));
            assert(key_of(r, "兽"@) == Some(0x4000u64));
            assert(name_clean("兽"@, '/'));
        } else if i == 15 {
            assert(1u64 << i == 0x8000);
        } else if i == 16 {
            assert(1u64 << i == 0x10000);
            assert(name_of(t, 0x10000) == Some("恐龙"@));
            assert(key_of(r, "恐龙"@) == Some(0x10000u64));
            assert(name_clean("恐龙"@, '/'));
        } else if i == 17 {
            assert(1u64 << i == 0x20000);
            assert(name_of(t, 0x20000) == Some("鱼"@));
            assert(key_of(r, "鱼"@) == Some(0x20000u64));
            assert(name_clean("鱼"@, '/'));
        } else if i == 18 {
            assert(1u64 << i == 0x40000);
            assert(name_of(t, 0x40000) == Some("海龙"@));
            assert(key_of(r, "海龙"@) == Some(0x40000u64));
            assert(name_clean("海龙"@, '/'));
        } else if i == 19 {
            assert(1u64 << i == 0x80000);
            assert(name_of(t, 0x80000) == Some("爬行类"@));
            assert(key_of(r, "爬行类"@) == Some(0x80000u64));
            assert(name_clean("爬行类"@, '/'));
        } else if i == 20 {
            assert(1u64 << i == 0x100000);
            assert(name_of(t, 0x100000) == Some("念动力"@));
            assert(key_of(r, "念动力"@) == Some(0x100000u64));
            assert(name_clean("念动力"@, '/'));
        } else if i == 21 {
            assert(1u64 << i == 0x200000);
            assert(name_of(t, 0x200000) == Some("神"@));
            assert(key_of(r, "神"@) == Some(0x200000u64));
            assert(name_clean("神"@, '/'));
        } else if i == 22 {
            assert(1u64 << i == 0x400000);
            assert(name_of(t, 0x400000) == Some("创世神"@));
            assert(key_of(r, "创世神"@) == Some(0x400000u64));
            assert(name_clean("创世神"@, '/'));
        } else if i == 23 {
            assert(1u64 << i == 0x800000);
            assert(name_of(t, 0x800000) == Some("幻龙"@));
            assert(key_of(r, "幻龙"@) == Some(0x800000u64));
            assert(name_clean("幻龙"@, '/'));
        } else if i == 24 {
            assert(1u64 << i == 0x1000000);
            assert(name_of(t, 0x1000000) == Some("电子界"@));
            assert(key_of(r, "电子界"@) == Some(0x1000000u64));
            assert(name_clean("电子界"@, '/'));
        }
    }
}

proof fn lemma_category_names_0()
    ensures
        forall|i: u64|
            0 <= i < 8 ==> {
                &&& name_of(category_table(), #[trigger] (1u64 << i)) is Some
                &&& key_of(category_table(), name_of(category_table(), 1u64 << i)->0) == Some(1u64 << i)
                &&& name_clean(name_of(category_table(), 1u64 << i)->0, '、')
            },
{
    lemma_flag_values();
    reveal_strlit("魔陷破坏");
    reveal_strlit("怪兽破坏");
    reveal_strlit("卡片除外");
    reveal_strlit("送去墓地");
    reveal_strlit("返回手卡");
    reveal_strlit("返回卡组");
    reveal_strlit("手卡破坏");
    reveal_strlit("卡组破坏");
    reveal_strlit("抽卡辅助");
    reveal_strlit("卡组检索");
    reveal_strlit("卡片回收");
    reveal_strlit("表示形式");
    reveal_strlit("控制权");
    reveal_strlit("攻守变化");
    reveal_strlit("穿刺伤害");
    reveal_strlit("多次攻击");
    reveal_strlit("攻击限制");
    reveal_strlit("直接攻击");
    reveal_strlit("特殊召唤");
    reveal_strlit("衍生物");
    reveal_strlit("种族相关");
    reveal_strlit("属性相关");
    reveal_strlit("LP伤害");
    reveal_strlit("LP回复");
    reveal_strlit("破坏耐性");
    reveal_strlit("效果耐性");
    reveal_strlit("指示物");
    reveal_strlit("幸运");
    reveal_strlit("融合相关");
    reveal_strlit("同调相关");
    reveal_strlit("超量相关");
    reveal_strlit("效果无效");
    reveal_with_fuel(name_from, 33);
    reveal_with_fuel(key_from, 33);
    assert(mark("魔陷破坏"@) == (4nat, '魔', '陷', '破'));
    assert(mark("怪兽破坏"@) == (4nat, '怪', '兽', '破'));
    assert(mark("卡片除外"@) == (4nat, '卡', '片', '除'));
    assert(mark("送去墓地"@) == (4nat, '送', '去', '墓'));
    assert(mark("返回手卡"@) == (4nat, '返', '回', '手'));
    assert(mark("返回卡组"@) == (4nat, '返', '回', '卡'));
    assert(mark("手卡破坏"@) == (4nat, '手', '卡', '破'));
    assert(mark("卡组破坏"@) == (4nat, '卡', '组', '破'));
    assert(mark("抽卡辅助"@) == (4nat, '抽', '卡', '辅'));
    assert(mark("卡组检索"@) == (4nat, '卡', '组', '检'));
    assert(mark("卡片回收"@) == (4nat, '卡', '片', '回'));
    assert(mark("表示形式"@) == (4nat, '表', '示', '形'));
    assert(mark("控制权"@) == (3nat, '控', '制', '权'));
    assert(mark("攻守变化"@) == (4nat, '攻', '守', '变'));
    assert(mark("穿刺伤害"@) == (4nat, '穿', '刺', '伤'));
    assert(mark("多次攻击"@) == (4nat, '多', '次', '攻'));
    assert(mark("攻击限制"@) == (4nat, '攻', '击', '限'));
    assert(mark("直接攻击"@) == (4nat, '直', '接', '攻'));
    assert(mark("特殊召唤"@) == (4nat, '特', '殊', '召'));
    assert(mark("衍生物"@) == (3nat, '衍', '生', '物'));
    assert(mark("种族相关"@) == (4nat, '种', '族', '相'));
    assert(mark("属性相关"@) == (4nat, '属', '性', '相'));
    assert(mark("LP伤害"@) == (4nat, 'L', 'P', '伤'));
    assert(mark("LP回复"@) == (4nat, 'L', 'P', '回'));
    assert(mark("破坏耐性"@) == (4nat, '破', '坏', '耐'));
    assert(mark("效果耐性"@) == (4nat, '效', '果', '耐'));
    assert(mark("指示物"@) == (3nat, '指', '示', '物'));
    assert(mark("幸运"@) == (2nat, '幸', '运', ' '));
    assert(mark("融合相关"@) == (4nat, '融', '合', '相'));
    assert(mark("同调相关"@) == (4nat, '同', '调', '相'));
    assert(mark("超量相关"@) == (4nat, '超', '量', '相'));
    assert(mark("效果无效"@) == (4nat, '效', '果', '无'));
    let t = category_table();
    assert forall|i: u64| 0 <= i < 8 implies {
        &&& name_of(t, #[trigger] (1u64 << i)) is Some
        &&& key_of(t, name_of(t, 1u64 << i)->0) == Some(1u64 << i)
        &&& name_clean(name_of(t, 1u64 << i)->0, '、')
    } by {
        if i == 0 {
            assert(1u64 << i == 0x1);
            assert(name_of(t, 0x1) == Some("魔陷破坏"@));
            assert(key_of(t, "魔陷破坏"@) == Some(0x1u64));
            assert(name_clean("魔陷破坏"@, '、'));
        } else if i == 1 {
            assert(1u64 << i == 0x2);
            assert(name_of(t, 0x2) == Some("怪兽破坏"@));
            assert(key_of(t, "怪兽破坏"@) == Some(0x2u64));
            assert(name_clean("怪兽破坏"@, '、'));
        } else if i == 2 {
            assert(1u64 << i == 0x4);
            assert(name_of(t, 0x4) == Some("卡片除外"@));
            assert(key_of(t, "卡片除外"@) == Some(0x4u64));
            assert(name_clean("卡片除外"@, '、'));
        } else if i == 3 {
            assert(1u64 << i == 0x8);
            assert(name_of(t, 0x8) == Some("送去墓地"@));
            assert(key_of(t, "送去墓地"@) == Some(0x8u64));
            assert(name_clean("送去墓地"@, '、'));
        } else if i == 4 {
            assert(1u64 << i == 0x10);
            assert(name_of(t, 0x10) == Some("返回手卡"@));
            assert(key_of(t, "返回手卡"@) == Some(0x10u64));
            assert(name_clean("返回手卡"@, '、'));
        } else if i == 5 {
            assert(1u64 << i == 0x20);
            assert(name_of(t, 0x20) == Some("返回卡组"@));
            assert(key_of(t, "返回卡组"@) == Some(0x20u64));
            assert(name_clean("返回卡组"@, '、'));
        } else if i == 6 {
            assert(1u64 << i == 0x40);
            assert(name_of(t, 0x40) == Some("手卡破坏"@));
            assert(key_of(t, "手卡破坏"@) == Some(0x40u64));
            assert(name_clean("手卡破坏"@, '、'));
        } else if i == 7 {
            assert(1u64 << i == 0x80);
            assert(name_of(t, 0x80) == Some("卡组破坏"@));
            assert(key_of(t, "卡组破坏"@) == Some(0x80u64));
            assert(name_clean("卡组破坏"@, '、'));
        }
    }
}

proof fn lemma_category_names_8()
    ensures
        forall|i: u64|
            8 <= i < 16 ==> {
                &&& name_of(category_table(), #[trigger] (1u64 << i)) is Some
                &&& key_of(category_table(), name_of(category_table(), 1u64 << i)->0) == Some(1u64 << i)
                &&& name_clean(name_of(category_table(), 1u64 << i)->0, '、')
            },
{
    lemma_flag_values();
    reveal_strlit("魔陷破坏");
    reveal_strlit("怪兽破坏");
    reveal_strlit("卡片除外");
    reveal_strlit("送去墓地");
    reveal_strlit("返回手卡");
    reveal_strlit("返回卡组");
    reveal_strlit("手卡破坏");
    reveal_strlit("卡组破坏");
    reveal_strlit("抽卡辅助");
    reveal_strlit("卡组检索");
    reveal_strlit("卡片回收");
    reveal_strlit("表示形式");
    reveal_strlit("控制权");
    reveal_strlit("攻守变化");
    reveal_strlit("穿刺伤害");
    reveal_strlit("多次攻击");
    reveal_strlit("攻击限制");
    reveal_strlit("直接攻击");
    reveal_strlit("特殊召唤");
    reveal_strlit("衍生物");
    reveal_strlit("种族相关");
    reveal_strlit("属性相关");
    reveal_strlit("LP伤害");
    reveal_strlit("LP回复");
    reveal_strlit("破坏耐性");
    reveal_strlit("效果耐性");
    reveal_strlit("指示物");
    reveal_strlit("幸运");
    reveal_strlit("融合相关");
    reveal_strlit("同调相关");
    reveal_strlit("超量相关");
    reveal_strlit("效果无效");
    reveal_with_fuel(name_from, 33);
    reveal_with_fuel(key_from, 33);
    assert(mark("魔陷破坏"@) == (4nat, '魔', '陷', '破'));
    assert(mark("怪兽破坏"@) == (4nat, '怪', '兽', '破'));
    assert(mark("卡片除外"@) == (4nat, '卡', '片', '除'));
    assert(mark("送去墓地"@) == (4nat, '送', '去', '墓'));
    assert(mark("返回手卡"@) == (4nat, '返', '回', '手'));
    assert(mark("返回卡组"@) == (4nat, '返', '回', '卡'));
    assert(mark("手卡破坏"@) == (4nat, '手', '卡', '破'));
    assert(mark("卡组破坏"@) == (4nat, '卡', '组', '破'));
    assert(mark("抽卡辅助"@) == (4nat, '抽', '卡', '辅'));
    assert(mark("卡组检索"@) == (4nat, '卡', '组', '检'));
    assert(mark("卡片回收"@) == (4nat, '卡', '片', '回'));
    assert(mark("表示形式"@) == (4nat, '表', '示', '形'));
    assert(mark("控制权"@) == (3nat, '控', '制', '权'));
    assert(mark("攻守变化"@) == (4nat, '攻', '守', '变'));
    assert(mark("穿刺伤害"@) == (4nat, '穿', '刺', '伤'));
    assert(mark("多次攻击"@) == (4nat, '多', '次', '攻'));
    assert(mark("攻击限制"@) == (4nat, '攻', '击', '限'));
    assert(mark("直接攻击"@) == (4nat, '直', '接', '攻'));
    assert(mark("特殊召唤"@) == (4nat, '特', '殊', '召'));
    assert(mark("衍生物"@) == (3nat, '衍', '生', '物'));
    assert(mark("种族相关"@) == (4nat, '种', '族', '相'));
    assert(mark("属性相关"@) == (4nat, '属', '性', '相'));
    assert(mark("LP伤害"@) == (4nat, 'L', 'P', '伤'));
    assert(mark("LP回复"@) == (4nat, 'L', 'P', '回'));
    assert(mark("破坏耐性"@) == (4nat, '破', '坏', '耐'));
    assert(mark("效果耐性"@) == (4nat, '效', '果', '耐'));
    assert(mark("指示物"@) == (3nat, '指', '示', '物'));
    assert(mark("幸运"@) == (2nat, '幸', '运', ' '));
    assert(mark("融合相关"@) == (4nat, '融', '合', '相'));
    assert(mark("同调相关"@) == (4nat, '同', '调', '相'));
    assert(mark("超量相关"@) == (4nat, '超', '量', '相'));
    assert(mark("效果无效"@) == (4nat, '效', '果', '无'));
    let t = category_table();
    assert forall|i: u64| 8 <= i < 16 implies {
        &&& name_of(t, #[trigger] (1u64 << i)) is Some
        &&& key_of(t, name_of(t, 1u64 << i)->0) == Some(1u64 << i)
        &&& name_clean(name_of(t, 1u64 << i)->0, '、')
    } by {
        if i == 8 {
            assert(1u64 << i == 0x100);
            assert(name_of(t, 0x100) == Some("抽卡辅助"@));
            assert(key_of(t, "抽卡辅助"@) == Some(0x100u64));
            assert(name_clean("抽卡辅助"@, '、'));
        } else if i == 9 {
            assert(1u64 << i == 0x200);
            assert(name_of(t, 0x200) == Some("卡组检索"@));
            assert(key_of(t, "卡组检索"@) == Some(0x200u64));
            assert(name_clean("卡组检索"@, '、'));
        } else if i == 10 {
            assert(1u64 << i == 0x400);
            assert(name_of(t, 0x400) == Some("卡片回收"@));
            assert(key_of(t, "卡片回收"@) == Some(0x400u64));
            assert(name_clean("卡片回收"@, '、'));
        } else if i == 11 {
            assert(1u64 << i == 0x800);
            assert(name_of(t, 0x800) == Some("表示形式"@));
            assert(key_of(t, "表示形式"@) == Some(0x800u64));
            assert(name_clean("表示形式"@, '、'));
        } else if i == 12 {
            assert(1u64 << i == 0x1000);
            assert(name_of(t, 0x1000) == Some("控制权"@));
            assert(key_of(t, "控制权"@) == Some(0x1000u64));
            assert(name_clean("控制权"@, '、'));
        } else if i == 13 {
            assert(1u64 << i == 0x2000);
            assert(name_of(t, 0x2000) == Some("攻守变化"@));
            assert(key_of(t, "攻守变化"@) == Some(0x2000u64));
            assert(name_clean("攻守变化"@, '、'));
        } else if i == 14 {
            assert(1u64 << i == 0x4000);
            assert(name_of(t, 0x4000) == Some("穿刺伤害"@));
            assert(key_of(t, "穿刺伤害"@) == Some(0x4000u64));
            assert(name_clean("穿刺伤害"@, '、'));
        } else if i == 15 {
            assert(1u64 << i == 0x8000);
            assert(name_of(t, 0x8000) == Some("多次攻击"@));
            assert(key_of(t, "多次攻击"@) == Some(0x8000u64));
            assert(name_clean("多次攻击"@, '、'));
        }
    }
}

proof fn lemma_category_names_16()
    ensures
        forall|i: u64|
            16 <= i < 24 ==> {
                &&& name_of(category_table(), #[trigger] (1u64 << i)) is Some
                &&& key_of(category_table(), name_of(category_table(), 1u64 << i)->0) == Some(1u64 << i)
                &&& name_clean(name_of(category_table(), 1u64 << i)->0, '、')
            },
{
    lemma_flag_values();
    reveal_strlit("魔陷破坏");
    reveal_strlit("怪兽破坏");
    reveal_strlit("卡片除外");
    reveal_strlit("送去墓地");
    reveal_strlit("返回手卡");
    reveal_strlit("返回卡组");
    reveal_strlit("手卡破坏");
    reveal_strlit("卡组破坏");
    reveal_strlit("抽卡辅助");
    reveal_strlit("卡组检索");
    reveal_strlit("卡片回收");
    reveal_strlit("表示形式");
    reveal_strlit("控制权");
    reveal_strlit("攻守变化");
    reveal_strlit("穿刺伤害");
    reveal_strlit("多次攻击");
    reveal_strlit("攻击限制");
    reveal_strlit("直接攻击");
    reveal_strlit("特殊召唤");
    reveal_strlit("衍生物");
    reveal_strlit("种族相关");
    reveal_strlit("属性相关");
    reveal_strlit("LP伤害");
    reveal_strlit("LP回复");
    reveal_strlit("破坏耐性");
    reveal_strlit("效果耐性");
    reveal_strlit("指示物");
    reveal_strlit("幸运");
    reveal_strlit("融合相关");
    reveal_strlit("同调相关");
    reveal_strlit("超量相关");
    reveal_strlit("效果无效");
    reveal_with_fuel(name_from, 33);
    reveal_with_fuel(key_from, 33);
    assert(mark("魔陷破坏"@) == (4nat, '魔', '陷', '破'));
    assert(mark("怪兽破坏"@) == (4nat, '怪', '兽', '破'));
    assert(mark("卡片除外"@) == (4nat, '卡', '片', '除'));
    assert(mark("送去墓地"@) == (4nat, '送', '去', '墓'));
    assert(mark("返回手卡"@) == (4nat, '返', '回', '手'));
    assert(mark("返回卡组"@) == (4nat, '返', '回', '卡'));
    assert(mark("手卡破坏"@) == (4nat, '手', '卡', '破'));
    assert(mark("卡组破坏"@) == (4nat, '卡', '组', '破'));
    assert(mark("抽卡辅助"@) == (4nat, '抽', '卡', '辅'));
    assert(mark("卡组检索"@) == (4nat, '卡', '组', '检'));
    assert(mark("卡片回收"@) == (4nat, '卡', '片', '回'));
    assert(mark("表示形式"@) == (4nat, '表', '示', '形'));
    assert(mark("控制权"@) == (3nat, '控', '制', '权'));
    assert(mark("攻守变化"@) == (4nat, '攻', '守', '变'));
    assert(mark("穿刺伤害"@) == (4nat, '穿', '刺', '伤'));
    assert(mark("多次攻击"@) == (4nat, '多', '次', '攻'));
    assert(mark("攻击限制"@) == (4nat, '攻', '击', '限'));
    assert(mark("直接攻击"@) == (4nat, '直', '接', '攻'));
    assert(mark("特殊召唤"@) == (4nat, '特', '殊', '召'));
    assert(mark("衍生物"@) == (3nat, '衍', '生', '物'));
    assert(mark("种族相关"@) == (4nat, '种', '族', '相'));
    assert(mark("属性相关"@) == (4nat, '属', '性', '相'));
    assert(mark("LP伤害"@) == (4nat, 'L', 'P', '伤'));
    assert(mark("LP回复"@) == (4nat, 'L', 'P', '回'));
    assert(mark("破坏耐性"@) == (4nat, '破', '坏', '耐'));
    assert(mark("效果耐性"@) == (4nat, '效', '果', '耐'));
    assert(mark("指示物"@) == (3nat, '指', '示', '物'));
    assert(mark("幸运"@) == (2nat, '幸', '运', ' '));
    assert(mark("融合相关"@) == (4nat, '融', '合', '相'));
    assert(mark("同调相关"@) == (4nat, '同', '调', '相'));
    assert(mark("超量相关"@) == (4nat, '超', '量', '相'));
    assert(mark("效果无效"@) == (4nat, '效', '果', '无'));
    let t = category_table();
    assert forall|i: u64| 16 <= i < 24 implies {
        &&& name_of(t, #[trigger] (1u64 << i)) is Some
        &&& key_of(t, name_of(t, 1u64 << i)->0) == Some(1u64 << i)
        &&& name_clean(name_of(t, 1u64 << i)->0, '、')
    } by {
        if i == 16 {
            assert(1u64 << i == 0x10000);
            assert(name_of(t, 0x10000) == Some("攻击限制"@));
            assert(key_of(t, "攻击限制"@) == Some(0x10000u64));
            assert(name_clean("攻击限制"@, '、'));
        } else if i == 17 {
            assert(1u64 << i == 0x20000);
            assert(name_of(t, 0x20000) == Some("直接攻击"@));
            assert(key_of(t, "直接攻击"@) == Some(0x20000u64));
            assert(name_clean("直接攻击"@, '、'));
        } else if i == 18 {
            assert(1u64 << i == 0x40000);
            assert(name_of(t, 0x40000) == Some("特殊召唤"@));
            assert(key_of(t, "特殊召唤"@) == Some(0x40000u64));
            assert(name_clean("特殊召唤"@, '、'));
        } else if i == 19 {
            assert(1u64 << i == 0x80000);
            assert(name_of(t, 0x80000) == Some("衍生物"@));
            assert(key_of(t, "衍生物"@) == Some(0x80000u64));
            assert(name_clean("衍生物"@, '、'));
        } else if i == 20 {
            assert(1u64 << i == 0x100000);
            assert(name_of(t, 0x100000) == Some("种族相关"@));
            assert(key_of(t, "种族相关"@) == Some(0x100000u64));
            assert(name_clean("种族相关"@, '、'));
        } else if i == 21 {
            assert(1u64 << i == 0x200000);
            assert(name_of(t, 0x200000) == Some("属性相关"@));
            assert(key_of(t, "属性相关"@) == Some(0x200000u64));
            assert(name_clean("属性相关"@, '、'));
        } else if i == 22 {
            assert(1u64 << i == 0x400000);
            assert(name_of(t, 0x400000) == Some("LP伤害"@));
            assert(key_of(t, "LP伤害"@) == Some(0x400000u64));
            assert(name_clean("LP伤害"@, '、'));
        } else if i == 23 {
            assert(1u64 << i == 0x800000);
            assert(name_of(t, 0x800000) == Some("LP回复"@));
            assert(key_of(t, "LP回复"@) == Some(0x800000u64));
            assert(name_clean("LP回复"@, '、'));
        }
    }
}

proof fn lemma_category_names_24()
    ensures
        forall|i: u64|
            24 <= i < 32 ==> {
                &&& name_of(category_table(), #[trigger] (1u64 << i)) is Some
                &&& key_of(category_table(), name_of(category_table(), 1u64 << i)->0) == Some(1u64 << i)
                &&& name_clean(name_of(category_table(), 1u64 << i)->0, '、')
            },
{
    lemma_flag_values();
    reveal_strlit("魔陷破坏");
    reveal_strlit("怪兽破坏");
    reveal_strlit("卡片除外");
    reveal_strlit("送去墓地");
    reveal_strlit("返回手卡");
    reveal_strlit("返回卡组");
    reveal_strlit("手卡破坏");
    reveal_strlit("卡组破坏");
    reveal_strlit("抽卡辅助");
    reveal_strlit("卡组检索");
    reveal_strlit("卡片回收");
    reveal_strlit("表示形式");
    reveal_strlit("控制权");
    reveal_strlit("攻守变化");
    reveal_strlit("穿刺伤害");
    reveal_strlit("多次攻击");
    reveal_strlit("攻击限制");
    reveal_strlit("直接攻击");
    reveal_strlit("特殊召唤");
    reveal_strlit("衍生物");
    reveal_strlit("种族相关");
    reveal_strlit("属性相关");
    reveal_strlit("LP伤害");
    reveal_strlit("LP回复");
    reveal_strlit("破坏耐性");
    reveal_strlit("效果耐性");
    reveal_strlit("指示物");
    reveal_strlit("幸运");
    reveal_strlit("融合相关");
    reveal_strlit("同调相关");
    reveal_strlit("超量相关");
    reveal_strlit("效果无效");
    reveal_with_fuel(name_from, 33);
    reveal_with_fuel(key_from, 33);
    assert(mark("魔陷破坏"@) == (4nat, '魔', '陷', '破'));
    assert(mark("怪兽破坏"@) == (4nat, '怪', '兽', '破'));
    assert(mark("卡片除外"@) == (4nat, '卡', '片', '除'));
    assert(mark("送去墓地"@) == (4nat, '送', '去', '墓'));
    assert(mark("返回手卡"@) == (4nat, '返', '回', '手'));
    assert(mark("返回卡组"@) == (4nat, '返', '回', '卡'));
    assert(mark("手卡破坏"@) == (4nat, '手', '卡', '破'));
    assert(mark("卡组破坏"@) == (4nat, '卡', '组', '破'));
    assert(mark("抽卡辅助"@) == (4nat, '抽', '卡', '辅'));
    assert(mark("卡组检索"@) == (4nat, '卡', '组', '检'));
    assert(mark("卡片回收"@) == (4nat, '卡', '片', '回'));
    assert(mark("表示形式"@) == (4nat, '表', '示', '形'));
    assert(mark("控制权"@) == (3nat, '控', '制', '权'));
    assert(mark("攻守变化"@) == (4nat, '攻', '守', '变'));
    assert(mark("穿刺伤害"@) == (4nat, '穿', '刺', '伤'));
    assert(mark("多次攻击"@) == (4nat, '多', '次', '攻'));
    assert(mark("攻击限制"@) == (4nat, '攻', '击', '限'));
    assert(mark("直接攻击"@) == (4nat, '直', '接', '攻'));
    assert(mark("特殊召唤"@) == (4nat, '特', '殊', '召'));
    assert(mark("衍生物"@) == (3nat, '衍', '生', '物'));
    assert(mark("种族相关"@) == (4nat, '种', '族', '相'));
    assert(mark("属性相关"@) == (4nat, '属', '性', '相'));
    assert(mark("LP伤害"@) == (4nat, 'L', 'P', '伤'));
    assert(mark("LP回复"@) == (4nat, 'L', 'P', '回'));
    assert(mark("破坏耐性"@) == (4nat, '破', '坏', '耐'));
    assert(mark("效果耐性"@) == (4nat, '效', '果', '耐'));
    assert(mark("指示物"@) == (3nat, '指', '示', '物'));
    assert(mark("幸运"@) == (2nat, '幸', '运', ' '));
    assert(mark("融合相关"@) == (4nat, '融', '合', '相'));
    assert(mark("同调相关"@) == (4nat, '同', '调', '相'));
    assert(mark("超量相关"@) == (4nat, '超', '量', '相'));
    assert(mark("效果无效"@) == (4nat, '效', '果', '无'));
    let t = category_table();
    assert forall|i: u64| 24 <= i < 32 implies {
        &&& name_of(t, #[trigger] (1u64 << i)) is Some
        &&& key_of(t, name_of(t, 1u64 << i)->0) == Some(1u64 << i)
        &&& name_clean(name_of(t, 1u64 << i)->0, '、')
    } by {
        if i == 24 {
            assert(1u64 << i == 0x1000000);
            assert(name_of(t, 0x1000000) == Some("破坏耐性"@));
            assert(key_of(t, "破坏耐性"@) == Some(0x1000000u64));
            assert(name_clean("破坏耐性"@, '、'));
        } else if i == 25 {
            assert(1u64 << i == 0x2000000);
            assert(name_of(t, 0x2000000) == Some("效果耐性"@));
            assert(key_of(t, "效果耐性"@) == Some(0x2000000u64));
            assert(name_clean("效果耐性"@, '、'));
        } else if i == 26 {
            assert(1u64 << i == 0x4000000);
            assert(name_of(t, 0x4000000) == Some("指示物"@));
            assert(key_of(t, "指示物"@) == Some(0x4000000u64));
            assert(name_clean("指示物"@, '、'));
        } else if i == 27 {
            assert(1u64 << i == 0x8000000);
            assert(name_of(t, 0x8000000) == Some("幸运"@));
            assert(key_of(t, "幸运"@) == Some(0x8000000u64));
            assert(name_clean("幸运"@, '、'));
        } else if i == 28 {
            assert(1u64 << i == 0x10000000);
            assert(name_of(t, 0x10000000) == Some("融合相关"@));
            assert(key_of(t, "融合相关"@) == Some(0x10000000u64));
            assert(name_clean("融合相关"@, '、'));
        } else if i == 29 {
            assert(1u64 << i == 0x20000000);
            assert(name_of(t, 0x20000000) == Some("同调相关"@));
            assert(key_of(t, "同调相关"@) == Some(0x20000000u64));
            assert(name_clean("同调相关"@, '、'));
        } else if i == 30 {
            assert(1u64 << i == 0x40000000);
            assert(name_of(t, 0x40000000) == Some("超量相关"@));
            assert(key_of(t, "超量相关"@) == Some(0x40000000u64));
            assert(name_clean("超量相关"@, '、'));
        } else if i == 31 {
            assert(1u64 << i == 0x80000000);
            assert(name_of(t, 0x80000000) == Some("效果无效"@));
            assert(key_of(t, "效果无效"@) == Some(0x80000000u64));
            assert(name_clean("效果无效"@, '、'));
        }
    }
}

/// The names of the categories lead back to their flags and can stand in a
/// list joined by `、`.
pub proof fn lemma_category_names()
    ensures
        names_lead_back(category_table(), category_table(), 0xffffffff, 32),
        names_clean(category_table(), 0xffffffff, 32, '、'),
{
    lemma_category_names_0();
    lemma_category_names_8();
    lemma_category_names_16();
    lemma_category_names_24();
}

/// The glyphs of the link arrows lead back to their flags and hold no closing
/// bracket.
pub proof fn lemma_linkmarker_names()
    ensures
        names_lead_back(linkmarker_table(), linkmarker_table(), 0x1ef, 9),
        names_clean(linkmarker_table(), 0x1ef, 9, ']'),
{
    lemma_flag_values();
    reveal_strlit("↙");
    reveal_strlit("↓");
    reveal_strlit("↘");
    reveal_strlit("←");
    reveal_strlit("");
    reveal_strlit("→");
    reveal_strlit("↖");
    reveal_strlit("↑");
    reveal_strlit("↗");
    reveal_with_fuel(name_from, 10);
    reveal_with_fuel(key_from, 10);
    assert(mark("↙"@) == (1nat, '↙', ' ', ' '));
    assert(mark("↓"@) == (1nat, '↓', ' ', ' '));
    assert(mark("↘"@) == (1nat, '↘', ' ', ' '));
    assert(mark("←"@) == (1nat, '←', ' ', ' '));
    assert(mark(""@) == (0nat, ' ', ' ', ' '));
    assert(mark("→"@) == (1nat, '→', ' ', ' '));
    assert(mark("↖"@) == (1nat, '↖', ' ', ' '));
    assert(mark("↑"@) == (1nat, '↑', ' ', ' '));
    assert(mark("↗"@) == (1nat, '↗', ' ', ' '));
    let t = linkmarker_table();
    let r = linkmarker_table();
    assert(0x1efu64 & 0x10 == 0) by (bit_vector);
    assert forall|i: u64| i < 9 && 0x1efu64 & (#[trigger] (1u64 << i)) != 0 implies {
        &&& name_of(t, 1u64 << i) is Some
        &&& key_of(r, name_of(t, 1u64 << i)->0) == Some(1u64 << i)
        &&& name_clean(name_of(t, 1u64 << i)->0, ']')
    } by {
        if i == 0 {
            assert(1u64 << i == 0x1);
            assert(name_of(t, 0x1) == Some("↙"@));
            assert(key_of(r, "↙"@) == Some(0x1u64));
            assert(name_clean("↙"@, ']'));
        } else if i == 1 {
            assert(1u64 << i == 0x2);
            assert(name_of(t, 0x2) == Some("↓"@));
            assert(key_of(r, "↓"@) == Some(0x2u64));
            assert(name_clean("↓"@, ']'));
        } else if i == 2 {
            assert(1u64 << i == 0x4);
            assert(name_of(t, 0x4) == Some("↘"@));
            assert(key_of(r, "↘"@) == Some(0x4u64));
            assert(name_clean("↘"@, ']'));
        } else if i == 3 {
            assert(1u64 << i == 0x8);
            assert(name_of(t, 0x8) == Some("←"@));
            assert(key_of(r, "←"@) == Some(0x8u64));
            assert(name_clean("←"@, ']'));
        } else if i == 4 {
            assert(1u64 << i == 0x10);
        } else if i == 5 {
            assert(1u64 << i == 0x20);
            assert(name_of(t, 0x20) == Some("→"@));
            assert(key_of(r, "→"@) == Some(0x20u64));
            assert(name_clean("→"@, ']'));
        } else if i == 6 {
            assert(1u64 << i == 0x40);
            assert(name_of(t, 0x40) == Some("↖"@));
            assert(key_of(r, "↖"@) == Some(0x40u64));
            assert(name_clean("↖"@, ']'));
        } else if i == 7 {
            assert(1u64 << i == 0x80);
            assert(name_of(t, 0x80) == Some("↑"@));
            assert(key_of(r, "↑"@) == Some(0x80u64));
            assert(name_clean("↑"@, ']'));
        } else if i == 8 {
            assert(1u64 << i == 0x100);
            assert(name_of(t, 0x100) == Some("↗"@));
            assert(key_of(r, "↗"@) == Some(0x100u64));
            assert(name_clean("↗"@, ']'));
        }
    }
}

} // verus!
