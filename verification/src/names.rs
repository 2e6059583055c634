//! The name tables of the flag sets, and the conversion between a set of
//! flags and the names of its members.

use vstd::prelude::*;
use crate::text::{chars_of, seq_eq, views};

verus! {

/// A name table in executable form: keys with their names, in table order.
pub type Names = Vec<(u64, Vec<char>)>;

/// The mathematical model of a name table.
pub type NameTable = Seq<(u64, Seq<char>)>;

/// The model of an executable name table.
pub open spec fn table_view(t: Seq<(u64, Vec<char>)>) -> NameTable {
    t.map_values(|e: (u64, Vec<char>)| (e.0, e.1@))
}

/// The name of the first entry at or after `at` whose key is `key`.
pub open spec fn name_from(table: NameTable, key: u64, at: int) -> Option<Seq<char>>
    decreases table.len() - at,
{
    if at < 0 || at >= table.len() {
        None
    } else if table[at].0 == key {
        Some(table[at].1)
    } else {
        name_from(table, key, at + 1)
    }
}

/// The name that the table gives to `key`.
pub open spec fn name_of(table: NameTable, key: u64) -> Option<Seq<char>> {
    name_from(table, key, 0)
}

/// The key of the first entry at or after `at` whose name is `name`.
pub open spec fn key_from(table: NameTable, name: Seq<char>, at: int) -> Option<u64>
    decreases table.len() - at,
{
    if at < 0 || at >= table.len() {
        None
    } else if table[at].1 == name {
        Some(table[at].0)
    } else {
        key_from(table, name, at + 1)
    }
}

/// The key of the first entry of the table whose name is `name`.
pub open spec fn key_of(table: NameTable, name: Seq<char>) -> Option<u64> {
    key_from(table, name, 0)
}

/// The names of the flags of `bits` among the lowest `n` bit positions, in
/// ascending order of the bits. A flag without a name in the table has none
/// here.
pub open spec fn flag_names(bits: u64, table: NameTable, n: nat) -> Seq<Seq<char>>
    decreases n,
{
    if n == 0 {
        seq![]
    } else {
        let low = flag_names(bits, table, (n - 1) as nat);
        let flag = 1u64 << ((n - 1) as u64);
        if bits & flag != 0 {
            match name_of(table, flag) {
                Some(name) => low.push(name),
                None => low,
            }
        } else {
            low
        }
    }
}

/// The union of the keys that the table gives to the tokens, each cut to
/// `mask`. A token without a key in the table adds nothing.
pub open spec fn decode_flags(tokens: Seq<Seq<char>>, table: NameTable, mask: u64) -> u64
    decreases tokens.len(),
{
    if tokens.len() == 0 {
        0
    } else {
        let rest = decode_flags(tokens.drop_last(), table, mask);
        match key_of(table, tokens.last()) {
            Some(key) => rest | (key & mask),
            None => rest,
        }
    }
}

/// The display names of the attributes; key 0 stands for "none".
pub open spec fn attribute_table() -> NameTable {
    seq![
        (0x0u64, "无"@),
        (0x1u64, "地"@),
        (0x2u64, "水"@),
        (0x4u64, "炎"@),
        (0x8u64, "风"@),
        (0x10u64, "光"@),
        (0x20u64, "暗"@),
        (0x40u64, "神"@),
    ]
}

/// The display names of the races; key 0 stands for "none".
pub open spec fn race_table() -> NameTable {
    seq![
        (0x0u64, "无种族"@),
        (0x1u64, "战士"@),
        (0x2u64, "魔法使"@),
        (0x4u64, "天使"@),
        (0x8u64, "恶魔"@),
        (0x10u64, "不死"@),
        (0x20u64, "机械"@),
        (0x40u64, "水"@),
        (0x80u64, "炎"@),
        (0x100u64, "岩石"@),
        (0x200u64, "兽战士"@),
        (0x400u64, "植物"@),
        (0x800u64, "昆虫"@),
        (0x1000u64, "雷"@),
        (0x2000u64, "龙"@),
        (0x4000u64, "兽"@),
        (0x8000u64, "兽战士"@),
        (0x10000u64, "恐龙"@),
        (0x20000u64, "鱼"@),
        (0x40000u64, "海龙"@),
        (0x80000u64, "爬行类"@),
        (0x100000u64, "念动力"@),
        (0x200000u64, "神"@),
        (0x400000u64, "创世神"@),
        (0x800000u64, "幻龙"@),
        (0x1000000u64, "电子界"@),
        (0x2000000u64, "幻想魔"@),
    ]
}

/// The display names of the card kinds.
pub open spec fn type_table() -> NameTable {
    seq![
        (0x1u64, "怪兽"@),
        (0x2u64, "魔法"@),
        (0x4u64, "陷阱"@),
        (0x10u64, "通常"@),
        (0x20u64, "效果"@),
        (0x40u64, "融合"@),
        (0x80u64, "仪式"@),
        (0x100u64, "陷阱怪兽"@),
        (0x200u64, "灵魂"@),
        (0x400u64, "同盟"@),
        (0x800u64, "二重"@),
        (0x1000u64, "调整"@),
        (0x2000u64, "同调"@),
        (0x4000u64, "衍生物"@),
        (0x10000u64, "速攻"@),
        (0x20000u64, "永续"@),
        (0x40000u64, "装备"@),
        (0x80000u64, "场地"@),
        (0x100000u64, "反击"@),
        (0x200000u64, "反转"@),
        (0x400000u64, "卡通"@),
        (0x800000u64, "超量"@),
        (0x1000000u64, "灵摆"@),
        (0x2000000u64, "特殊召唤"@),
        (0x4000000u64, "连接"@),
    ]
}

/// The label of an extra-deck monster without effect, read as the Normal flag.
pub open spec fn noneffect_table() -> NameTable {
    seq![
        (0x10u64, "非效果"@),
    ]
}

/// The glyphs of the link arrows; key 16, the centre, has an empty glyph.
pub open spec fn linkmarker_table() -> NameTable {
    seq![
        (0x1u64, "↙"@),
        (0x2u64, "↓"@),
        (0x4u64, "↘"@),
        (0x8u64, "←"@),
        (0x10u64, ""@),
        (0x20u64, "→"@),
        (0x40u64, "↖"@),
        (0x80u64, "↑"@),
        (0x100u64, "↗"@),
    ]
}

/// The display names of the rule sets, of single flags and of whole combinations.
pub open spec fn ot_table() -> NameTable {
    seq![
        (0x1u64, "OCG"@),
        (0x2u64, "TCG"@),
        (0x3u64, "OT"@),
        (0x4u64, "Custom"@),
        (0xbu64, "SC"@),
        (0x8u64, "SCONLY"@),
        (0x400u64, "Draft"@),
    ]
}

/// The display names of the effect classifications.
pub open spec fn category_table() -> NameTable {
    seq![
        (0x1u64, "魔陷破坏"@),
        (0x2u64, "怪兽破坏"@),
        (0x4u64, "卡片除外"@),
        (0x8u64, "送去墓地"@),
        (0x10u64, "返回手卡"@),
        (0x20u64, "返回卡组"@),
        (0x40u64, "手卡破坏"@),
        (0x80u64, "卡组破坏"@),
        (0x100u64, "抽卡辅助"@),
        (0x200u64, "卡组检索"@),
        (0x400u64, "卡片回收"@),
        (0x800u64, "表示形式"@),
        (0x1000u64, "控制权"@),
        (0x2000u64, "攻守变化"@),
        (0x4000u64, "穿刺伤害"@),
        (0x8000u64, "多次攻击"@),
        (0x10000u64, "攻击限制"@),
        (0x20000u64, "直接攻击"@),
        (0x40000u64, "特殊召唤"@),
        (0x80000u64, "衍生物"@),
        (0x100000u64, "种族相关"@),
        (0x200000u64, "属性相关"@),
        (0x400000u64, "LP伤害"@),
        (0x800000u64, "LP回复"@),
        (0x1000000u64, "破坏耐性"@),
        (0x2000000u64, "效果耐性"@),
        (0x4000000u64, "指示物"@),
        (0x8000000u64, "幸运"@),
        (0x10000000u64, "融合相关"@),
        (0x20000000u64, "同调相关"@),
        (0x40000000u64, "超量相关"@),
        (0x80000000u64, "效果无效"@),
    ]
}

/// Adds one entry at the end of a table.
fn add_entry(table: &mut Names, key: u64, name: &str)
    ensures
        table_view(final(table)@) == table_view(old(table)@).push((key, name@)),
{
    let chars = chars_of(name);
    proof {
        assert(table_view(table@.push((key, chars))) =~= table_view(table@).push((key, name@)));
    }
    table.push((key, chars));
}

/// The table of the attributes.
pub fn attribute_names() -> (t: Names)
    ensures
        table_view(t@) == attribute_table(),
{
    let mut t: Names = Vec::new();
    assert(table_view(t@) =~= Seq::<(u64, Seq<char>)>::empty());
    add_entry(&mut t, 0x0, "无");
    add_entry(&mut t, 0x1, "地");
    add_entry(&mut t, 0x2, "水");
    add_entry(&mut t, 0x4, "炎");
    add_entry(&mut t, 0x8, "风");
    add_entry(&mut t, 0x10, "光");
    add_entry(&mut t, 0x20, "暗");
    add_entry(&mut t, 0x40, "神");
    assert(table_view(t@) =~= attribute_table());
    t
}

/// The table of the races.
pub fn race_names() -> (t: Names)
    ensures
        table_view(t@) == race_table(),
{
    let mut t: Names = Vec::new();
    assert(table_view(t@) =~= Seq::<(u64, Seq<char>)>::empty());
    add_entry(&mut t, 0x0, "无种族");
    add_entry(&mut t, 0x1, "战士");
    add_entry(&mut t, 0x2, "魔法使");
    add_entry(&mut t, 0x4, "天使");
    add_entry(&mut t, 0x8, "恶魔");
    add_entry(&mut t, 0x10, "不死");
    add_entry(&mut t, 0x20, "机械");
    add_entry(&mut t, 0x40, "水");
    add_entry(&mut t, 0x80, "炎");
    add_entry(&mut t, 0x100, "岩石");
    add_entry(&mut t, 0x200, "兽战士");
    add_entry(&mut t, 0x400, "植物");
    add_entry(&mut t, 0x800, "昆虫");
    add_entry(&mut t, 0x1000, "雷");
    add_entry(&mut t, 0x2000, "龙");
    add_entry(&mut t, 0x4000, "兽");
    add_entry(&mut t, 0x8000, "兽战士");
    add_entry(&mut t, 0x10000, "恐龙");
    add_entry(&mut t, 0x20000, "鱼");
    add_entry(&mut t, 0x40000, "海龙");
    add_entry(&mut t, 0x80000, "爬行类");
    add_entry(&mut t, 0x100000, "念动力");
    add_entry(&mut t, 0x200000, "神");
    add_entry(&mut t, 0x400000, "创世神");
    add_entry(&mut t, 0x800000, "幻龙");
    add_entry(&mut t, 0x1000000, "电子界");
    add_entry(&mut t, 0x2000000, "幻想魔");
    assert(table_view(t@) =~= race_table());
    t
}

/// The table of the kinds.
pub fn type_names() -> (t: Names)
    ensures
        table_view(t@) == type_table(),
{
    let mut t: Names = Vec::new();
    assert(table_view(t@) =~= Seq::<(u64, Seq<char>)>::empty());
    add_entry(&mut t, 0x1, "怪兽");
    add_entry(&mut t, 0x2, "魔法");
    add_entry(&mut t, 0x4, "陷阱");
    add_entry(&mut t, 0x10, "通常");
    add_entry(&mut t, 0x20, "效果");
    add_entry(&mut t, 0x40, "融合");
    add_entry(&mut t, 0x80, "仪式");
    add_entry(&mut t, 0x100, "陷阱怪兽");
    add_entry(&mut t, 0x200, "灵魂");
    add_entry(&mut t, 0x400, "同盟");
    add_entry(&mut t, 0x800, "二重");
    add_entry(&mut t, 0x1000, "调整");
    add_entry(&mut t, 0x2000, "同调");
    add_entry(&mut t, 0x4000, "衍生物");
    add_entry(&mut t, 0x10000, "速攻");
    add_entry(&mut t, 0x20000, "永续");
    add_entry(&mut t, 0x40000, "装备");
    add_entry(&mut t, 0x80000, "场地");
    add_entry(&mut t, 0x100000, "反击");
    add_entry(&mut t, 0x200000, "反转");
    add_entry(&mut t, 0x400000, "卡通");
    add_entry(&mut t, 0x800000, "超量");
    add_entry(&mut t, 0x1000000, "灵摆");
    add_entry(&mut t, 0x2000000, "特殊召唤");
    add_entry(&mut t, 0x4000000, "连接");
    assert(table_view(t@) =~= type_table());
    t
}

/// The table of the label `非效果`.
pub fn noneffect_names() -> (t: Names)
    ensures
        table_view(t@) == noneffect_table(),
{
    let mut t: Names = Vec::new();
    assert(table_view(t@) =~= Seq::<(u64, Seq<char>)>::empty());
    add_entry(&mut t, 0x10, "非效果");
    assert(table_view(t@) =~= noneffect_table());
    t
}

/// The table of the link arrows.
pub fn linkmarker_names() -> (t: Names)
    ensures
        table_view(t@) == linkmarker_table(),
{
    let mut t: Names = Vec::new();
    assert(table_view(t@) =~= Seq::<(u64, Seq<char>)>::empty());
    add_entry(&mut t, 0x1, "↙");
    add_entry(&mut t, 0x2, "↓");
    add_entry(&mut t, 0x4, "↘");
    add_entry(&mut t, 0x8, "←");
    add_entry(&mut t, 0x10, "");
    add_entry(&mut t, 0x20, "→");
    add_entry(&mut t, 0x40, "↖");
    add_entry(&mut t, 0x80, "↑");
    add_entry(&mut t, 0x100, "↗");
    assert(table_view(t@) =~= linkmarker_table());
    t
}

/// The table of the rule sets.
pub fn ot_names() -> (t: Names)
    ensures
        table_view(t@) == ot_table(),
{
    let mut t: Names = Vec::new();
    assert(table_view(t@) =~= Seq::<(u64, Seq<char>)>::empty());
    add_entry(&mut t, 0x1, "OCG");
    add_entry(&mut t, 0x2, "TCG");
    add_entry(&mut t, 0x3, "OT");
    add_entry(&mut t, 0x4, "Custom");
    add_entry(&mut t, 0xb, "SC");
    add_entry(&mut t, 0x8, "SCONLY");
    add_entry(&mut t, 0x400, "Draft");
    assert(table_view(t@) =~= ot_table());
    t
}

/// The table of the categories.
pub fn category_names() -> (t: Names)
    ensures
        table_view(t@) == category_table(),
{
    let mut t: Names = Vec::new();
    assert(table_view(t@) =~= Seq::<(u64, Seq<char>)>::empty());
    add_entry(&mut t, 0x1, "魔陷破坏");
    add_entry(&mut t, 0x2, "怪兽破坏");
    add_entry(&mut t, 0x4, "卡片除外");
    add_entry(&mut t, 0x8, "送去墓地");
    add_entry(&mut t, 0x10, "返回手卡");
    add_entry(&mut t, 0x20, "返回卡组");
    add_entry(&mut t, 0x40, "手卡破坏");
    add_entry(&mut t, 0x80, "卡组破坏");
    add_entry(&mut t, 0x100, "抽卡辅助");
    add_entry(&mut t, 0x200, "卡组检索");
    add_entry(&mut t, 0x400, "卡片回收");
    add_entry(&mut t, 0x800, "表示形式");
    add_entry(&mut t, 0x1000, "控制权");
    add_entry(&mut t, 0x2000, "攻守变化");
    add_entry(&mut t, 0x4000, "穿刺伤害");
    add_entry(&mut t, 0x8000, "多次攻击");
    add_entry(&mut t, 0x10000, "攻击限制");
    add_entry(&mut t, 0x20000, "直接攻击");
    add_entry(&mut t, 0x40000, "特殊召唤");
    add_entry(&mut t, 0x80000, "衍生物");
    add_entry(&mut t, 0x100000, "种族相关");
    add_entry(&mut t, 0x200000, "属性相关");
    add_entry(&mut t, 0x400000, "LP伤害");
    add_entry(&mut t, 0x800000, "LP回复");
    add_entry(&mut t, 0x1000000, "破坏耐性");
    add_entry(&mut t, 0x2000000, "效果耐性");
    add_entry(&mut t, 0x4000000, "指示物");
    add_entry(&mut t, 0x8000000, "幸运");
    add_entry(&mut t, 0x10000000, "融合相关");
    add_entry(&mut t, 0x20000000, "同调相关");
    add_entry(&mut t, 0x40000000, "超量相关");
    add_entry(&mut t, 0x80000000, "效果无效");
    assert(table_view(t@) =~= category_table());
    t
}

/// The name that the table gives to `key`.
pub fn find_name(table: &Names, key: u64) -> (r: Option<Vec<char>>)
    ensures
        match r {
            Some(name) => name_of(table_view(table@), key) == Some(name@),
            None => name_of(table_view(table@), key) is None,
        },
{
    let mut i: usize = 0;
    while i < table.len()
        invariant
            i <= table.len(),
            name_of(table_view(table@), key) == name_from(table_view(table@), key, i as int),
        decreases table.len() - i,
    {
        if table[i].0 == key {
            return Some(table[i].1.clone());
        }
        i += 1;
    }
    None
}

/// The key of the first entry of the table whose name is `name`.
pub fn find_key(table: &Names, name: &Vec<char>) -> (r: Option<u64>)
    ensures
        r == key_of(table_view(table@), name@),
{
    let mut i: usize = 0;
    while i < table.len()
        invariant
            i <= table.len(),
            key_of(table_view(table@), name@) == key_from(table_view(table@), name@, i as int),
        decreases table.len() - i,
    {
        if seq_eq(&table[i].1, name) {
            return Some(table[i].0);
        }
        i += 1;
    }
    None
}

/// The names of the flags of `bits` among the lowest `n` bit positions.
pub(crate) fn names_of_flags(bits: u64, table: &Names, n: u32) -> (r: Vec<Vec<char>>)
    requires
        n <= 64,
    ensures
        views(r@) == flag_names(bits, table_view(table@), n as nat),
        r@.len() <= n,
{
    let mut r: Vec<Vec<char>> = Vec::new();
    let mut i: u32 = 0;
    assert(views(r@) =~= Seq::<Seq<char>>::empty());
    while i < n
        invariant
            i <= n <= 64,
            r@.len() <= i,
            views(r@) == flag_names(bits, table_view(table@), i as nat),
        decreases n - i,
    {
        let flag: u64 = 1u64 << (i as u64);
        if bits & flag != 0 {
            match find_name(table, flag) {
                Some(name) => {
                    proof {
                        assert(views(r@.push(name)) =~= views(r@).push(name@));
                    }
                    r.push(name);
                },
                None => {},
            }
        }
        i += 1;
    }
    r
}

/// The union of the keys that the table gives to the tokens, each cut to
/// `mask`.
pub fn flags_of_names(tokens: &Vec<Vec<char>>, table: &Names, mask: u64) -> (r: u64)
    ensures
        r == decode_flags(views(tokens@), table_view(table@), mask),
{
    let mut r: u64 = 0;
    let mut i: usize = 0;
    while i < tokens.len()
        invariant
            i <= tokens.len(),
            r == decode_flags(views(tokens@).take(i as int), table_view(table@), mask),
        decreases tokens.len() - i,
    {
        proof {
            let next = views(tokens@).take(i + 1);
            assert(next.drop_last() =~= views(tokens@).take(i as int));
            assert(next.last() == tokens@[i as int]@);
        }
        match find_key(table, &tokens[i]) {
            Some(key) => {
                r = r | (key & mask);
            },
            None => {},
        }
        i += 1;
    }
    assert(views(tokens@).take(tokens@.len() as int) =~= views(tokens@));
    r
}

} // verus!
