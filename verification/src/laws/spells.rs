//! The kind of a spell or trap card: reading what was written gives it back.

use vstd::prelude::*;
use crate::constants::Type;
use crate::laws::tables::mark;
use crate::names::{key_from, key_of, name_from, name_of, type_table};
use crate::text::{ends_with, unbroken};
use crate::transformers::xyyz::{kind_prefix, kind_with, lemma_at_least, type_of_text, type_text};

verus! {

/// Whether the kinds are those of a spell or trap card that shows them all:
/// no monster, a spell or a trap, and beside that nothing, or one kind other
/// than Normal that has a name.
pub open spec fn is_plain_kind(bits: u32) -> bool {
    let base = if bits & Type::SPELL == Type::SPELL {
        Type::SPELL
    } else {
        Type::TRAP
    };
    let rest = (bits - base) as u32;
    &&& bits & Type::MONSTER == 0
    &&& bits & base == base
    &&& rest == 0 || (rest != Type::NORMAL && name_of(type_table(), rest as u64) is Some)
}

/// A name in the table of kinds leads back to its kind, is not empty and
/// holds no line break; the kinds that have a name; and `通常` is the name
/// of the Normal kind.
pub proof fn lemma_kind_names(key: u64)
    ensures
        match name_of(type_table(), key) {
            Some(name) => {
                &&& key_of(type_table(), name) == Some(key)
                &&& name.len() > 0
                &&& unbroken(name)
                &&& key == 0x10 || key == 0x1 || key == 0x2 || key == 0x4 || key == 0x20
                    || key == 0x40 || key == 0x80 || key == 0x100 || key == 0x200 || key == 0x400
                    || key == 0x800 || key == 0x1000 || key == 0x2000 || key == 0x4000
                    || key == 0x10000 || key == 0x20000 || key == 0x40000 || key == 0x80000
                    || key == 0x100000 || key == 0x200000 || key == 0x400000 || key == 0x800000
                    || key == 0x1000000 || key == 0x2000000 || key == 0x4000000
            },
            None => true,
        },
        key_of(type_table(), "通常"@) == Some(0x10u64),
{
    reveal_strlit("怪兽");
    reveal_strlit("魔法");
    reveal_strlit("陷阱");
    reveal_strlit("通常");
    reveal_strlit("效果");
    reveal_strlit("融合");
    reveal_strlit("仪式");
    reveal_strlit("陷阱怪兽");
    reveal_strlit("灵魂");
    reveal_strlit("同盟");
    reveal_strlit("二重");
    reveal_strlit("调整");
    reveal_strlit("同调");
    reveal_strlit("衍生物");
    reveal_strlit("速攻");
    reveal_strlit("永续");
    reveal_strlit("装备");
    reveal_strlit("场地");
    reveal_strlit("反击");
    reveal_strlit("反转");
    reveal_strlit("卡通");
    reveal_strlit("超量");
    reveal_strlit("灵摆");
    reveal_strlit("特殊召唤");
    reveal_strlit("连接");
    reveal_with_fuel(name_from, 26);
    reveal_with_fuel(key_from, 26);
    assert(mark("怪兽"@) == (2nat, '怪', '兽', ' '));
    assert(mark("魔法"@) == (2nat, '魔', '法', ' '));
    assert(mark("陷阱"@) == (2nat, '陷', '阱', ' '));
    assert(mark("通常"@) == (2nat, '通', '常', ' '));
    assert(mark("效果"@) == (2nat, '效', '果', ' '));
    assert(mark("融合"@) == (2nat, '融', '合', ' '));
    assert(mark("仪式"@) == (2nat, '仪', '式', ' '));
    assert(mark("陷阱怪兽"@) == (4nat, '陷', '阱', '怪'));
    assert(mark("灵魂"@) == (2nat, '灵', '魂', ' '));
    assert(mark("同盟"@) == (2nat, '同', '盟', ' '));
    assert(mark("二重"@) == (2nat, '二', '重', ' '));
    assert(mark("调整"@) == (2nat, '调', '整', ' '));
    assert(mark("同调"@) == (2nat, '同', '调', ' '));
    assert(mark("衍生物"@) == (3nat, '衍', '生', '物'));
    assert(mark("速攻"@) == (2nat, '速', '攻', ' '));
    assert(mark("永续"@) == (2nat, '永', '续', ' '));
    assert(mark("装备"@) == (2nat, '装', '备', ' '));
    assert(mark("场地"@) == (2nat, '场', '地', ' '));
    assert(mark("反击"@) == (2nat, '反', '击', ' '));
    assert(mark("反转"@) == (2nat, '反', '转', ' '));
    assert(mark("卡通"@) == (2nat, '卡', '通', ' '));
    assert(mark("超量"@) == (2nat, '超', '量', ' '));
    assert(mark("灵摆"@) == (2nat, '灵', '摆', ' '));
    assert(mark("特殊召唤"@) == (4nat, '特', '殊', '召'));
    assert(mark("连接"@) == (2nat, '连', '接', ' '));
    let t = type_table();
    assert(key_of(t, "通常"@) == Some(0x10u64));
    if key == 0x1 {
        assert(name_of(t, 0x1) == Some("怪兽"@));
        assert(key_of(t, "怪兽"@) == Some(0x1u64));
        assert(unbroken("怪兽"@));
    } else if key == 0x2 {
        assert(name_of(t, 0x2) == Some("魔法"@));
        assert(key_of(t, "魔法"@) == Some(0x2u64));
        assert(unbroken("魔法"@));
    } else if key == 0x4 {
        assert(name_of(t, 0x4) == Some("陷阱"@));
        assert(key_of(t, "陷阱"@) == Some(0x4u64));
        assert(unbroken("陷阱"@));
    } else if key == 0x10 {
        assert(name_of(t, 0x10) == Some("通常"@));
        assert(key_of(t, "通常"@) == Some(0x10u64));
        assert(unbroken("通常"@));
    } else if key == 0x20 {
        assert(name_of(t, 0x20) == Some("效果"@));
        assert(key_of(t, "效果"@) == Some(0x20u64));
        assert(unbroken("效果"@));
    } else if key == 0x40 {
        assert(name_of(t, 0x40) == Some("融合"@));
        assert(key_of(t, "融合"@) == Some(0x40u64));
        assert(unbroken("融合"@));
    } else if key == 0x80 {
        assert(name_of(t, 0x80) == Some("仪式"@));
        assert(key_of(t, "仪式"@) == Some(0x80u64));
        assert(unbroken("仪式"@));
    } else if key == 0x100 {
        assert(name_of(t, 0x100) == Some("陷阱怪兽"@));
        assert(key_of(t, "陷阱怪兽"@) == Some(0x100u64));
        assert(unbroken("陷阱怪兽"@));
    } else if key == 0x200 {
        assert(name_of(t, 0x200) == Some("灵魂"@));
        assert(key_of(t, "灵魂"@) == Some(0x200u64));
        assert(unbroken("灵魂"@));
    } else if key == 0x400 {
        assert(name_of(t, 0x400) == Some("同盟"@));
        assert(key_of(t, "同盟"@) == Some(0x400u64));
        assert(unbroken("同盟"@));
    } else if key == 0x800 {
        assert(name_of(t, 0x800) == Some("二重"@));
        assert(key_of(t, "二重"@) == Some(0x800u64));
        assert(unbroken("二重"@));
    } else if key == 0x1000 {
        assert(name_of(t, 0x1000) == Some("调整"@));
        assert(key_of(t, "调整"@) == Some(0x1000u64));
        assert(unbroken("调整"@));
    } else if key == 0x2000 {
        assert(name_of(t, 0x2000) == Some("同调"@));
        assert(key_of(t, "同调"@) == Some(0x2000u64));
        assert(unbroken("同调"@));
    } else if key == 0x4000 {
        assert(name_of(t, 0x4000) == Some("衍生物"@));
        assert(key_of(t, "衍生物"@) == Some(0x4000u64));
        assert(unbroken("衍生物"@));
    } else if key == 0x10000 {
        assert(name_of(t, 0x10000) == Some("速攻"@));
        assert(key_of(t, "速攻"@) == Some(0x10000u64));
        assert(unbroken("速攻"@));
    } else if key == 0x20000 {
        assert(name_of(t, 0x20000) == Some("永续"@));
        assert(key_of(t, "永续"@) == Some(0x20000u64));
        assert(unbroken("永续"@));
    } else if key == 0x40000 {
        assert(name_of(t, 0x40000) == Some("装备"@));
        assert(key_of(t, "装备"@) == Some(0x40000u64));
        assert(unbroken("装备"@));
    } else if key == 0x80000 {
        assert(name_of(t, 0x80000) == Some("场地"@));
        assert(key_of(t, "场地"@) == Some(0x80000u64));
        assert(unbroken("场地"@));
    } else if key == 0x100000 {
        assert(name_of(t, 0x100000) == Some("反击"@));
        assert(key_of(t, "反击"@) == Some(0x100000u64));
        assert(unbroken("反击"@));
    } else if key == 0x200000 {
        assert(name_of(t, 0x200000) == Some("反转"@));
        assert(key_of(t, "反转"@) == Some(0x200000u64));
        assert(unbroken("反转"@));
    } else if key == 0x400000 {
        assert(name_of(t, 0x400000) == Some("卡通"@));
        assert(key_of(t, "卡通"@) == Some(0x400000u64));
        assert(unbroken("卡通"@));
    } else if key == 0x800000 {
        assert(name_of(t, 0x800000) == Some("超量"@));
        assert(key_of(t, "超量"@) == Some(0x800000u64));
        assert(unbroken("超量"@));
    } else if key == 0x1000000 {
        assert(name_of(t, 0x1000000) == Some("灵摆"@));
        assert(key_of(t, "灵摆"@) == Some(0x1000000u64));
        assert(unbroken("灵摆"@));
    } else if key == 0x2000000 {
        assert(name_of(t, 0x2000000) == Some("特殊召唤"@));
        assert(key_of(t, "特殊召唤"@) == Some(0x2000000u64));
        assert(unbroken("特殊召唤"@));
    } else if key == 0x4000000 {
        assert(name_of(t, 0x4000000) == Some("连接"@));
        assert(key_of(t, "连接"@) == Some(0x4000000u64));
        assert(unbroken("连接"@));
    }
}

/// The kinds of a plain spell or trap card are the kind beside the spell or
/// trap united with it, and hold no Normal kind.
proof fn lemma_plain_bits(bits: u32, base: u32, rest: u32)
    by (bit_vector)
    requires
        base == 2u32 || base == 4u32,
        bits & base == base,
        bits == rest + base,
        rest == 0 || rest == 0x1 || rest == 0x2 || rest == 0x4 || rest == 0x20 || rest == 0x40
            || rest == 0x80 || rest == 0x100 || rest == 0x200 || rest == 0x400 || rest == 0x800
            || rest == 0x1000 || rest == 0x2000 || rest == 0x4000 || rest == 0x10000
            || rest == 0x20000 || rest == 0x40000 || rest == 0x80000 || rest == 0x100000
            || rest == 0x200000 || rest == 0x400000 || rest == 0x800000 || rest == 0x1000000
            || rest == 0x2000000 || rest == 0x4000000,
    ensures
        (rest | base) & !0x10u32 & 0x7ff7ff7u32 == bits,
        (0x10u32 | base) & !0x10u32 & 0x7ff7ff7u32 == base,
{
}

/// A text before a name of two characters ends with that name and with no
/// other name of two characters, and without the name it is the text.
proof fn lemma_named_end(head: Seq<char>, tail: Seq<char>, other: Seq<char>)
    requires
        tail.len() == 2,
        other.len() == 2,
        tail[1] != other[1],
    ensures
        ends_with(head + tail, tail),
        !ends_with(head + tail, other),
        (head + tail).subrange(0, (head + tail).len() - 2) == head,
{
    let s = head + tail;
    let n = s.len() as int;
    assert(s.subrange(n - 2, n) =~= tail);
    assert(s.subrange(n - 2, n)[1] == tail[1]);
    assert(s.subrange(0, n - 2) =~= head);
}

/// Reading the kind that was written for a plain spell or trap card gives
/// its kinds back.
pub proof fn lemma_kind_round_trip(bits: u32)
    requires
        is_plain_kind(bits),
    ensures
        type_of_text(type_text(bits)) == bits,
{
    reveal_strlit("魔法");
    reveal_strlit("陷阱");
    reveal_strlit("通常");
    let base = if bits & Type::SPELL == Type::SPELL {
        Type::SPELL
    } else {
        Type::TRAP
    };
    lemma_at_least(bits, base);
    let rest = (bits - base) as u32;
    lemma_kind_names(rest as u64);
    lemma_kind_names(0x10);
    lemma_plain_bits(bits, base, rest);
    let head = kind_prefix(rest);
    if base == Type::SPELL {
        lemma_named_end(head, "魔法"@, "陷阱"@);
        assert(type_text(bits) == head + "魔法"@);
    } else {
        lemma_named_end(head, "陷阱"@, "魔法"@);
        assert(type_text(bits) == head + "陷阱"@);
    }
    if rest == 0 {
        assert(head == "通常"@);
        assert(kind_with(head, base) == base);
    } else {
        assert(key_of(type_table(), head) == Some(rest as u64));
        assert(kind_with(head, base) == bits);
    }
}

} // verus!
