//! The subtype list of a monster: which kinds it shows, and that they read
//! back.

use vstd::prelude::*;
use crate::constants::Type;
use crate::names::{decode_flags, flag_names, key_of, noneffect_table, type_table};
use crate::laws::tables::{
    lemma_decode_concat, lemma_decode_names, lemma_decode_push, lemma_flag_names_clean,
    lemma_type_names, name_clean,
};
use crate::text::{
    has_char, join, lemma_join_after_empty, lemma_non_empty_after_empty, lemma_split_join,
    non_empty, split,
};
use crate::transformers::xyyz::{
    extra_kinds, minor_kinds, model_kinds, subtype_flags, subtype_names, subtype_of_text,
    subtype_text,
};

verus! {

/// The kinds that the subtype list of a monster stands for. The list shows
/// the model kinds and the minor kinds. For an extra-deck monster it shows
/// no Normal kind, and tells whether the monster has an effect; any other
/// monster is read as one with an effect unless the list shows Token or
/// Normal.
pub open spec fn shown_subtype(bits: u32) -> u32 {
    let printable = bits & (model_kinds() | minor_kinds());
    if bits & extra_kinds() != 0 {
        (printable & !Type::NORMAL) | (bits & Type::EFFECT)
    } else if printable & (Type::TOKEN | Type::NORMAL) == 0 {
        printable | Type::EFFECT
    } else {
        printable
    }
}

/// The kinds that a subtype list shows are kinds of the table.
proof fn lemma_shown_bits(bits: u32, shown: u32, minor: u32, s64: u64, m64: u64)
    by (bit_vector)
    requires
        shown == (if bits & extra_kinds() != 0 {
            bits & model_kinds() & !Type::NORMAL
        } else {
            bits & model_kinds()
        }),
        minor == bits & minor_kinds(),
        s64 == shown as u64,
        m64 == minor as u64,
    ensures
        s64 & !0x7ff7ff7u64 == 0,
        m64 & !0x7ff7ff7u64 == 0,
        s64 & (((1u64 << 27u64) - 1) as u64) == s64,
        m64 & (((1u64 << 27u64) - 1) as u64) == m64,
        bits & extra_kinds() != 0 ==> s64 != 0,
{
}

/// The names of a subtype list, read with `非效果` as Normal, give the kinds
/// that were shown.
pub proof fn lemma_subtype_names_decode(bits: u32)
    ensures
        decode_flags(subtype_names(bits), noneffect_table() + type_table(), 0x7ff7ff7)
            == (if bits & extra_kinds() != 0 {
            (bits & model_kinds() & !Type::NORMAL) as u64 | (if bits & Type::EFFECT
                != Type::EFFECT {
                0x10u64
            } else {
                0u64
            })
        } else {
            (bits & model_kinds()) as u64
        }) | (bits & minor_kinds()) as u64,
        forall|i: int|
            0 <= i < subtype_names(bits).len() ==> name_clean(
                #[trigger] subtype_names(bits)[i],
                '/',
            ),
        bits & extra_kinds() != 0 ==> subtype_names(bits).len() >= 1,
{
    let table = type_table();
    let reader = noneffect_table() + type_table();
    let mask = 0x7ff7ff7u64;
    let extra = bits & extra_kinds() != 0;
    let shown: u32 = if extra {
        bits & model_kinds() & !Type::NORMAL
    } else {
        bits & model_kinds()
    };
    let minor: u32 = bits & minor_kinds();
    let label: Seq<Seq<char>> = if extra && bits & Type::EFFECT != Type::EFFECT {
        seq!["非效果"@]
    } else {
        seq![]
    };
    let a = flag_names(shown as u64, table, 27);
    let b = flag_names(minor as u64, table, 27);
    lemma_type_names();
    let s64 = shown as u64;
    let m64 = minor as u64;
    lemma_shown_bits(bits, shown, minor, s64, m64);
    lemma_decode_names(s64, table, reader, mask, 27);
    lemma_decode_names(m64, table, reader, mask, 27);
    lemma_flag_names_clean(s64, table, reader, mask, 27, '/');
    lemma_flag_names_clean(m64, table, reader, mask, 27, '/');
    lemma_decode_concat(a, label, reader, mask);
    lemma_decode_concat(a + label, b, reader, mask);
    reveal_strlit("非效果");
    if label.len() > 0 {
        lemma_label_key();
        lemma_decode_push(Seq::<Seq<char>>::empty(), "非效果"@, reader, mask);
        assert(Seq::<Seq<char>>::empty().push("非效果"@) =~= label);
        assert(0u64 | (0x10u64 & 0x7ff7ff7u64) == 0x10u64) by (bit_vector);
        assert(name_clean("非效果"@, '/'));
    } else {
        let d = decode_flags(a, reader, mask);
        assert(d | 0 == d) by (bit_vector);
    }
    let names = subtype_names(bits);
    assert(names == a + label + b);
    assert forall|i: int| 0 <= i < names.len() implies name_clean(#[trigger] names[i], '/') by {
        if i < a.len() {
            assert(names[i] == a[i]);
        } else if i < a.len() + label.len() {
            assert(names[i] == label[i - a.len()]);
        } else {
            assert(names[i] == b[i - a.len() - label.len()]);
        }
    }
}

/// `非效果` is read as the Normal kind.
proof fn lemma_label_key()
    ensures
        key_of(noneffect_table() + type_table(), "非效果"@) == Some(0x10u64),
{
    let reader = noneffect_table() + type_table();
    assert(reader[0] == (0x10u64, "非效果"@));
}

/// What reading makes of the kinds that a subtype list gave.
proof fn lemma_read_shown(bits: u32, t64: u64, result: u32)
    by (bit_vector)
    requires
        t64 == (if bits & extra_kinds() != 0 {
            (bits & model_kinds() & !Type::NORMAL) as u64 | (if bits & Type::EFFECT
                != Type::EFFECT {
                0x10u64
            } else {
                0u64
            })
        } else {
            (bits & model_kinds()) as u64
        }) | (bits & minor_kinds()) as u64,
        result == (if (t64 as u32) & extra_kinds() != 0 {
            if (t64 as u32) & Type::NORMAL == Type::NORMAL {
                (t64 as u32) & !Type::NORMAL
            } else {
                (t64 as u32) | Type::EFFECT
            }
        } else if (t64 as u32) & (Type::TOKEN | Type::NORMAL) == 0 {
            (t64 as u32) | Type::EFFECT
        } else {
            (t64 as u32)
        }),
    ensures
        result == shown_subtype(bits),
{
}

/// Reading the subtype list that was written for a monster gives the kinds
/// that the list shows.
pub proof fn lemma_subtype_round_trip(bits: u32)
    ensures
        subtype_of_text(subtype_text(bits)) == shown_subtype(bits),
{
    let names = subtype_names(bits);
    let reader = noneffect_table() + type_table();
    lemma_subtype_names_decode(bits);
    reveal_strlit("/");
    assert("/"@ =~= seq!['/']);
    let e = Seq::<char>::empty();
    if names.len() == 0 {
        assert(!has_char(e, '/'));
        lemma_split_join(seq![e], '/');
        assert(join(seq![e], seq!['/']) == e);
        lemma_non_empty_after_empty(Seq::<Seq<char>>::empty());
        assert(seq![e] + Seq::<Seq<char>>::empty() =~= seq![e]);
    } else {
        let all = seq![e] + names;
        lemma_join_after_empty(names, seq!['/']);
        assert forall|i: int| 0 <= i < all.len() implies !has_char(#[trigger] all[i], '/') by {
            if i > 0 {
                assert(all[i] == names[i - 1]);
                assert(name_clean(names[i - 1], '/'));
            }
        }
        lemma_split_join(all, '/');
        assert forall|i: int| 0 <= i < names.len() implies (#[trigger] names[i]).len() > 0 by {
            assert(name_clean(names[i], '/'));
        }
        lemma_non_empty_after_empty(names);
    }
    assert(non_empty(split(subtype_text(bits), "/"@)) == names);
    let t64 = decode_flags(names, reader, 0x7ff7ff7);
    assert(subtype_flags(subtype_text(bits)) == t64 as u32);
    lemma_read_shown(bits, t64, subtype_of_text(subtype_text(bits)));
}

/// A Fusion monster without effect is an extra-deck monster whose subtype
/// list shows Fusion and no effect.
proof fn lemma_fusion_shown(bits: u32)
    by (bit_vector)
    requires
        bits & Type::FUSION == Type::FUSION,
        bits & Type::EFFECT == 0,
    ensures
        bits & extra_kinds() != 0,
        bits & Type::EFFECT != Type::EFFECT,
        shown_subtype(bits) & Type::FUSION == Type::FUSION,
        shown_subtype(bits) & Type::EFFECT == 0,
{
}

/// A Fusion monster without the Effect flag shows `非效果` in its subtype
/// list, and the list reads back as a Fusion monster without effect.
pub proof fn lemma_fusion_without_effect(bits: u32)
    requires
        bits & Type::FUSION == Type::FUSION,
        bits & Type::EFFECT == 0,
    ensures
        exists|i: int|
            0 <= i < subtype_names(bits).len() && subtype_names(bits)[i] == "非效果"@,
        subtype_of_text(subtype_text(bits)) & Type::FUSION == Type::FUSION,
        subtype_of_text(subtype_text(bits)) & Type::EFFECT == 0,
{
    lemma_subtype_round_trip(bits);
    lemma_fusion_shown(bits);
    let shown = bits & model_kinds() & !Type::NORMAL;
    let a = flag_names(shown as u64, type_table(), 27);
    let names = subtype_names(bits);
    assert(names[a.len() as int] == "非效果"@);
}

} // verus!
