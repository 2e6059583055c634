//! The series line of a card: reading what was written gives the set code
//! back, for a set code of one set.

use vstd::prelude::*;
use crate::number::{hex_digits, lemma_hex_digits_value, parse_hex_u16};
use crate::setnames::{
    id_of_name, is_least_id, pack_tokens, setcode_of_text, setcode_text, slot, slot_name,
    slot_names, token_id, SetNameMap,
};
use crate::text::{
    has_char, is_space, join, lemma_split_join, lemma_trim_clean, starts_with, unbroken,
};

verus! {

/// Whether a name can stand for a set in a series line: it is not empty,
/// holds no `、` and no line break, neither begins nor ends with white
/// space, and begins neither with `0x` nor with the label of the line.
pub open spec fn is_plain_set_name(name: Seq<char>) -> bool {
    &&& name.len() > 0
    &&& !has_char(name, '、')
    &&& !is_space(name[0])
    &&& !is_space(name[name.len() - 1])
    &&& !starts_with(name, "0x"@)
    &&& !starts_with(name, "系列："@)
    &&& unbroken(name)
}

/// The slots of a set code of one set, and the set code that one identifier
/// packs.
proof fn lemma_one_slot(id: u16, code: u64)
    by (bit_vector)
    requires
        code == id as u64,
    ensures
        ((code >> 0u64) & 0xffff) as u16 == id,
        ((code >> 16u64) & 0xffff) as u16 == 0,
        ((code >> 32u64) & 0xffff) as u16 == 0,
        ((code >> 48u64) & 0xffff) as u16 == 0,
        (0u64 << 16) | code == code,
        0u64 | code == code,
        ((0u64 >> 0u64) & 0xffff) as u16 == 0,
        ((0u64 >> 16u64) & 0xffff) as u16 == 0,
        ((0u64 >> 32u64) & 0xffff) as u16 == 0,
        ((0u64 >> 48u64) & 0xffff) as u16 == 0,
{
}

/// The set code of no set shows nothing.
pub proof fn lemma_no_set_text(names: SetNameMap)
    ensures
        setcode_text(names, 0) == Seq::<char>::empty(),
{
    lemma_one_slot(0, 0);
    assert(slot(0, 0) == 0);
    assert(slot(0, 1) == 0);
    assert(slot(0, 2) == 0);
    assert(slot(0, 3) == 0);
    reveal_with_fuel(slot_names, 5);
    assert(slot_names(names, 0, 4) =~= Seq::<Seq<char>>::empty());
}

/// The display of one set is not empty, does not begin with the label of
/// the series line, and does not end with white space.
pub proof fn lemma_set_name_shape(names: SetNameMap, id: u16)
    requires
        names.contains_key(id) ==> is_plain_set_name(names[id]),
    ensures
        slot_name(names, id).len() > 0,
        !starts_with(slot_name(names, id), "系列："@),
        !is_space(slot_name(names, id)[slot_name(names, id).len() - 1]),
        !is_space(slot_name(names, id)[0]),
{
    reveal_strlit("0x");
    reveal_strlit("系列：");
    if !names.contains_key(id) {
        lemma_hex_digits_value(id as nat);
        let digits = hex_digits(id as nat);
        let text = slot_name(names, id);
        assert(text == "0x"@ + digits);
        assert(text[0] == '0');
        assert(text[text.len() - 1] == digits[digits.len() - 1]);
        if starts_with(text, "系列："@) {
            assert(text.subrange(0, 3)[0] == text[0]);
        }
    }
}

/// A set code of one set shows as the display of that set.
pub proof fn lemma_one_set_text(names: SetNameMap, id: u16)
    requires
        id > 0,
    ensures
        setcode_text(names, id as u64) == slot_name(names, id),
{
    let code = id as u64;
    lemma_one_slot(id, code);
    assert(slot(code, 0) == id);
    assert(slot(code, 1) == 0);
    assert(slot(code, 2) == 0);
    assert(slot(code, 3) == 0);
    reveal_with_fuel(slot_names, 5);
    assert(slot_names(names, code, 4) =~= seq![slot_name(names, id)]);
}

/// Reading the display of a set gives its identifier back: where the set
/// has no name, or a plain name that no smaller identifier has too.
pub proof fn lemma_series_round_trip(names: SetNameMap, id: u16)
    requires
        id > 0,
        names.contains_key(id) ==> is_plain_set_name(names[id]) && is_least_id(
            names,
            names[id],
            id,
        ),
    ensures
        setcode_of_text(names, setcode_text(names, id as u64)) == id as u64,
        0u64 | (id as u64) == id as u64,
{
    reveal_strlit("、");
    reveal_strlit("0x");
    assert("、"@ =~= seq!['、']);
    let code = id as u64;
    lemma_one_set_text(names, id);
    lemma_one_slot(id, code);
    let text = slot_name(names, id);
    if names.contains_key(id) {
        assert(is_least_id(names, text, id));
        let found = choose|other: u16| is_least_id(names, text, other);
        assert(found == id);
        assert(id_of_name(names, text) == Some(id));
    } else {
        lemma_hex_digits_value(id as nat);
        let digits = hex_digits(id as nat);
        assert(text == "0x"@ + digits);
        assert(text.subrange(0, 2) =~= "0x"@);
        assert(text.subrange(2, text.len() as int) =~= digits);
        assert(('0' <= digits[0] <= '9') || ('A' <= digits[0] <= 'F'));
        assert(parse_hex_u16(digits) == Some(id));
        assert forall|i: int| 0 <= i < text.len() implies text[i] != '、' by {
            if i >= 2 {
                assert(text[i] == digits[i - 2]);
            }
        }
        assert(text[text.len() - 1] == digits[digits.len() - 1]);
    }
    assert(!has_char(text, '、'));
    lemma_trim_clean(text);
    lemma_split_join(seq![text], '、');
    assert(join(seq![text], seq!['、']) == text);
    assert(token_id(names, text) == Some(id));
    assert(seq![text].drop_last() =~= Seq::<Seq<char>>::empty());
    assert(pack_tokens(names, Seq::<Seq<char>>::empty()) == 0);
    assert(seq![text].last() == text);
    assert(pack_tokens(names, seq![text]) == (0u64 << 16) | code);
}

/// Two identifiers, packed one after the other.
proof fn lemma_two_slots(a: u16, b: u16, wa: u64, wb: u64)
    by (bit_vector)
    requires
        wa == a as u64,
        wb == b as u64,
    ensures
        ((((0u64 << 16) | wa) << 16) | wb) == (wa << 16) + wb,
{
}

/// Of two tokens that each denote a set, the first ends in the upper slot
/// and the second in the lowest: the set code is the first identifier moved
/// up by 16 bits, plus the second.
pub proof fn lemma_pack_two(
    names: SetNameMap,
    first: Seq<char>,
    second: Seq<char>,
    a: u16,
    b: u16,
)
    requires
        token_id(names, first) == Some(a),
        token_id(names, second) == Some(b),
    ensures
        pack_tokens(names, seq![first, second]) == ((a as u64) << 16) + (b as u64),
{
    let tokens = seq![first, second];
    assert(tokens.drop_last() =~= seq![first]);
    assert(seq![first].drop_last() =~= Seq::<Seq<char>>::empty());
    assert(pack_tokens(names, Seq::<Seq<char>>::empty()) == 0);
    assert(seq![first].last() == first);
    assert(pack_tokens(names, seq![first]) == (0u64 << 16) | (a as u64));
    assert(tokens.last() == second);
    lemma_two_slots(a, b, a as u64, b as u64);
}

} // verus!
