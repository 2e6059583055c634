//! Levels and link arrows: reading what was written gives it back.

use vstd::prelude::*;
use crate::card::CardView;
use crate::constants::{Linkmarkers, Type};
use crate::names::{flag_names, linkmarker_table};
use crate::laws::tables::{lemma_linkmarker_names, lemma_names_round_trip, name_clean};
use crate::number::{decimal, lemma_decimal_digits_value, lemma_parse_decimal};
use crate::text::{
    ends_with, has_char, join, lemma_split_join_pair, lemma_trim_clean, matches_at, pair,
    prefix_run, starts_with, suffix_run, trim, trim_end_matches,
};
use crate::transformers::xyyz::{
    inner, level_of_text, level_text, linkmarkers_of_text, linkmarkers_text, number_or_zero,
};

verus! {

/// A number written in decimal notation reads as itself, and neither begins
/// nor ends with anything but a digit.
pub proof fn lemma_number_round_trip(n: u32)
    ensures
        number_or_zero(decimal(n as int)) == n,
        trim(decimal(n as int)) == decimal(n as int),
        decimal(n as int).len() >= 1,
        forall|i: int|
            0 <= i < decimal(n as int).len() ==> '0' <= #[trigger] decimal(n as int)[i] <= '9',
{
    lemma_decimal_digits_value(n as nat);
    lemma_parse_decimal(n as int, 0, u32::MAX as int);
    let d = decimal(n as int);
    assert('0' <= d[0] <= '9');
    assert('0' <= d[d.len() - 1] <= '9');
    lemma_trim_clean(d);
}

/// A number before one more character: taking that character away from the
/// end, as often as it stands there, leaves the number.
proof fn lemma_number_before(n: u32, c: char)
    requires
        !('0' <= c <= '9'),
    ensures
        ends_with(decimal(n as int) + seq![c], seq![c]),
        trim_end_matches(decimal(n as int) + seq![c], seq![c]) == decimal(n as int),
        forall|other: char|
            other != c ==> !ends_with(decimal(n as int) + seq![c], #[trigger] seq![other]),
{
    lemma_number_round_trip(n);
    let d = decimal(n as int);
    let p = seq![c];
    let s = d + p;
    let len = s.len() as int;
    assert(s.subrange(len - 1, len) =~= p);
    assert(matches_at(s, p, len - 1));
    assert(s.subrange(len - 2, len - 1)[0] == d[len - 2]);
    assert(!matches_at(s, p, len - 2));
    assert(suffix_run(s, p, len - 1) == len - 1);
    assert(suffix_run(s, p, len) == len - 1);
    assert(s.subrange(0, len - 1) =~= d);
    assert forall|other: char| other != c implies !ends_with(s, #[trigger] seq![other]) by {
        assert(s.subrange(len - 1, len)[0] == c);
    }
}

/// The level that a card shows reads back: the rank of an Xyz monster with
/// the Xyz kind, the link rating of a Link monster with the Link kind, any
/// other level with no kind.
pub proof fn lemma_level_round_trip(card: CardView)
    ensures
        level_of_text(level_text(card)) == Some(
            if card._type & Type::XYZ == Type::XYZ {
                (Type::XYZ, card.level)
            } else if card._type & Type::LINK == Type::LINK {
                (Type::LINK, card.level)
            } else {
                (0u32, card.level)
            },
        ),
{
    reveal_strlit("星");
    reveal_strlit("阶");
    reveal_strlit("LINK-");
    assert("星"@ =~= seq!['星']);
    assert("阶"@ =~= seq!['阶']);
    if card._type & Type::XYZ == Type::XYZ {
        lemma_number_before(card.level, '阶');
        lemma_number_round_trip(card.level);
        assert(!ends_with(level_text(card), seq!['星']));
    } else if card._type & Type::LINK == Type::LINK {
        let n = card.level;
        lemma_number_round_trip(n);
        let d = decimal(n as int);
        let p = "LINK-"@;
        let s = p + d;
        let len = s.len() as int;
        assert(s == level_text(card));
        assert(s[len - 1] == d[d.len() - 1]);
        assert(s.subrange(len - 1, len)[0] == s[len - 1]);
        assert(!ends_with(s, seq!['星']));
        assert(!ends_with(s, seq!['阶']));
        assert(s.subrange(0, 5) =~= p);
        assert(starts_with(s, p));
        assert(s[5] == d[0]);
        if 10 <= len {
            assert(s.subrange(5, 10)[0] == s[5]);
        }
        assert(!matches_at(s, p, 5));
        assert(prefix_run(s, p, 5) == 5);
        assert(prefix_run(s, p, 0) == 5);
        assert(s.subrange(5, len) =~= d);
    } else {
        lemma_number_before(card.level, '星');
        lemma_number_round_trip(card.level);
    }
}

/// A set of link arrows, as 64 bits.
pub proof fn lemma_widen_arrows(bits: i32, wide: u64)
    by (bit_vector)
    requires
        bits & !0x1efi32 == 0,
        wide == (bits & 0x1efi32) as u64,
    ensures
        wide & !0x1efu64 == 0,
        wide & (((1u64 << 9u64) - 1) as u64) == wide,
        (bits != 0) == (wide != 0),
        wide as i32 == bits,
{
}

/// Reading the link arrows that were written gives the set back, where the
/// set holds link arrows only.
pub proof fn lemma_linkmarkers_round_trip(bits: i32)
    requires
        bits & !Linkmarkers::ALL == 0,
    ensures
        linkmarkers_of_text(linkmarkers_text(bits)) == bits,
{
    reveal_strlit("[");
    reveal_strlit("]");
    reveal_strlit("][");
    if bits != 0 {
        let wide = (bits & Linkmarkers::ALL) as u64;
        lemma_widen_arrows(bits, wide);
        lemma_linkmarker_names();
        lemma_names_round_trip(wide, linkmarker_table(), linkmarker_table(), 0x1ef, 9, ']');
        let names = flag_names(wide, linkmarker_table(), 9);
        assert("]["@ =~= pair(']', '['));
        let joined = join(names, "]["@);
        let s = "["@ + joined + "]"@;
        assert(s == linkmarkers_text(bits));
        assert(s.len() >= 2);
        assert(s.subrange(1, s.len() - 1) =~= joined);
        assert(inner(s) == joined);
        assert forall|i: int| 0 <= i < names.len() implies !has_char(#[trigger] names[i], ']') by {
            crate::laws::tables::lemma_flag_names_clean(
                wide,
                linkmarker_table(),
                linkmarker_table(),
                0x1ef,
                9,
                ']',
            );
            assert(name_clean(names[i], ']'));
        }
        lemma_split_join_pair(names, ']', '[');
    }
}

} // verus!
