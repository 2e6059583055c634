//! Rule sets: what a card shows of them, and that it reads back.

use vstd::prelude::*;
use crate::constants::OT;
use crate::names::{flag_names, key_from, key_of, name_from, name_of, ot_table, NameTable};
use crate::laws::tables::{lemma_decode_push, lemma_names_round_trip, lemma_ot_names, mark};
use crate::text::{has_char, join, lemma_split_join, lemma_trim_clean, trim_each};
use crate::transformers::xyyz::{ot_of_text, ot_suffix, ot_text};

verus! {

/// The text of a set of rule sets with a name of its own reads back as the
/// set.
pub proof fn lemma_ot_named(ot: u32, name: Seq<char>)
    requires
        name_of(ot_table(), ot as u64) == Some(name),
        ot == 1 || ot == 2 || ot == 4 || ot == 8 || ot == 11 || ot == 1024,
    ensures
        ot_of_text(name) == ot,
{
    reveal_strlit("OCG");
    reveal_strlit("TCG");
    reveal_strlit("OT");
    reveal_strlit("Custom");
    reveal_strlit("SC");
    reveal_strlit("SCONLY");
    reveal_strlit("Draft");
    reveal_strlit("&");
    reveal_with_fuel(name_from, 8);
    reveal_with_fuel(key_from, 8);
    assert(mark("OCG"@) == (3nat, 'O', 'C', 'G'));
    assert(mark("TCG"@) == (3nat, 'T', 'C', 'G'));
    assert(mark("OT"@) == (2nat, 'O', 'T', ' '));
    assert(mark("Custom"@) == (6nat, 'C', 'u', 's'));
    assert(mark("SC"@) == (2nat, 'S', 'C', ' '));
    assert(mark("SCONLY"@) == (6nat, 'S', 'C', 'O'));
    assert(mark("Draft"@) == (5nat, 'D', 'r', 'a'));
    assert("&"@ =~= seq!['&']);
    let parts = seq![name];
    assert(!has_char(name, '&'));
    lemma_split_join(parts, '&');
    assert(join(parts, seq!['&']) == name);
    lemma_trim_clean(name);
    assert(trim_each(parts) =~= parts);
    assert(parts.drop_last() =~= Seq::<Seq<char>>::empty());
    lemma_decode_push(Seq::<Seq<char>>::empty(), name, ot_table(), 0x40f);
    assert(Seq::<Seq<char>>::empty().push(name) =~= parts);
    assert(key_of(ot_table(), name) == Some(ot as u64));
    assert(0u64 | (1u64 & 0x40f) == 1 && 0u64 | (2u64 & 0x40f) == 2 && 0u64 | (4u64 & 0x40f) == 4
        && 0u64 | (8u64 & 0x40f) == 8 && 0u64 | (11u64 & 0x40f) == 11 && 0u64 | (1024u64 & 0x40f)
        == 1024) by (bit_vector);
}

/// A card of OCG and TCG alone shows no rule sets. Any other set of rule
/// sets shows as a suffix in parentheses that is not empty, and the text
/// between the parentheses reads back as the set.
pub proof fn lemma_ot_round_trip(ot: u32)
    requires
        ot & !OT::ALL == 0,
    ensures
        ot == 3 ==> ot_suffix(ot).len() == 0,
        ot != 3 ==> ot_suffix(ot).len() > 0,
        ot != 3 ==> ot_suffix(ot) == " ("@ + ot_text(ot) + ")"@,
        ot != 3 ==> ot_of_text(ot_text(ot)) == ot,
{
    reveal_strlit(" (");
    reveal_strlit(")");
    reveal_strlit("&");
    assert("&"@ =~= seq!['&']);
    if ot != 3 {
        match name_of(ot_table(), ot as u64) {
            Some(name) => {
                reveal_with_fuel(name_from, 8);
                lemma_ot_named(ot, name);
            },
            None => {
                let bits = ot as u64;
                assert((ot & OT::ALL) as u64 == bits && bits & !0x40fu64 == 0 && bits & ((((1u64
                    << 11u64) - 1) as u64)) == bits) by (bit_vector)
                    requires
                        ot & !0x40fu32 == 0,
                        bits == ot as u64,
                ;
                if ot == 0 {
                    lemma_no_flags(ot_table(), 11);
                    assert(join(Seq::<Seq<char>>::empty(), "&"@) =~= Seq::<char>::empty());
                    lemma_empty_ot();
                } else {
                    lemma_ot_names();
                    lemma_names_round_trip(bits, ot_table(), ot_table(), 0x40f, 11, '&');
                }
            },
        }
    }
}

/// The empty set has no flag names.
pub proof fn lemma_no_flags(table: NameTable, n: nat)
    requires
        n <= 64,
    ensures
        flag_names(0, table, n) == Seq::<Seq<char>>::empty(),
    decreases n,
{
    if n > 0 {
        lemma_no_flags(table, (n - 1) as nat);
        let k = (n - 1) as u64;
        assert(0u64 & (1u64 << k) == 0) by (bit_vector);
    }
}

/// The empty text reads as no rule set.
proof fn lemma_empty_ot()
    ensures
        ot_of_text(Seq::<char>::empty()) == 0,
{
    reveal_strlit("OCG");
    reveal_strlit("TCG");
    reveal_strlit("OT");
    reveal_strlit("Custom");
    reveal_strlit("SC");
    reveal_strlit("SCONLY");
    reveal_strlit("Draft");
    reveal_strlit("&");
    reveal_with_fuel(key_from, 8);
    let e = Seq::<char>::empty();
    assert("&"@ =~= seq!['&']);
    let parts = seq![e];
    assert(!has_char(e, '&'));
    lemma_split_join(parts, '&');
    assert(join(parts, seq!['&']) == e);
    lemma_trim_clean(e);
    assert(trim_each(parts) =~= parts);
    lemma_decode_push(Seq::<Seq<char>>::empty(), e, ot_table(), 0x40f);
    assert(Seq::<Seq<char>>::empty().push(e) =~= parts);
    assert(key_of(ot_table(), e) is None);
}

} // verus!
