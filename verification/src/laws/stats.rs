//! Attack and defense values: reading what was written gives it back.

use vstd::prelude::*;
use crate::number::{decimal, lemma_decimal_digits_value, lemma_parse_decimal};
use crate::transformers::xyyz::{stat_of_text, stat_text};

verus! {

/// An attack or defense value that was written reads back as itself: `∞`
/// as -1, `?` as -2, and every other number from its decimal text.
pub proof fn lemma_stat_round_trip(n: i32)
    ensures
        stat_text(-1i32) == "∞"@,
        stat_text(-2i32) == "?"@,
        stat_of_text(stat_text(n)) == n,
{
    reveal_strlit("?");
    reveal_strlit("∞");
    if n == -2 {
    } else if n == -1 {
        assert("∞"@[0] != "?"@[0]);
    } else {
        let s = decimal(n as int);
        lemma_parse_decimal(n as int, i32::MIN as int, i32::MAX as int);
        if n < 0 {
            assert(s[0] == '-');
        } else {
            lemma_decimal_digits_value(n as nat);
            assert('0' <= s[0] <= '9');
        }
        assert(s[0] != "?"@[0]);
        assert(s[0] != "∞"@[0]);
    }
}

} // verus!
