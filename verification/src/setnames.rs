//! The table of set names: the display name of each 16-bit set identifier, and
//! the packing of up to four identifiers into one set code.

use vstd::prelude::*;
use std::collections::HashMap;
use vstd::std_specs::iter::IteratorSpec;
use crate::number::{hex_digits, parse_hex_u16, read_hex_u16, write_hex_digits};
use crate::text::{
    append, append_str, chars_of, has_prefix, join, join_with, seq_eq, split, split_on, starts_with,
    string_of, strip_leading, trim, trim_start_matches, trimmed, views,
};

verus! {

/// The mathematical model of a table of set names.
pub type SetNameMap = Map<u16, Seq<char>>;

/// A table of set names, addressed by identifier.
pub struct SetNames {
    names: HashMap<u16, String>,
}

/// The entry that one line of a configuration text contributes: a line that
/// begins with `!setname` and holds, separated by single spaces, a hexadecimal
/// identifier (with or without `0x`) and a name, which ends at the first tab.
pub open spec fn conf_line_entry(line: Seq<char>) -> Option<(u16, Seq<char>)> {
    if starts_with(line, "!setname"@) {
        let parts = split(trim(line), " "@);
        if parts.len() >= 3 {
            match parse_hex_u16(trim_start_matches(parts[1], "0x"@)) {
                Some(id) => Some((id, split(parts[2], "\t"@)[0])),
                None => None,
            }
        } else {
            None
        }
    } else {
        None
    }
}

/// The table after the entries of the given lines were added, in order; a
/// later entry for an identifier replaces an earlier one.
pub open spec fn add_conf_lines(m: SetNameMap, lines: Seq<Seq<char>>) -> SetNameMap
    decreases lines.len(),
{
    if lines.len() == 0 {
        m
    } else {
        let before = add_conf_lines(m, lines.drop_last());
        match conf_line_entry(lines.last()) {
            Some((id, name)) => before.insert(id, name),
            None => before,
        }
    }
}

/// The table after the entries of a configuration text were added.
pub open spec fn add_conf(m: SetNameMap, text: Seq<char>) -> SetNameMap {
    add_conf_lines(m, split(text, "\n"@))
}

/// Whether `id` is the smallest identifier that the table names `name`.
pub open spec fn is_least_id(m: SetNameMap, name: Seq<char>, id: u16) -> bool {
    &&& m.contains_key(id)
    &&& m[id] == name
    &&& forall|other: u16| m.contains_key(other) && m[other] == name ==> id <= other
}

/// The smallest identifier that the table names `name`.
pub open spec fn id_of_name(m: SetNameMap, name: Seq<char>) -> Option<u16> {
    if exists|id: u16| is_least_id(m, name, id) {
        Some(choose|id: u16| is_least_id(m, name, id))
    } else {
        None
    }
}

/// The display of one identifier: its name, or `0x` and its upper-case
/// hexadecimal digits where the table has no name for it.
pub open spec fn slot_name(m: SetNameMap, id: u16) -> Seq<char> {
    if m.contains_key(id) {
        m[id]
    } else {
        "0x"@ + hex_digits(id as nat)
    }
}

/// The `i`-th 16-bit slot of a set code, the lowest being slot 0.
pub open spec fn slot(setcode: u64, i: nat) -> u16 {
    ((setcode >> ((16 * i) as u64)) & 0xffff) as u16
}

/// The displays of the non-zero slots among the lowest `n`, lowest first.
pub open spec fn slot_names(m: SetNameMap, setcode: u64, n: nat) -> Seq<Seq<char>>
    decreases n,
{
    if n == 0 {
        seq![]
    } else {
        let low = slot_names(m, setcode, (n - 1) as nat);
        let id = slot(setcode, (n - 1) as nat);
        if id > 0 {
            low.push(slot_name(m, id))
        } else {
            low
        }
    }
}

/// The display of a set code: its non-zero slots, lowest first, joined by `、`.
pub open spec fn setcode_text(m: SetNameMap, setcode: u64) -> Seq<char> {
    join(slot_names(m, setcode, 4), "、"@)
}

/// The identifier that one token denotes: after trimming, `0x` and
/// hexadecimal digits give the number itself, anything else the identifier
/// that the table names so.
pub open spec fn token_id(m: SetNameMap, token: Seq<char>) -> Option<u16> {
    let t = trim(token);
    if starts_with(t, "0x"@) {
        parse_hex_u16(t.subrange(2, t.len() as int))
    } else {
        id_of_name(m, t)
    }
}

/// The set code that the tokens pack: for each token with an identifier, the
/// code so far moves up by 16 bits and the identifier takes the lowest slot.
pub open spec fn pack_tokens(m: SetNameMap, tokens: Seq<Seq<char>>) -> u64
    decreases tokens.len(),
{
    if tokens.len() == 0 {
        0
    } else {
        let before = pack_tokens(m, tokens.drop_last());
        match token_id(m, tokens.last()) {
            Some(id) => (before << 16) | (id as u64),
            None => before,
        }
    }
}

/// The set code that a `、`-separated list of names denotes.
pub open spec fn setcode_of_text(m: SetNameMap, text: Seq<char>) -> u64 {
    pack_tokens(m, split(text, "、"@))
}

impl View for SetNames {
    type V = SetNameMap;

    closed spec fn view(&self) -> SetNameMap {
        Map::new(|id: u16| self.names@.contains_key(id), |id: u16| self.names@[id]@)
    }
}

impl SetNames {
    /// The empty table.
    pub fn new() -> (r: SetNames)
        ensures
            r@ == Map::<u16, Seq<char>>::empty(),
    {
        let r = SetNames { names: HashMap::new() };
        assert(r@ =~= Map::<u16, Seq<char>>::empty());
        r
    }

    /// Gives `id` the name `name`, in place of any it had.
    pub fn insert(&mut self, id: u16, name: Vec<char>)
        ensures
            final(self)@ == old(self)@.insert(id, name@),
    {
        let ghost before = self@;
        let text = string_of(&name);
        self.names.insert(id, text);
        assert(self@ =~= before.insert(id, name@));
    }

    /// The name of `id`.
    pub fn get(&self, id: u16) -> (r: Option<Vec<char>>)
        ensures
            match r {
                Some(name) => self@.contains_key(id) && self@[id] == name@,
                None => !self@.contains_key(id),
            },
    {
        match self.names.get(&id) {
            Some(name) => Some(chars_of(name.as_str())),
            None => None,
        }
    }

    /// The smallest identifier whose name is `name`.
    pub fn find(&self, name: &Vec<char>) -> (r: Option<u16>)
        ensures
            r == id_of_name(self@, name@),
    {
        let mut best: Option<u16> = None;
        for entry in it: self.names.iter()
            invariant
                it.seq() == self.names.iter().remaining(),
                match best {
                    Some(id) => {
                        &&& self@.contains_key(id)
                        &&& self@[id] == name@
                        &&& forall|i: int|
                            0 <= i < it.index() && (*it.seq()[i].1)@ == name@ ==> id
                                <= *it.seq()[i].0
                    },
                    None => forall|i: int| 0 <= i < it.index() ==> (*it.seq()[i].1)@ != name@,
                },
        {
            let (id, text) = entry;
            let found = seq_eq(&chars_of(text.as_str()), name);
            let smaller = match best {
                Some(least) => *id < least,
                None => true,
            };
            if found && smaller {
                best = Some(*id);
            }
        }
        proof {
            let seen = self.names.iter().remaining();
            assert forall|other: u16| self@.contains_key(other) && self@[other] == name@ implies (
            match best {
                Some(id) => id <= other,
                None => false,
            }) by {
                let pair = (&other, &self.names@[other]);
                assert(seen.contains(pair));
                let i = choose|i: int| 0 <= i < seen.len() && seen[i] == pair;
                assert(*seen[i].0 == other);
            }
            match best {
                Some(id) => {
                    assert(is_least_id(self@, name@, id));
                    assert forall|other: u16| is_least_id(self@, name@, other) implies other
                        == id by {}
                },
                None => {},
            }
        }
        best
    }

    /// The name of `id`, as a string.
    pub fn name(&self, id: u16) -> (r: Option<String>)
        ensures
            match r {
                Some(name) => self@.contains_key(id) && self@[id] == name@,
                None => !self@.contains_key(id),
            },
    {
        match self.get(id) {
            Some(name) => Some(string_of(&name)),
            None => None,
        }
    }

    /// The smallest identifier whose name is `name`.
    pub fn id(&self, name: &str) -> (r: Option<u16>)
        ensures
            r == id_of_name(self@, name@),
    {
        self.find(&chars_of(name))
    }

    /// The display of one identifier.
    pub fn name_or_hex(&self, id: u16) -> (r: Vec<char>)
        ensures
            r@ == slot_name(self@, id),
    {
        match self.get(id) {
            Some(name) => name,
            None => {
                let mut r: Vec<char> = Vec::new();
                append_str(&mut r, "0x");
                let digits = write_hex_digits(id as u64);
                append(&mut r, &digits);
                assert(r@ =~= "0x"@ + hex_digits(id as nat));
                r
            },
        }
    }

    /// The display of a set code.
    pub fn decode(&self, setcode: u64) -> (r: Vec<char>)
        ensures
            r@ == setcode_text(self@, setcode),
    {
        let mut parts: Vec<Vec<char>> = Vec::new();
        let mut i: u32 = 0;
        assert(views(parts@) =~= Seq::<Seq<char>>::empty());
        while i < 4
            invariant
                i <= 4,
                views(parts@) == slot_names(self@, setcode, i as nat),
            decreases 4 - i,
        {
            let shifted: u64 = (setcode >> ((16 * i) as u64)) & 0xffff;
            assert(shifted <= 0xffff) by (bit_vector)
                requires
                    shifted == (setcode >> ((16 * i) as u64)) & 0xffff,
            ;
            let id: u16 = shifted as u16;
            if id > 0 {
                let name = self.name_or_hex(id);
                proof {
                    assert(views(parts@.push(name)) =~= views(parts@).push(name@));
                }
                parts.push(name);
            }
            i += 1;
        }
        let sep = chars_of("、");
        join_with(&parts, &sep)
    }

    /// The identifier that one token denotes.
    pub fn token(&self, token: &Vec<char>) -> (r: Option<u16>)
        ensures
            r == token_id(self@, token@),
    {
        let t = trimmed(token);
        let prefix = chars_of("0x");
        if has_prefix(&t, &prefix) {
            proof {
                reveal_strlit("0x");
            }
            let digits = crate::text::slice_of(&t, 2, t.len());
            read_hex_u16(&digits)
        } else {
            self.find(&t)
        }
    }

    /// The set code that a `、`-separated list of names denotes.
    pub fn encode(&self, text: &Vec<char>) -> (r: u64)
        ensures
            r == setcode_of_text(self@, text@),
    {
        let sep = chars_of("、");
        proof {
            reveal_strlit("、");
        }
        let tokens = split_on(text, &sep);
        let mut r: u64 = 0;
        let mut i: usize = 0;
        while i < tokens.len()
            invariant
                i <= tokens.len(),
                r == pack_tokens(self@, views(tokens@).take(i as int)),
            decreases tokens.len() - i,
        {
            proof {
                let next = views(tokens@).take(i + 1);
                assert(next.drop_last() =~= views(tokens@).take(i as int));
                assert(next.last() == tokens@[i as int]@);
            }
            match self.token(&tokens[i]) {
                Some(id) => {
                    r = (r << 16) | (id as u64);
                },
                None => {},
            }
            i += 1;
        }
        assert(views(tokens@).take(tokens@.len() as int) =~= views(tokens@));
        r
    }

    /// Adds the entry of one configuration line, if it has one.
    pub fn add_line(&mut self, line: &Vec<char>)
        ensures
            final(self)@ == match conf_line_entry(line@) {
                Some((id, name)) => old(self)@.insert(id, name),
                None => old(self)@,
            },
    {
        let keyword = chars_of("!setname");
        if !has_prefix(line, &keyword) {
            return ;
        }
        let space = chars_of(" ");
        let tab = chars_of("\t");
        let hex = chars_of("0x");
        proof {
            reveal_strlit(" ");
            reveal_strlit("\t");
        }
        let t = trimmed(line);
        let parts = split_on(&t, &space);
        if parts.len() < 3 {
            return ;
        }
        assert(views(parts@)[1] == parts@[1]@);
        assert(views(parts@)[2] == parts@[2]@);
        let digits = strip_leading(&parts[1], &hex);
        match read_hex_u16(&digits) {
            Some(id) => {
                let pieces = split_on(&parts[2], &tab);
                assert(views(pieces@)[0] == pieces@[0]@);
                self.insert(id, pieces[0].clone());
            },
            None => {},
        }
    }
}

/// Adds the entries of a configuration text to the table.
pub fn add_string_conf_to_hashmap(setnames: &mut SetNames, conf: &str)
    ensures
        final(setnames)@ == add_conf(old(setnames)@, conf@),
{
    let text = chars_of(conf);
    let newline = chars_of("\n");
    proof {
        reveal_strlit("\n");
    }
    let lines = split_on(&text, &newline);
    let mut i: usize = 0;
    while i < lines.len()
        invariant
            i <= lines.len(),
            setnames@ == add_conf_lines(old(setnames)@, views(lines@).take(i as int)),
        decreases lines.len() - i,
    {
        proof {
            let next = views(lines@).take(i + 1);
            assert(next.drop_last() =~= views(lines@).take(i as int));
            assert(next.last() == lines@[i as int]@);
        }
        setnames.add_line(&lines[i]);
        i += 1;
    }
    assert(views(lines@).take(lines@.len() as int) =~= views(lines@));
}

/// The table that a configuration text describes.
pub fn set_string_conf(conf: &str) -> (r: SetNames)
    ensures
        r@ == add_conf(Map::<u16, Seq<char>>::empty(), conf@),
{
    let mut setnames = SetNames::new();
    add_string_conf_to_hashmap(&mut setnames, conf);
    setnames
}

} // verus!
