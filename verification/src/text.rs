//! Character-sequence utilities: searching, splitting, joining and trimming,
//! each with a mathematical model over `Seq<char>`.

use vstd::prelude::*;
use vstd::std_specs::iter::IteratorSpec;

verus! {

/// `String::push` appends one character at the end of the string.
pub assume_specification[ String::push ](s: &mut String, c: char)
    ensures
        final(s)@ == old(s)@.push(c),
;

/// The views of a vector of strings, one per element.
pub open spec fn views(v: Seq<Vec<char>>) -> Seq<Seq<char>> {
    v.map_values(|p: Vec<char>| p@)
}

/// The views of a vector of owned strings, one per element.
pub open spec fn string_views(v: Seq<String>) -> Seq<Seq<char>> {
    v.map_values(|p: String| p@)
}

/// Unicode `White_Space`, the characters that trimming removes.
pub open spec fn is_space(c: char) -> bool {
    let u = c as u32;
    (0x09 <= u <= 0x0D) || u == 0x20 || u == 0x85 || u == 0xA0 || u == 0x1680 || (0x2000 <= u
        <= 0x200A) || u == 0x2028 || u == 0x2029 || u == 0x202F || u == 0x205F || u == 0x3000
}

/// Whether `p` occurs in `s` at index `at`.
pub open spec fn matches_at(s: Seq<char>, p: Seq<char>, at: int) -> bool {
    0 <= at && at + p.len() <= s.len() && s.subrange(at, at + p.len()) == p
}

/// Whether `s` begins with `p`.
pub open spec fn starts_with(s: Seq<char>, p: Seq<char>) -> bool {
    matches_at(s, p, 0)
}

/// Whether `s` ends with `p`.
pub open spec fn ends_with(s: Seq<char>, p: Seq<char>) -> bool {
    matches_at(s, p, s.len() - p.len())
}

/// The pieces of `s` between occurrences of `sep`, scanning from `at` with the
/// current piece starting at `start`. Occurrences are taken leftmost first and
/// do not overlap.
pub open spec fn split_scan(s: Seq<char>, sep: Seq<char>, start: int, at: int) -> Seq<Seq<char>>
    decreases s.len() - at,
{
    if sep.len() == 0 || start < 0 || at < start || at + sep.len() > s.len() {
        seq![s.subrange(start, s.len() as int)]
    } else if matches_at(s, sep, at) {
        seq![s.subrange(start, at)] + split_scan(s, sep, at + sep.len(), at + sep.len())
    } else {
        split_scan(s, sep, start, at + 1)
    }
}

/// `s` split on every occurrence of the separator `sep`. The result always
/// has at least one piece; an empty `s` gives one empty piece, and an empty
/// separator leaves `s` whole.
pub open spec fn split(s: Seq<char>, sep: Seq<char>) -> Seq<Seq<char>> {
    split_scan(s, sep, 0, 0)
}

/// The pieces of `s`, each ending with the occurrence of `sep` that closes it;
/// a trailing piece without separator is kept only when it is not empty.
pub open spec fn split_inclusive_scan(s: Seq<char>, sep: Seq<char>, start: int, at: int) -> Seq<
    Seq<char>,
>
    decreases s.len() - at,
{
    if sep.len() == 0 || start < 0 || at < start || at + sep.len() > s.len() {
        if 0 <= start < s.len() {
            seq![s.subrange(start, s.len() as int)]
        } else {
            seq![]
        }
    } else if matches_at(s, sep, at) {
        seq![s.subrange(start, at + sep.len())] + split_inclusive_scan(
            s,
            sep,
            at + sep.len(),
            at + sep.len(),
        )
    } else {
        split_inclusive_scan(s, sep, start, at + 1)
    }
}

/// `s` split behind every occurrence of the separator `sep`.
pub open spec fn split_inclusive(s: Seq<char>, sep: Seq<char>) -> Seq<Seq<char>> {
    split_inclusive_scan(s, sep, 0, 0)
}

/// The parts joined with `sep` between each two neighbours.
pub open spec fn join(parts: Seq<Seq<char>>, sep: Seq<char>) -> Seq<char>
    decreases parts.len(),
{
    if parts.len() == 0 {
        seq![]
    } else if parts.len() == 1 {
        parts[0]
    } else {
        join(parts.drop_last(), sep) + sep + parts.last()
    }
}

/// The index behind the longest run of copies of `p` that starts at `at`.
pub open spec fn prefix_run(s: Seq<char>, p: Seq<char>, at: int) -> int
    decreases s.len() - at,
{
    if p.len() > 0 && matches_at(s, p, at) {
        prefix_run(s, p, at + p.len())
    } else {
        at
    }
}

/// `s` without any leading copies of `p`.
pub open spec fn trim_start_matches(s: Seq<char>, p: Seq<char>) -> Seq<char> {
    s.subrange(prefix_run(s, p, 0), s.len() as int)
}

/// The index before the longest run of copies of `p` that ends at `end`.
pub open spec fn suffix_run(s: Seq<char>, p: Seq<char>, end: int) -> int
    decreases end,
{
    if p.len() > 0 && end <= s.len() && matches_at(s, p, end - p.len()) {
        suffix_run(s, p, end - p.len())
    } else {
        end
    }
}

/// `s` without any trailing copies of `p`.
pub open spec fn trim_end_matches(s: Seq<char>, p: Seq<char>) -> Seq<char> {
    s.subrange(0, suffix_run(s, p, s.len() as int))
}

/// The index of the first character at or after `at` that is no white space.
pub open spec fn space_run(s: Seq<char>, at: int) -> int
    decreases s.len() - at,
{
    if 0 <= at < s.len() && is_space(s[at]) {
        space_run(s, at + 1)
    } else {
        at
    }
}

/// The index behind the last character before `end` that is no white space,
/// never below `low`.
pub open spec fn space_run_back(s: Seq<char>, low: int, end: int) -> int
    decreases end,
{
    if low < end <= s.len() && 0 < end && is_space(s[end - 1]) {
        space_run_back(s, low, end - 1)
    } else {
        end
    }
}

/// `s` without leading and trailing white space.
pub open spec fn trim(s: Seq<char>) -> Seq<char> {
    let a = space_run(s, 0);
    s.subrange(a, space_run_back(s, a, s.len() as int))
}

/// Whether every character of `s` is white space.
pub open spec fn is_blank(s: Seq<char>) -> bool {
    trim(s).len() == 0
}

/// Whether `c` is white space.
pub fn is_whitespace(c: char) -> (r: bool)
    ensures
        r == is_space(c),
{
    let u: u32 = c as u32;
    (0x09 <= u && u <= 0x0D) || u == 0x20 || u == 0x85 || u == 0xA0 || u == 0x1680 || (0x2000 <= u
        && u <= 0x200A) || u == 0x2028 || u == 0x2029 || u == 0x202F || u == 0x205F || u == 0x3000
}

/// The characters of a string slice.
pub fn chars_of(s: &str) -> (v: Vec<char>)
    ensures
        v@ == s@,
{
    broadcast use vstd::string::group_string_axioms;

    let mut v: Vec<char> = Vec::new();
    let mut it = s.chars();
    loop
        invariant
            v@ + it.remaining() == s@,
        ensures
            v@ == s@,
        decreases s@.len() - v@.len(),
    {
        match it.next() {
            Some(c) => {
                v.push(c);
            },
            None => {
                assert(v@ + it.remaining() =~= v@);
                break ;
            },
        }
    }
    v
}

/// The string made of the characters `v[from..to]`.
pub(crate) fn string_of_range(v: &Vec<char>, from: usize, to: usize) -> (s: String)
    requires
        from <= to <= v.len(),
    ensures
        s@ == v@.subrange(from as int, to as int),
{
    let mut s = String::new();
    let mut i: usize = from;
    while i < to
        invariant
            from <= i <= to <= v.len(),
            s@ == v@.subrange(from as int, i as int),
        decreases to - i,
    {
        s.push(v[i]);
        i += 1;
        assert(v@.subrange(from as int, i as int) =~= v@.subrange(from as int, i - 1).push(
            v@[i - 1],
        ));
    }
    s
}

/// The string made of the characters of `v`.
pub fn string_of(v: &Vec<char>) -> (s: String)
    ensures
        s@ == v@,
{
    assert(v@.subrange(0, v@.len() as int) =~= v@);
    string_of_range(v, 0, v.len())
}

/// A copy of the characters `v[from..to]`.
pub(crate) fn slice_of(v: &Vec<char>, from: usize, to: usize) -> (r: Vec<char>)
    requires
        from <= to <= v.len(),
    ensures
        r@ == v@.subrange(from as int, to as int),
{
    let mut r: Vec<char> = Vec::new();
    let mut i: usize = from;
    while i < to
        invariant
            from <= i <= to <= v.len(),
            r@ == v@.subrange(from as int, i as int),
        decreases to - i,
    {
        r.push(v[i]);
        i += 1;
        assert(v@.subrange(from as int, i as int) =~= v@.subrange(from as int, i - 1).push(
            v@[i - 1],
        ));
    }
    r
}

/// Appends the characters of `tail` to `v`.
pub fn append(v: &mut Vec<char>, tail: &Vec<char>)
    ensures
        final(v)@ == old(v)@ + tail@,
{
    let mut i: usize = 0;
    while i < tail.len()
        invariant
            i <= tail.len(),
            v@ == old(v)@ + tail@.subrange(0, i as int),
        decreases tail.len() - i,
    {
        v.push(tail[i]);
        i += 1;
        assert(tail@.subrange(0, i as int) =~= tail@.subrange(0, i - 1).push(tail@[i - 1]));
        assert(v@ =~= old(v)@ + tail@.subrange(0, i as int));
    }
    assert(tail@.subrange(0, tail@.len() as int) =~= tail@);
}

/// Appends the characters of the string slice `tail` to `v`.
pub fn append_str(v: &mut Vec<char>, tail: &str)
    ensures
        final(v)@ == old(v)@ + tail@,
{
    let t = chars_of(tail);
    append(v, &t);
}

/// Whether two texts are the same.
pub fn seq_eq(a: &Vec<char>, b: &Vec<char>) -> (r: bool)
    ensures
        r == (a@ == b@),
{
    if a.len() != b.len() {
        return false;
    }
    let mut i: usize = 0;
    while i < a.len()
        invariant
            i <= a.len(),
            a.len() == b.len(),
            a@.subrange(0, i as int) == b@.subrange(0, i as int),
        decreases a.len() - i,
    {
        if a[i] != b[i] {
            return false;
        }
        i += 1;
        assert(a@.subrange(0, i as int) =~= a@.subrange(0, i - 1).push(a@[i - 1]));
        assert(b@.subrange(0, i as int) =~= b@.subrange(0, i - 1).push(b@[i - 1]));
    }
    assert(a@.subrange(0, a@.len() as int) =~= a@);
    assert(b@.subrange(0, b@.len() as int) =~= b@);
    true
}

/// Whether `p` occurs in `s` at index `at`.
pub fn occurs_at(s: &Vec<char>, p: &Vec<char>, at: usize) -> (r: bool)
    ensures
        r == matches_at(s@, p@, at as int),
{
    if p.len() > s.len() || at > s.len() - p.len() {
        return false;
    }
    let mut i: usize = 0;
    while i < p.len()
        invariant
            i <= p.len(),
            at + p.len() <= s.len(),
            s@.subrange(at as int, at + i) == p@.subrange(0, i as int),
        decreases p.len() - i,
    {
        if s[at + i] != p[i] {
            assert(s@.subrange(at as int, at + p@.len())[i as int] != p@[i as int]);
            return false;
        }
        i += 1;
        assert(s@.subrange(at as int, at + i) =~= s@.subrange(at as int, at + i - 1).push(
            s@[at + i - 1],
        ));
        assert(p@.subrange(0, i as int) =~= p@.subrange(0, i - 1).push(p@[i - 1]));
    }
    assert(p@.subrange(0, p@.len() as int) =~= p@);
    true
}

/// Whether `s` begins with `p`.
pub fn has_prefix(s: &Vec<char>, p: &Vec<char>) -> (r: bool)
    ensures
        r == starts_with(s@, p@),
{
    occurs_at(s, p, 0)
}

/// Whether `s` ends with `p`.
pub fn has_suffix(s: &Vec<char>, p: &Vec<char>) -> (r: bool)
    ensures
        r == ends_with(s@, p@),
{
    if p.len() > s.len() {
        return false;
    }
    occurs_at(s, p, s.len() - p.len())
}

/// `s` split on every occurrence of `sep`.
pub fn split_on(s: &Vec<char>, sep: &Vec<char>) -> (r: Vec<Vec<char>>)
    ensures
        views(r@) == split(s@, sep@),
        r.len() > 0,
{
    let mut r: Vec<Vec<char>> = Vec::new();
    let mut start: usize = 0;
    let mut at: usize = 0;
    if sep.len() == 0 {
        let whole = slice_of(s, 0, s.len());
        proof {
            assert(views(r@.push(whole)) =~= seq![whole@]);
        }
        r.push(whole);
        return r;
    }
    while sep.len() <= s.len() && at <= s.len() - sep.len()
        invariant
            sep.len() > 0,
            start <= at <= s.len(),
            split(s@, sep@) == views(r@) + split_scan(s@, sep@, start as int, at as int),
        decreases s.len() - at,
    {
        if occurs_at(s, sep, at) {
            let piece = slice_of(s, start, at);
            proof {
                assert(views(r@.push(piece)) =~= views(r@) + seq![piece@]);
            }
            r.push(piece);
            at = at + sep.len();
            start = at;
        } else {
            at = at + 1;
        }
    }
    let piece = slice_of(s, start, s.len());
    proof {
        assert(views(r@.push(piece)) =~= views(r@) + seq![piece@]);
    }
    r.push(piece);
    r
}

/// `s` split behind every occurrence of `sep`.
pub fn split_inclusive_on(s: &Vec<char>, sep: &Vec<char>) -> (r: Vec<Vec<char>>)
    ensures
        views(r@) == split_inclusive(s@, sep@),
{
    let mut r: Vec<Vec<char>> = Vec::new();
    let mut start: usize = 0;
    let mut at: usize = 0;
    if sep.len() == 0 {
        if s.len() > 0 {
            let whole = slice_of(s, 0, s.len());
            proof {
                assert(views(r@.push(whole)) =~= seq![whole@]);
            }
            r.push(whole);
        } else {
            assert(views(r@) =~= Seq::<Seq<char>>::empty());
        }
        return r;
    }
    while sep.len() <= s.len() && at <= s.len() - sep.len()
        invariant
            sep.len() > 0,
            start <= at <= s.len(),
            split_inclusive(s@, sep@) == views(r@) + split_inclusive_scan(
                s@,
                sep@,
                start as int,
                at as int,
            ),
        decreases s.len() - at,
    {
        if occurs_at(s, sep, at) {
            at = at + sep.len();
            let piece = slice_of(s, start, at);
            proof {
                assert(views(r@.push(piece)) =~= views(r@) + seq![piece@]);
            }
            r.push(piece);
            start = at;
        } else {
            at = at + 1;
        }
    }
    if start < s.len() {
        let piece = slice_of(s, start, s.len());
        proof {
            assert(views(r@.push(piece)) =~= views(r@) + seq![piece@]);
        }
        r.push(piece);
    } else {
        assert(views(r@) + Seq::<Seq<char>>::empty() =~= views(r@));
    }
    r
}

/// The parts joined with `sep` between each two neighbours.
pub fn join_with(parts: &Vec<Vec<char>>, sep: &Vec<char>) -> (r: Vec<char>)
    ensures
        r@ == join(views(parts@), sep@),
{
    let mut r: Vec<char> = Vec::new();
    let mut i: usize = 0;
    while i < parts.len()
        invariant
            i <= parts.len(),
            r@ == join(views(parts@).take(i as int), sep@),
        decreases parts.len() - i,
    {
        proof {
            let next = views(parts@).take(i + 1);
            assert(next.drop_last() =~= views(parts@).take(i as int));
            assert(next.last() == parts@[i as int]@);
            if i == 0 {
                assert(r@ + parts@[0]@ =~= parts@[0]@);
            }
        }
        if i > 0 {
            append(&mut r, sep);
        }
        append(&mut r, &parts[i]);
        i += 1;
    }
    assert(views(parts@).take(parts@.len() as int) =~= views(parts@));
    r
}

/// `s` without any leading copies of `p`.
pub fn strip_leading(s: &Vec<char>, p: &Vec<char>) -> (r: Vec<char>)
    ensures
        r@ == trim_start_matches(s@, p@),
{
    let mut at: usize = 0;
    if p.len() > 0 {
        while occurs_at(s, p, at)
            invariant
                p.len() > 0,
                at <= s.len(),
                prefix_run(s@, p@, 0) == prefix_run(s@, p@, at as int),
            decreases s.len() - at,
        {
            at = at + p.len();
        }
    }
    slice_of(s, at, s.len())
}

/// `s` without any trailing copies of `p`.
pub fn strip_trailing(s: &Vec<char>, p: &Vec<char>) -> (r: Vec<char>)
    ensures
        r@ == trim_end_matches(s@, p@),
{
    let mut end: usize = s.len();
    if p.len() > 0 {
        while end >= p.len() && occurs_at(s, p, end - p.len())
            invariant
                p.len() > 0,
                end <= s.len(),
                suffix_run(s@, p@, s@.len() as int) == suffix_run(s@, p@, end as int),
            decreases end,
        {
            end = end - p.len();
        }
    }
    slice_of(s, 0, end)
}

/// `s` without leading and trailing white space.
pub fn trimmed(s: &Vec<char>) -> (r: Vec<char>)
    ensures
        r@ == trim(s@),
{
    let mut a: usize = 0;
    while a < s.len() && is_whitespace(s[a])
        invariant
            a <= s.len(),
            space_run(s@, 0) == space_run(s@, a as int),
        decreases s.len() - a,
    {
        a += 1;
    }
    let mut b: usize = s.len();
    while a < b && is_whitespace(s[b - 1])
        invariant
            a <= b <= s.len(),
            space_run_back(s@, a as int, s@.len() as int) == space_run_back(s@, a as int, b as int),
        decreases b,
    {
        b -= 1;
    }
    slice_of(s, a, b)
}

/// Whether `s` holds nothing but white space.
pub fn blank(s: &Vec<char>) -> (r: bool)
    ensures
        r == is_blank(s@),
{
    let t = trimmed(s);
    t.len() == 0
}

/// Every piece without leading and trailing white space.
pub open spec fn trim_each(parts: Seq<Seq<char>>) -> Seq<Seq<char>> {
    parts.map_values(|p: Seq<char>| trim(p))
}

/// The pieces that are not empty, in their order.
pub open spec fn non_empty(parts: Seq<Seq<char>>) -> Seq<Seq<char>>
    decreases parts.len(),
{
    if parts.len() == 0 {
        seq![]
    } else if parts.last().len() > 0 {
        non_empty(parts.drop_last()).push(parts.last())
    } else {
        non_empty(parts.drop_last())
    }
}

/// Every piece without leading and trailing white space.
pub fn trim_all(parts: &Vec<Vec<char>>) -> (r: Vec<Vec<char>>)
    ensures
        views(r@) == trim_each(views(parts@)),
{
    let mut r: Vec<Vec<char>> = Vec::new();
    let mut i: usize = 0;
    while i < parts.len()
        invariant
            i <= parts.len(),
            r@.len() == i,
            forall|k: int| 0 <= k < i ==> r@[k]@ == trim(parts@[k]@),
        decreases parts.len() - i,
    {
        r.push(trimmed(&parts[i]));
        i += 1;
    }
    assert(views(r@) =~= trim_each(views(parts@)));
    r
}

/// The pieces that are not empty, in their order.
pub fn drop_empty(parts: &Vec<Vec<char>>) -> (r: Vec<Vec<char>>)
    ensures
        views(r@) == non_empty(views(parts@)),
{
    let mut r: Vec<Vec<char>> = Vec::new();
    let mut i: usize = 0;
    assert(views(r@) =~= Seq::<Seq<char>>::empty());
    assert(views(parts@).take(0) =~= Seq::<Seq<char>>::empty());
    while i < parts.len()
        invariant
            i <= parts.len(),
            views(r@) == non_empty(views(parts@).take(i as int)),
        decreases parts.len() - i,
    {
        proof {
            let next = views(parts@).take(i + 1);
            assert(next.drop_last() =~= views(parts@).take(i as int));
            assert(next.last() == parts@[i as int]@);
        }
        if parts[i].len() > 0 {
            let piece = parts[i].clone();
            proof {
                assert(views(r@.push(piece)) =~= views(r@).push(piece@));
            }
            r.push(piece);
        }
        i += 1;
    }
    assert(views(parts@).take(parts@.len() as int) =~= views(parts@));
    r
}

/// The characters of every string of `v`.
pub fn chars_of_all(v: &Vec<String>) -> (r: Vec<Vec<char>>)
    ensures
        views(r@) == string_views(v@),
{
    let mut r: Vec<Vec<char>> = Vec::new();
    let mut i: usize = 0;
    while i < v.len()
        invariant
            i <= v.len(),
            r@.len() == i,
            forall|k: int| 0 <= k < i ==> r@[k]@ == v@[k]@,
        decreases v.len() - i,
    {
        r.push(chars_of(v[i].as_str()));
        i += 1;
    }
    assert(views(r@) =~= string_views(v@));
    r
}

/// The strings made of the characters of every element of `v`.
pub fn strings_of(v: &Vec<Vec<char>>) -> (r: Vec<String>)
    ensures
        string_views(r@) == views(v@),
{
    let mut r: Vec<String> = Vec::new();
    let mut i: usize = 0;
    while i < v.len()
        invariant
            i <= v.len(),
            r@.len() == i,
            forall|k: int| 0 <= k < i ==> r@[k]@ == v@[k]@,
        decreases v.len() - i,
    {
        r.push(string_of(&v[i]));
        i += 1;
    }
    assert(string_views(r@) =~= views(v@));
    r
}

/// Whether the character `c` occurs in `s`.
pub open spec fn has_char(s: Seq<char>, c: char) -> bool {
    exists|i: int| 0 <= i < s.len() && s[i] == c
}

/// Scanning a stretch without the separator gives the one piece that is
/// open.
pub proof fn lemma_split_scan_plain(s: Seq<char>, c: char, start: int, at: int)
    requires
        0 <= start <= at <= s.len(),
        forall|i: int| at <= i < s.len() ==> s[i] != c,
    ensures
        split_scan(s, seq![c], start, at) == seq![s.subrange(start, s.len() as int)],
    decreases s.len() - at,
{
    if at + 1 > s.len() {
    } else {
        assert(s.subrange(at, at + 1)[0] == s[at]);
        assert(!matches_at(s, seq![c], at));
        lemma_split_scan_plain(s, c, start, at + 1);
    }
}

/// Behind a text, a separator and a piece without separator, scanning finds
/// what it finds in the text alone, and then the piece.
pub proof fn lemma_split_scan_push(a: Seq<char>, b: Seq<char>, c: char, start: int, at: int)
    requires
        0 <= start <= at <= a.len(),
        !has_char(b, c),
    ensures
        split_scan(a + seq![c] + b, seq![c], start, at) == split_scan(a, seq![c], start, at).push(
            b,
        ),
    decreases a.len() - at,
{
    let s = a + seq![c] + b;
    let sep = seq![c];
    if at == a.len() {
        assert(s.subrange(at, at + 1) =~= sep);
        assert(matches_at(s, sep, at));
        assert forall|i: int| at + 1 <= i < s.len() implies s[i] != c by {
            assert(s[i] == b[i - at - 1]);
        }
        lemma_split_scan_plain(s, c, at + 1, at + 1);
        assert(s.subrange(at + 1, s.len() as int) =~= b);
        assert(s.subrange(start, at) =~= a.subrange(start, a.len() as int));
        assert(split_scan(a, sep, start, at) == seq![a.subrange(start, a.len() as int)]);
        assert(seq![s.subrange(start, at)] + seq![b] =~= seq![a.subrange(start, a.len() as int)].push(
            b,
        ));
    } else {
        assert(s.subrange(at, at + 1)[0] == s[at]);
        assert(a.subrange(at, at + 1)[0] == a[at]);
        assert(s[at] == a[at]);
        if a[at] == c {
            assert(s.subrange(at, at + 1) =~= sep);
            assert(a.subrange(at, at + 1) =~= sep);
            lemma_split_scan_push(a, b, c, at + 1, at + 1);
            assert(s.subrange(start, at) =~= a.subrange(start, at));
            assert(seq![s.subrange(start, at)] + split_scan(a, sep, at + 1, at + 1).push(b)
                =~= (seq![a.subrange(start, at)] + split_scan(a, sep, at + 1, at + 1)).push(b));
        } else {
            assert(!matches_at(s, sep, at));
            assert(!matches_at(a, sep, at));
            lemma_split_scan_push(a, b, c, start, at + 1);
        }
    }
}

/// Splitting what was joined gives the parts back, where there is at least
/// one part and none holds the separator.
pub proof fn lemma_split_join(parts: Seq<Seq<char>>, c: char)
    requires
        parts.len() >= 1,
        forall|i: int| 0 <= i < parts.len() ==> !has_char(#[trigger] parts[i], c),
    ensures
        split(join(parts, seq![c]), seq![c]) == parts,
    decreases parts.len(),
{
    if parts.len() == 1 {
        let s = parts[0];
        assert(!has_char(parts[0], c));
        assert forall|i: int| 0 <= i < s.len() implies s[i] != c by {}
        lemma_split_scan_plain(s, c, 0, 0);
        assert(s.subrange(0, s.len() as int) =~= s);
        assert(seq![s] =~= parts);
    } else {
        let init = parts.drop_last();
        assert forall|i: int| 0 <= i < init.len() implies !has_char(#[trigger] init[i], c) by {
            assert(init[i] == parts[i]);
        }
        lemma_split_join(init, c);
        assert(!has_char(parts[parts.len() - 1], c));
        lemma_split_scan_push(join(init, seq![c]), parts.last(), c, 0, 0);
        assert(init.push(parts.last()) =~= parts);
    }
}

/// A text that neither begins nor ends with white space is its own trimmed
/// form.
pub proof fn lemma_trim_clean(s: Seq<char>)
    requires
        s.len() > 0 ==> !is_space(s[0]) && !is_space(s[s.len() - 1]),
    ensures
        trim(s) == s,
{
    if s.len() > 0 {
        assert(space_run(s, 0) == 0);
        assert(space_run_back(s, 0, s.len() as int) == s.len());
        assert(s.subrange(0, s.len() as int) =~= s);
    } else {
        assert(s.subrange(0, 0) =~= s);
    }
}

/// A list that begins with an empty part is joined to the separator and the
/// rest of the list joined.
pub proof fn lemma_join_after_empty(parts: Seq<Seq<char>>, sep: Seq<char>)
    requires
        parts.len() >= 1,
    ensures
        join(seq![Seq::<char>::empty()] + parts, sep) == sep + join(parts, sep),
    decreases parts.len(),
{
    let e = Seq::<char>::empty();
    let all = seq![e] + parts;
    assert(all.last() == parts.last());
    if parts.len() == 1 {
        assert(all.drop_last() =~= seq![e]);
        assert(join(seq![e], sep) == e);
        assert(e + sep + parts.last() =~= sep + parts[0]);
    } else {
        let init = parts.drop_last();
        assert(all.drop_last() =~= seq![e] + init);
        lemma_join_after_empty(init, sep);
        assert((sep + join(init, sep)) + sep + parts.last() =~= sep + (join(init, sep) + sep
            + parts.last()));
    }
}

/// Of a list whose parts are not empty, behind one empty part, the parts
/// that are not empty are the list.
pub proof fn lemma_non_empty_after_empty(parts: Seq<Seq<char>>)
    requires
        forall|i: int| 0 <= i < parts.len() ==> (#[trigger] parts[i]).len() > 0,
    ensures
        non_empty(seq![Seq::<char>::empty()] + parts) == parts,
    decreases parts.len(),
{
    let e = Seq::<char>::empty();
    let all = seq![e] + parts;
    if parts.len() == 0 {
        assert(all.drop_last() =~= Seq::<Seq<char>>::empty());
        assert(all.last() == e);
        assert(non_empty(all.drop_last()) =~= Seq::<Seq<char>>::empty());
        assert(parts =~= Seq::<Seq<char>>::empty());
    } else {
        let init = parts.drop_last();
        assert(all.drop_last() =~= seq![e] + init);
        assert(all.last() == parts[parts.len() - 1]);
        assert forall|i: int| 0 <= i < init.len() implies (#[trigger] init[i]).len() > 0 by {
            assert(init[i] == parts[i]);
        }
        lemma_non_empty_after_empty(init);
        assert(init.push(parts[parts.len() - 1]) =~= parts);
    }
}

/// The text of two characters.
pub open spec fn pair(c: char, d: char) -> Seq<char> {
    seq![c, d]
}

/// Scanning a stretch without the first character of a separator of two
/// characters gives the one piece that is open.
pub proof fn lemma_split_scan_plain_pair(s: Seq<char>, c: char, d: char, start: int, at: int)
    requires
        0 <= start <= at <= s.len(),
        forall|i: int| at <= i < s.len() ==> s[i] != c,
    ensures
        split_scan(s, pair(c, d), start, at) == seq![s.subrange(start, s.len() as int)],
    decreases s.len() - at,
{
    if at + 2 > s.len() {
    } else {
        assert(s.subrange(at, at + 2)[0] == s[at]);
        assert(!matches_at(s, pair(c, d), at));
        lemma_split_scan_plain_pair(s, c, d, start, at + 1);
    }
}

/// Behind a text, a separator of two different characters and a piece
/// without the first of them, scanning finds what it finds in the text
/// alone, and then the piece: where the text from the place of the scan on
/// holds the first character only where a separator begins.
pub proof fn lemma_split_scan_push_pair(
    a: Seq<char>,
    b: Seq<char>,
    c: char,
    d: char,
    start: int,
    at: int,
)
    requires
        0 <= start <= at <= a.len(),
        c != d,
        !has_char(b, c),
        forall|i: int|
            at <= i < a.len() && #[trigger] a[i] == c ==> i + 1 < a.len() && a[i + 1] == d,
    ensures
        split_scan(a + pair(c, d) + b, pair(c, d), start, at) == split_scan(
            a,
            pair(c, d),
            start,
            at,
        ).push(b),
    decreases a.len() - at,
{
    let sep = pair(c, d);
    let s = a + sep + b;
    assert(s.len() == a.len() + 2 + b.len());
    if at == a.len() {
        assert(s.subrange(at, at + 2) =~= sep);
        assert(matches_at(s, sep, at));
        assert forall|i: int| at + 2 <= i < s.len() implies s[i] != c by {
            assert(s[i] == b[i - at - 2]);
        }
        lemma_split_scan_plain_pair(s, c, d, at + 2, at + 2);
        assert(s.subrange(at + 2, s.len() as int) =~= b);
        assert(s.subrange(start, at) =~= a.subrange(start, a.len() as int));
        assert(split_scan(a, sep, start, at) == seq![a.subrange(start, a.len() as int)]);
        assert(seq![s.subrange(start, at)] + seq![b] =~= seq![a.subrange(start, a.len() as int)].push(
            b,
        ));
    } else {
        assert(s[at] == a[at]);
        if a[at] == c {
            assert(at + 1 < a.len() && a[at + 1] == d);
            assert(s[at + 1] == a[at + 1]);
            assert(s.subrange(at, at + 2) =~= sep);
            assert(a.subrange(at, at + 2) =~= sep);
            lemma_split_scan_push_pair(a, b, c, d, at + 2, at + 2);
            assert(s.subrange(start, at) =~= a.subrange(start, at));
            assert(seq![s.subrange(start, at)] + split_scan(a, sep, at + 2, at + 2).push(b)
                =~= (seq![a.subrange(start, at)] + split_scan(a, sep, at + 2, at + 2)).push(b));
        } else {
            assert(s.subrange(at, at + 2)[0] == s[at]);
            assert(!matches_at(s, sep, at));
            if at + 2 <= a.len() {
                assert(a.subrange(at, at + 2)[0] == a[at]);
            }
            assert(!matches_at(a, sep, at));
            lemma_split_scan_push_pair(a, b, c, d, start, at + 1);
        }
    }
}

/// What was joined by a separator of two different characters holds the
/// first of them only where a separator begins, where no part holds it.
pub proof fn lemma_join_pair_marks(parts: Seq<Seq<char>>, c: char, d: char)
    requires
        c != d,
        forall|i: int| 0 <= i < parts.len() ==> !has_char(#[trigger] parts[i], c),
    ensures
        forall|i: int|
            0 <= i < join(parts, pair(c, d)).len() && #[trigger] join(parts, pair(c, d))[i] == c
                ==> i + 1 < join(parts, pair(c, d)).len() && join(parts, pair(c, d))[i + 1] == d,
    decreases parts.len(),
{
    let sep = pair(c, d);
    if parts.len() == 0 {
    } else if parts.len() == 1 {
        assert(!has_char(parts[0], c));
    } else {
        let init = parts.drop_last();
        let last = parts[parts.len() - 1];
        assert forall|i: int| 0 <= i < init.len() implies !has_char(#[trigger] init[i], c) by {
            assert(init[i] == parts[i]);
        }
        lemma_join_pair_marks(init, c, d);
        let a = join(init, sep);
        let s = join(parts, sep);
        assert(s == a + sep + last);
        assert(!has_char(last, c));
        assert forall|i: int| 0 <= i < s.len() && #[trigger] s[i] == c implies i + 1 < s.len()
            && s[i + 1] == d by {
            if i < a.len() {
                assert(s[i] == a[i]);
                assert(s[i + 1] == a[i + 1]);
            } else if i == a.len() {
                assert(s[i + 1] == sep[1]);
            } else if i == a.len() + 1 {
                assert(s[i] == sep[1]);
            } else {
                assert(s[i] == last[i - a.len() - 2]);
            }
        }
    }
}

/// Splitting what was joined by a separator of two different characters
/// gives the parts back, where there is at least one part and none holds
/// the first character of the separator.
pub proof fn lemma_split_join_pair(parts: Seq<Seq<char>>, c: char, d: char)
    requires
        parts.len() >= 1,
        c != d,
        forall|i: int| 0 <= i < parts.len() ==> !has_char(#[trigger] parts[i], c),
    ensures
        split(join(parts, pair(c, d)), pair(c, d)) == parts,
    decreases parts.len(),
{
    if parts.len() == 1 {
        let s = parts[0];
        assert(!has_char(parts[0], c));
        assert forall|i: int| 0 <= i < s.len() implies s[i] != c by {}
        lemma_split_scan_plain_pair(s, c, d, 0, 0);
        assert(s.subrange(0, s.len() as int) =~= s);
        assert(seq![s] =~= parts);
    } else {
        let init = parts.drop_last();
        assert forall|i: int| 0 <= i < init.len() implies !has_char(#[trigger] init[i], c) by {
            assert(init[i] == parts[i]);
        }
        lemma_split_join_pair(init, c, d);
        lemma_join_pair_marks(init, c, d);
        assert(!has_char(parts[parts.len() - 1], c));
        lemma_split_scan_push_pair(join(init, pair(c, d)), parts.last(), c, d, 0, 0);
        assert(init.push(parts.last()) =~= parts);
    }
}

/// A list with one part before it is joined to that part, the separator and
/// the list joined.
pub proof fn lemma_join_cons(first: Seq<char>, rest: Seq<Seq<char>>, sep: Seq<char>)
    requires
        rest.len() >= 1,
    ensures
        join(seq![first] + rest, sep) == first + sep + join(rest, sep),
    decreases rest.len(),
{
    let all = seq![first] + rest;
    assert(all.last() == rest.last());
    if rest.len() == 1 {
        assert(all.drop_last() =~= seq![first]);
        assert(join(seq![first], sep) == first);
        assert(first + sep + rest.last() =~= first + sep + rest[0]);
    } else {
        let init = rest.drop_last();
        assert(all.drop_last() =~= seq![first] + init);
        lemma_join_cons(first, init, sep);
        assert((first + sep + join(init, sep)) + sep + rest.last() =~= first + sep + (join(init, sep)
            + sep + rest.last()));
    }
}

/// The white space at the start of a text ends at or before a character
/// that is none.
pub proof fn lemma_space_run_stops(s: Seq<char>, at: int, i: int)
    requires
        0 <= at <= i < s.len(),
        !is_space(s[i]),
    ensures
        at <= space_run(s, at) <= i,
    decreases i - at,
{
    if at < i && is_space(s[at]) {
        lemma_space_run_stops(s, at + 1, i);
    }
}

/// The white space at the end of a text begins behind a character that is
/// none.
pub proof fn lemma_space_run_back_stops(s: Seq<char>, low: int, end: int, i: int)
    requires
        0 <= low <= i < end <= s.len(),
        !is_space(s[i]),
    ensures
        i < space_run_back(s, low, end) <= end,
    decreases end - i,
{
    if i + 1 < end && is_space(s[end - 1]) {
        lemma_space_run_back_stops(s, low, end - 1, i);
    }
}

/// A text with a character that is no white space is not blank.
pub proof fn lemma_not_blank(s: Seq<char>, i: int)
    requires
        0 <= i < s.len(),
        !is_space(s[i]),
    ensures
        !is_blank(s),
{
    lemma_space_run_stops(s, 0, i);
    let a = space_run(s, 0);
    lemma_space_run_back_stops(s, a, s.len() as int, i);
}

/// Whether a text holds no line break.
pub open spec fn unbroken(s: Seq<char>) -> bool {
    forall|i: int| 0 <= i < s.len() ==> #[trigger] s[i] != '\n'
}

/// Two texts without line break, one behind the other, hold none.
pub proof fn lemma_unbroken_concat(a: Seq<char>, b: Seq<char>)
    requires
        unbroken(a),
        unbroken(b),
    ensures
        unbroken(a + b),
{
    assert forall|i: int| 0 <= i < (a + b).len() implies #[trigger] (a + b)[i] != '\n' by {
        if i < a.len() {
            assert((a + b)[i] == a[i]);
        } else {
            assert((a + b)[i] == b[i - a.len()]);
        }
    }
}

/// Parts without line break, joined by a separator without line break,
/// hold none.
pub proof fn lemma_unbroken_join(parts: Seq<Seq<char>>, sep: Seq<char>)
    requires
        unbroken(sep),
        forall|i: int| 0 <= i < parts.len() ==> unbroken(#[trigger] parts[i]),
    ensures
        unbroken(join(parts, sep)),
    decreases parts.len(),
{
    if parts.len() == 1 {
        assert(unbroken(parts[0]));
    } else if parts.len() > 1 {
        let init = parts.drop_last();
        assert forall|i: int| 0 <= i < init.len() implies unbroken(#[trigger] init[i]) by {
            assert(init[i] == parts[i]);
        }
        lemma_unbroken_join(init, sep);
        assert(unbroken(parts[parts.len() - 1]));
        lemma_unbroken_concat(join(init, sep), sep);
        lemma_unbroken_concat(join(init, sep) + sep, parts.last());
    }
}

/// Two lists, each with at least one part, joined as one: each joined, with
/// the separator between them.
pub proof fn lemma_join_append(first: Seq<Seq<char>>, second: Seq<Seq<char>>, sep: Seq<char>)
    requires
        first.len() >= 1,
        second.len() >= 1,
    ensures
        join(first + second, sep) == join(first, sep) + sep + join(second, sep),
    decreases second.len(),
{
    let all = first + second;
    assert(all.last() == second.last());
    if second.len() == 1 {
        assert(all.drop_last() =~= first);
        assert(join(second, sep) == second[0]);
    } else {
        let init = second.drop_last();
        assert(all.drop_last() =~= first + init);
        lemma_join_append(first, init, sep);
        assert((join(first, sep) + sep + join(init, sep)) + sep + second.last() =~= join(first, sep)
            + sep + (join(init, sep) + sep + second.last()));
    }
}

} // verus!
