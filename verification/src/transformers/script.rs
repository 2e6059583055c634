//! The annotation block at the head of a card script: the xyyz text of the
//! card, wrapped to a line width and set between two rules of dashes.

use vstd::prelude::*;
use crate::card::{Card, CardTransformer, CardView};
use crate::number::{decimal, write_decimal_digits};
use crate::pattern::{replaced_first, Pattern};
use crate::setnames::{SetNameMap, SetNames};
use crate::text::{
    append, append_str, chars_of, has_prefix, join, join_with, split, split_inclusive,
    split_inclusive_on, split_on, starts_with, string_of, trim, trimmed, views,
};
use crate::transformers::xyyz::{card_text, cards_of_text, Grammar, Xyyz};

verus! {

/// The annotation block of a card script.
pub struct Script;

/// The line width that the block is wrapped to where none is given.
pub const DEFAULT_LINE_LENGTH: usize = 80;

/// The width of a text on screen: 1 for each ASCII character, 2 for any
/// other.
pub open spec fn display_width(s: Seq<char>) -> nat
    decreases s.len(),
{
    if s.len() == 0 {
        0
    } else {
        display_width(s.drop_last()) + if (s.last() as u32) < 0x80 {
            1nat
        } else {
            2nat
        }
    }
}

/// The lines that are full and the line that is being filled.
pub struct Wrapped {
    pub full: Seq<Seq<char>>,
    pub open: Seq<char>,
}

/// One line of text broken into lines of at most `max` width, if its
/// sentences allow: a sentence that would make a line that is not empty wider
/// than `max` starts a new line, which begins with three spaces.
pub open spec fn wrap_sentences(sentences: Seq<Seq<char>>, max: nat) -> Wrapped
    decreases sentences.len(),
{
    if sentences.len() == 0 {
        Wrapped { full: seq![], open: seq![] }
    } else {
        let before = wrap_sentences(sentences.drop_last(), max);
        let sentence = sentences.last();
        if sentence.len() == 0 {
            before
        } else if display_width(before.open) + display_width(sentence) > max && display_width(
            before.open,
        ) > 0 {
            Wrapped { full: before.full.push(before.open), open: "   "@ + sentence }
        } else {
            Wrapped { full: before.full, open: before.open + sentence }
        }
    }
}

/// The lines that one line of text makes; sentences end behind `。`.
pub open spec fn wrap_line(line: Seq<char>, max: nat) -> Seq<Seq<char>> {
    let w = wrap_sentences(split_inclusive(line, "。"@), max);
    w.full.push(w.open)
}

/// The lines that some lines of text make.
pub open spec fn wrap_lines(lines: Seq<Seq<char>>, max: nat) -> Seq<Seq<char>>
    decreases lines.len(),
{
    if lines.len() == 0 {
        seq![]
    } else {
        wrap_lines(lines.drop_last(), max) + wrap_line(lines.last(), max)
    }
}

/// The width of the widest line, 0 for no line.
pub open spec fn widest(lines: Seq<Seq<char>>) -> nat
    decreases lines.len(),
{
    if lines.len() == 0 {
        0
    } else {
        let before = widest(lines.drop_last());
        let last = display_width(lines.last());
        if last > before {
            last
        } else {
            before
        }
    }
}

/// A rule of `n` dashes.
pub open spec fn rule(n: nat) -> Seq<char> {
    Seq::new(n, |i: int| '-')
}

/// Every line behind the mark `--- `.
pub open spec fn marked(lines: Seq<Seq<char>>) -> Seq<Seq<char>> {
    lines.map_values(|l: Seq<char>| "--- "@ + l)
}

/// The block for a text: a rule 5 wider than the widest line, the marked
/// lines, and the rule again.
pub open spec fn block_text(text: Seq<char>, max: nat) -> Seq<char> {
    let lines = wrap_lines(split(text, "\n"@), max);
    let bar = rule(widest(lines) + 5);
    bar + "\n"@ + join(marked(lines), "\n"@) + "\n"@ + bar
}

/// `s` without the character `c`.
pub open spec fn without_char(s: Seq<char>, c: char) -> Seq<char>
    decreases s.len(),
{
    if s.len() == 0 {
        seq![]
    } else if s.last() != c {
        without_char(s.drop_last(), c).push(s.last())
    } else {
        without_char(s.drop_last(), c)
    }
}

/// The index of the first character at or after `at` that is no `c`.
pub open spec fn char_run(s: Seq<char>, c: char, at: int) -> int
    decreases s.len() - at,
{
    if 0 <= at < s.len() && s[at] == c {
        char_run(s, c, at + 1)
    } else {
        at
    }
}

/// What reading a script has found so far.
pub struct Annotation {
    /// Whether the first rule was seen.
    pub inside: bool,
    /// Whether the second rule was seen.
    pub done: bool,
    /// The text of the block.
    pub text: Seq<char>,
}

/// The state after one line of the script. The first line that begins with
/// `----` opens the block and the second ends it. In between, a line that
/// begins with `---` gives its text behind the dashes: on a new line of the
/// block, or, where it begins with two spaces, as the next part of the line
/// before.
pub open spec fn annotation_step(st: Annotation, origin: Seq<char>) -> Annotation {
    let line = trim(origin);
    if st.done {
        st
    } else if starts_with(line, "----"@) && st.inside {
        Annotation { done: true, ..st }
    } else {
        let inside = st.inside || starts_with(line, "----"@);
        if inside && starts_with(line, "---"@) {
            let rest = line.subrange(char_run(line, '-', 0), line.len() as int);
            let lead: Seq<char> = if !starts_with(rest, "  "@) && st.text.len() != 0 {
                "\n"@
            } else {
                seq![]
            };
            Annotation { inside: inside, done: false, text: st.text + lead + trim(rest) }
        } else {
            Annotation { inside: inside, ..st }
        }
    }
}

/// The state after the given lines of a script.
pub open spec fn annotation_steps(lines: Seq<Seq<char>>) -> Annotation
    decreases lines.len(),
{
    if lines.len() == 0 {
        Annotation { inside: false, done: false, text: seq![] }
    } else {
        annotation_step(annotation_steps(lines.drop_last()), lines.last())
    }
}

/// The xyyz text that the annotation block of a script holds. Carriage
/// returns count for nothing.
pub open spec fn annotation_text(script: Seq<char>) -> Seq<char> {
    annotation_steps(split(without_char(script, '\r'), "\n"@)).text
}

/// `s` with every occurrence of `from` replaced by `to`, leftmost first; an
/// empty `from` occurs nowhere.
pub open spec fn replace_all(s: Seq<char>, from: Seq<char>, to: Seq<char>) -> Seq<char> {
    join(split(s, from), to)
}

/// The regular expression of the annotation block at the head of a script.
pub open spec fn block_pattern() -> Seq<char> {
    "^-{4,}(\n--.*)*\n-{4,}"@
}

/// The content of a script with the block `target` put in: what the
/// replacement gave where the script had a block, else the block before the
/// script.
pub open spec fn merged_content(
    replaced: Option<Seq<char>>,
    target: Seq<char>,
    origin: Seq<char>,
) -> Seq<char> {
    match replaced {
        Some(text) => text,
        None => target + origin,
    }
}

/// The width of a text on screen.
pub fn width_of(s: &Vec<char>) -> (r: u128)
    ensures
        r == display_width(s@),
        r <= 2 * s@.len(),
        r <= 0x2_0000_0000_0000_0000,
{
    let mut r: u128 = 0;
    let mut i: usize = 0;
    assert(s@.take(0) =~= Seq::<char>::empty());
    while i < s.len()
        invariant
            i <= s.len(),
            r == display_width(s@.take(i as int)),
            r <= 2 * i,
        decreases s.len() - i,
    {
        proof {
            let next = s@.take(i + 1);
            assert(next.drop_last() =~= s@.take(i as int));
            assert(next.last() == s@[i as int]);
        }
        r = r + if (s[i] as u32) < 0x80 {
            1
        } else {
            2
        };
        i += 1;
    }
    assert(s@.take(s@.len() as int) =~= s@);
    r
}

/// The width of a text on screen, or the largest number where the width is
/// larger.
pub fn len(s: &str) -> (r: usize)
    ensures
        r as int == if display_width(s@) <= usize::MAX {
            display_width(s@) as int
        } else {
            usize::MAX as int
        },
{
    let w = width_of(&chars_of(s));
    if w <= usize::MAX as u128 {
        w as usize
    } else {
        usize::MAX
    }
}

/// `s` without the character `c`.
pub fn remove_char(s: &Vec<char>, c: char) -> (r: Vec<char>)
    ensures
        r@ == without_char(s@, c),
{
    let mut r: Vec<char> = Vec::new();
    let mut i: usize = 0;
    assert(s@.take(0) =~= Seq::<char>::empty());
    while i < s.len()
        invariant
            i <= s.len(),
            r@ == without_char(s@.take(i as int), c),
        decreases s.len() - i,
    {
        proof {
            let next = s@.take(i + 1);
            assert(next.drop_last() =~= s@.take(i as int));
            assert(next.last() == s@[i as int]);
        }
        if s[i] != c {
            r.push(s[i]);
        }
        i += 1;
    }
    assert(s@.take(s@.len() as int) =~= s@);
    r
}

/// One line of text broken into lines of at most `max` width.
fn wrap_one(line: &Vec<char>, max: usize) -> (r: Vec<Vec<char>>)
    ensures
        views(r@) == wrap_line(line@, max as nat),
{
    let stop = chars_of("。");
    proof {
        reveal_strlit("。");
    }
    let sentences = split_inclusive_on(line, &stop);
    let mut full: Vec<Vec<char>> = Vec::new();
    let mut open: Vec<char> = Vec::new();
    let mut i: usize = 0;
    assert(views(full@) =~= Seq::<Seq<char>>::empty());
    while i < sentences.len()
        invariant
            i <= sentences.len(),
            wrap_sentences(views(sentences@).take(i as int), max as nat) == (Wrapped {
                full: views(full@),
                open: open@,
            }),
        decreases sentences.len() - i,
    {
        proof {
            let next = views(sentences@).take(i + 1);
            assert(next.drop_last() =~= views(sentences@).take(i as int));
            assert(next.last() == sentences@[i as int]@);
        }
        let sentence = &sentences[i];
        if sentence.len() > 0 {
            let w = width_of(&open);
            if w + width_of(sentence) > max as u128 && w > 0 {
                proof {
                    assert(views(full@.push(open)) =~= views(full@).push(open@));
                }
                full.push(open);
                open = chars_of("   ");
                append(&mut open, sentence);
            } else {
                append(&mut open, sentence);
            }
        }
        i += 1;
    }
    assert(views(sentences@).take(sentences@.len() as int) =~= views(sentences@));
    proof {
        assert(views(full@.push(open)) =~= views(full@).push(open@));
    }
    full.push(open);
    full
}

/// A rule of `n` dashes.
fn rule_of(n: u128) -> (r: Vec<char>)
    ensures
        r@ == rule(n as nat),
{
    let mut r: Vec<char> = Vec::new();
    let mut i: u128 = 0;
    while i < n
        invariant
            i <= n,
            r@ == rule(i as nat),
        decreases n - i,
    {
        r.push('-');
        i += 1;
        assert(r@ =~= rule(i as nat));
    }
    r
}

/// The block for a text.
pub fn block_of(text: &Vec<char>, max: usize) -> (r: Vec<char>)
    ensures
        r@ == block_text(text@, max as nat),
{
    let newline = chars_of("\n");
    proof {
        reveal_strlit("\n");
    }
    let lines = split_on(text, &newline);
    let mut wrapped: Vec<Vec<char>> = Vec::new();
    let mut i: usize = 0;
    assert(views(wrapped@) =~= Seq::<Seq<char>>::empty());
    while i < lines.len()
        invariant
            i <= lines.len(),
            views(wrapped@) == wrap_lines(views(lines@).take(i as int), max as nat),
        decreases lines.len() - i,
    {
        proof {
            let next = views(lines@).take(i + 1);
            assert(next.drop_last() =~= views(lines@).take(i as int));
            assert(next.last() == lines@[i as int]@);
        }
        let mut more = wrap_one(&lines[i], max);
        let ghost before = views(wrapped@);
        let ghost added = views(more@);
        wrapped.append(&mut more);
        assert(views(wrapped@) =~= before + added);
        i += 1;
    }
    assert(views(lines@).take(lines@.len() as int) =~= views(lines@));
    let mut most: u128 = 0;
    let mut marks: Vec<Vec<char>> = Vec::new();
    let mut k: usize = 0;
    while k < wrapped.len()
        invariant
            k <= wrapped.len(),
            most == widest(views(wrapped@).take(k as int)),
            most <= 0x2_0000_0000_0000_0000,
            marks@.len() == k,
            forall|j: int| 0 <= j < k ==> marks@[j]@ == "--- "@ + wrapped@[j]@,
        decreases wrapped.len() - k,
    {
        proof {
            let next = views(wrapped@).take(k + 1);
            assert(next.drop_last() =~= views(wrapped@).take(k as int));
            assert(next.last() == wrapped@[k as int]@);
        }
        let w = width_of(&wrapped[k]);
        if w > most {
            most = w;
        }
        let mut mark = chars_of("--- ");
        append(&mut mark, &wrapped[k]);
        marks.push(mark);
        k += 1;
    }
    assert(views(wrapped@).take(wrapped@.len() as int) =~= views(wrapped@));
    assert(views(marks@) =~= marked(views(wrapped@)));
    let bar = rule_of(most + 5);
    let mut out: Vec<char> = Vec::new();
    append(&mut out, &bar);
    append(&mut out, &newline);
    append(&mut out, &join_with(&marks, &newline));
    append(&mut out, &newline);
    append(&mut out, &bar);
    assert(out@ =~= block_text(text@, max as nat));
    out
}

/// The xyyz text that the annotation block of a script holds.
pub fn annotation_of(script: &Vec<char>) -> (r: Vec<char>)
    ensures
        r@ == annotation_text(script@),
{
    let clean = remove_char(script, '\r');
    let newline = chars_of("\n");
    let rule4 = chars_of("----");
    let rule3 = chars_of("---");
    let spaces = chars_of("  ");
    proof {
        reveal_strlit("\n");
    }
    let lines = split_on(&clean, &newline);
    let mut inside = false;
    let mut done = false;
    let mut text: Vec<char> = Vec::new();
    let mut i: usize = 0;
    while i < lines.len()
        invariant
            i <= lines.len(),
            newline@ == "\n"@,
            rule4@ == "----"@,
            rule3@ == "---"@,
            spaces@ == "  "@,
            annotation_steps(views(lines@).take(i as int)) == (Annotation {
                inside,
                done,
                text: text@,
            }),
        decreases lines.len() - i,
    {
        proof {
            let next = views(lines@).take(i + 1);
            assert(next.drop_last() =~= views(lines@).take(i as int));
            assert(next.last() == lines@[i as int]@);
        }
        let line = trimmed(&lines[i]);
        if done {
        } else if has_prefix(&line, &rule4) && inside {
            done = true;
        } else {
            if has_prefix(&line, &rule4) {
                inside = true;
            }
            if inside && has_prefix(&line, &rule3) {
                let mut at: usize = 0;
                while at < line.len() && line[at] == '-'
                    invariant
                        at <= line.len(),
                        char_run(line@, '-', 0) == char_run(line@, '-', at as int),
                    decreases line.len() - at,
                {
                    at += 1;
                }
                let rest = crate::text::slice_of(&line, at, line.len());
                let ghost before = text@;
                let ghost lead: Seq<char> = if !starts_with(rest@, "  "@) && before.len() != 0 {
                    "\n"@
                } else {
                    seq![]
                };
                if !has_prefix(&rest, &spaces) && text.len() != 0 {
                    append(&mut text, &newline);
                }
                append(&mut text, &trimmed(&rest));
                assert(text@ =~= before + lead + trim(rest@));
            }
        }
        i += 1;
    }
    assert(views(lines@).take(lines@.len() as int) =~= views(lines@));
    text
}

/// `s` with every occurrence of `from` replaced by `to`.
pub fn replace(s: &Vec<char>, from: &Vec<char>, to: &Vec<char>) -> (r: Vec<char>)
    ensures
        r@ == replace_all(s@, from@, to@),
{
    let parts = split_on(s, from);
    join_with(&parts, to)
}

impl Script {
    /// The annotation block of a card, wrapped to the given width.
    pub fn to_string_with(card: &Card, names: &SetNames, max_line_length: usize) -> (r: String)
        ensures
            r@ == block_text(card_text(card@, names@), max_line_length as nat),
    {
        let text = Xyyz::to_string(card, names);
        let block = block_of(&chars_of(text.as_str()), max_line_length);
        string_of(&block)
    }

    /// The path of the script of a card: `path` with the code of the card in
    /// place of every `{id}`.
    pub fn target_path(path: &str, code: u32) -> (r: String)
        ensures
            r@ == replace_all(path@, "{id}"@, decimal(code as int)),
    {
        let mark = chars_of("{id}");
        proof {
            reveal_strlit("{id}");
        }
        let digits = write_decimal_digits(code as u64);
        string_of(&replace(&chars_of(path), &mark, &digits))
    }

    /// The content of a script with the block `target` put in, given what the
    /// replacement of its block made.
    pub fn merge_content(replaced: Option<String>, target: &str, origin: &str) -> (r: String)
        ensures
            r@ == merged_content(
                match replaced {
                    Some(t) => Some(t@),
                    None => None,
                },
                target@,
                origin@,
            ),
    {
        match replaced {
            Some(text) => text,
            None => {
                let mut out = chars_of(target);
                append_str(&mut out, origin);
                string_of(&out)
            },
        }
    }

    /// The content of the script of a card, given the content it had: the
    /// block of the card in place of the block at its head, or before it
    /// where it had none.
    pub fn updated_content(
        origin: &str,
        card: &Card,
        names: &SetNames,
        max_line_length: usize,
    ) -> (r: String)
        ensures
            r@ == merged_content(
                replaced_first(
                    block_pattern(),
                    origin@,
                    block_text(card_text(card@, names@), max_line_length as nat),
                ),
                block_text(card_text(card@, names@), max_line_length as nat),
                origin@,
            ),
    {
        let head = Pattern::new("^-{4,}(\n--.*)*\n-{4,}");
        let target = Self::to_string_with(card, names, max_line_length);
        let replaced = head.replace_first(origin, target.as_str());
        Self::merge_content(replaced, target.as_str(), origin)
    }
}

impl CardTransformer for Script {
    open spec fn text_of(card: CardView, names: SetNameMap) -> Seq<char> {
        block_text(card_text(card, names), DEFAULT_LINE_LENGTH as nat)
    }

    open spec fn cards_of(text: Seq<char>, names: SetNameMap) -> Seq<CardView> {
        cards_of_text(annotation_text(text), names)
    }

    fn to_string(card: &Card, names: &SetNames) -> (r: String) {
        Self::to_string_with(card, names, DEFAULT_LINE_LENGTH)
    }

    fn from_string(text: &str, names: &SetNames) -> (r: Vec<Card>) {
        let inner = annotation_of(&chars_of(text));
        let grammar = Grammar::new();
        Xyyz::read_text(&inner, &grammar, names)
    }
}

} // verus!
