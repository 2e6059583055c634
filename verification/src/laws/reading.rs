//! Reading line by line: the cards of a text are what its lines, taken one
//! after the other, make of the state of the reader.

use vstd::prelude::*;
use crate::setnames::SetNameMap;
use crate::text::{matches_at, split, split_scan};
use crate::transformers::xyyz::{cards_of_text, finished, line_step, read_scan, ReaderState};

verus! {

/// The state of the reader after the given lines, the first of which starts
/// at `offset` and each following one behind the line break of the line
/// before.
pub open spec fn read_lines(
    lines: Seq<Seq<char>>,
    names: SetNameMap,
    st: ReaderState,
    offset: int,
) -> ReaderState
    decreases lines.len(),
{
    if lines.len() == 0 {
        st
    } else {
        read_lines(
            lines.drop_first(),
            names,
            line_step(st, lines[0], offset as usize, names),
            offset + lines[0].len() + 1,
        )
    }
}

/// Scanning a text from a place on reads the lines that splitting finds from
/// that place on.
pub proof fn lemma_scan_reads_lines(
    text: Seq<char>,
    names: SetNameMap,
    st: ReaderState,
    start: int,
    at: int,
)
    requires
        0 <= start <= at <= text.len(),
    ensures
        read_scan(text, names, st, start, at) == finished(
            read_lines(split_scan(text, seq!['\n'], start, at), names, st, start),
            text.len() as usize,
        ),
    decreases text.len() - at,
{
    let sep = seq!['\n'];
    if at >= text.len() {
        let piece = text.subrange(start, text.len() as int);
        let lines = seq![piece];
        assert(split_scan(text, sep, start, at) == lines);
        assert(lines.drop_first() =~= Seq::<Seq<char>>::empty());
        assert(read_lines(lines.drop_first(), names, line_step(st, piece, start as usize, names), start
            + piece.len() + 1) == line_step(st, piece, start as usize, names));
    } else {
        assert(text.subrange(at, at + 1)[0] == text[at]);
        if text[at] == '\n' {
            assert(text.subrange(at, at + 1) =~= sep);
            assert(matches_at(text, sep, at));
            let piece = text.subrange(start, at);
            let next = line_step(st, piece, start as usize, names);
            lemma_scan_reads_lines(text, names, next, at + 1, at + 1);
            let rest = split_scan(text, sep, at + 1, at + 1);
            let lines = seq![piece] + rest;
            assert(split_scan(text, sep, start, at) == lines);
            assert(lines.drop_first() =~= rest);
            assert(lines[0] == piece);
        } else {
            assert(!matches_at(text, sep, at));
            lemma_scan_reads_lines(text, names, st, start, at + 1);
        }
    }
}

/// The cards of a text are what reading its lines one after the other
/// leaves, the open card ended with the text.
pub proof fn lemma_text_reads_lines(text: Seq<char>, names: SetNameMap)
    ensures
        cards_of_text(text, names) == finished(
            read_lines(
                split(text, "\n"@),
                names,
                ReaderState { cards: seq![], current: None },
                0,
            ),
            text.len() as usize,
        ),
{
    reveal_strlit("\n");
    assert("\n"@ =~= seq!['\n']);
    lemma_scan_reads_lines(text, names, ReaderState { cards: seq![], current: None }, 0, 0);
}

/// Reading two runs of lines one after the other: the second run starts
/// behind the first.
pub proof fn lemma_read_lines_append(
    first: Seq<Seq<char>>,
    second: Seq<Seq<char>>,
    names: SetNameMap,
    st: ReaderState,
    offset: int,
)
    ensures
        read_lines(first + second, names, st, offset) == read_lines(
            second,
            names,
            read_lines(first, names, st, offset),
            offset + lines_len(first),
        ),
    decreases first.len(),
{
    if first.len() == 0 {
        assert(first + second =~= second);
    } else {
        let all = first + second;
        assert(all[0] == first[0]);
        assert(all.drop_first() =~= first.drop_first() + second);
        lemma_read_lines_append(
            first.drop_first(),
            second,
            names,
            line_step(st, first[0], offset as usize, names),
            offset + first[0].len() + 1,
        );
    }
}

/// The number of characters of the lines, each with its line break.
pub open spec fn lines_len(lines: Seq<Seq<char>>) -> int
    decreases lines.len(),
{
    if lines.len() == 0 {
        0
    } else {
        lines[0].len() + 1 + lines_len(lines.drop_first())
    }
}

} // verus!
