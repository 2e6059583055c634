//! What reading the xyyz notation could not make sense of: the names that
//! it dropped, for a caller who wants to warn or to refuse.

use vstd::prelude::*;
use crate::names::{
    attribute_names, attribute_table, category_names, category_table, find_key, key_of,
    linkmarker_names, linkmarker_table, noneffect_names, noneffect_table, ot_names, ot_table,
    race_names, race_table, table_view, type_names, type_table, NameTable, Names,
};
use crate::pattern::{captures_of, groups_view, match_view, Groups};
use crate::setnames::{token_id, SetNameMap, SetNames};
use crate::text::{
    blank, chars_of, drop_empty, has_prefix, has_suffix, is_blank, non_empty, slice_of, split,
    split_on, starts_with, string_of, strip_leading, trim, trim_all, trim_each, trim_start_matches,
    trimmed, views,
};
use crate::transformers::xyyz::{
    group, group_of, header_pattern, inner, is_header, is_stats, level_of_text, stat_pattern,
    without_cr, Grammar,
};

verus! {

/// What a text that was dropped should have been.
#[derive(Clone, Copy, Debug, PartialEq, Eq, Structural)]
pub enum WarningKind {
    /// The name of a flag: an attribute, race, kind, link arrow, rule set or
    /// category.
    Name,
    /// A level, rank or link rating.
    Level,
    /// The name of a set.
    Series,
}

/// A text that reading dropped.
#[derive(Debug)]
pub struct Warning {
    pub kind: WarningKind,
    pub text: String,
}

/// The mathematical model of a [`Warning`].
pub struct WarningView {
    pub kind: WarningKind,
    pub text: Seq<char>,
}

impl View for Warning {
    type V = WarningView;

    open spec fn view(&self) -> WarningView {
        WarningView { kind: self.kind, text: self.text@ }
    }
}

/// The models of a list of warnings.
pub open spec fn warning_views(warnings: Seq<Warning>) -> Seq<WarningView> {
    warnings.map_values(|w: Warning| w@)
}

/// A warning for each token that has no key in the table, in their order.
pub open spec fn unknown_names(tokens: Seq<Seq<char>>, table: NameTable) -> Seq<WarningView>
    decreases tokens.len(),
{
    if tokens.len() == 0 {
        seq![]
    } else if key_of(table, tokens.last()) is None {
        unknown_names(tokens.drop_last(), table).push(
            WarningView { kind: WarningKind::Name, text: tokens.last() },
        )
    } else {
        unknown_names(tokens.drop_last(), table)
    }
}

/// A warning for each token that denotes no set, with the token trimmed, in
/// their order.
pub open spec fn unknown_sets(tokens: Seq<Seq<char>>, names: SetNameMap) -> Seq<WarningView>
    decreases tokens.len(),
{
    if tokens.len() == 0 {
        seq![]
    } else if token_id(names, tokens.last()) is None {
        unknown_sets(tokens.drop_last(), names).push(
            WarningView { kind: WarningKind::Series, text: trim(tokens.last()) },
        )
    } else {
        unknown_sets(tokens.drop_last(), names)
    }
}

/// The warnings of the stats of a monster: attributes, level, races, the
/// subtype list and link arrows, in this order.
pub open spec fn stat_warnings(stats: Seq<Option<Seq<char>>>) -> Seq<WarningView> {
    let level = group(stats, 2)->0;
    let subtype = match group(stats, 4) {
        Some(s) => s,
        None => seq![],
    };
    unknown_names(split(group(stats, 1)->0, "/"@), attribute_table()) + (if level_of_text(level)
        is None {
        seq![WarningView { kind: WarningKind::Level, text: level }]
    } else {
        seq![]
    }) + unknown_names(split(group(stats, 3)->0, "/"@), race_table()) + unknown_names(
        non_empty(split(subtype, "/"@)),
        noneffect_table() + type_table(),
    ) + (match group(stats, 7) {
        Some(arrows) if arrows.len() > 0 => unknown_names(
            split(inner(arrows), "]["@),
            linkmarker_table(),
        ),
        _ => seq![],
    })
}

/// The warnings of a header line: rule sets first, then the stats where the
/// line has any.
pub open spec fn header_warnings(
    groups: Seq<Option<Seq<char>>>,
    stats: Option<Seq<Option<Seq<char>>>>,
) -> Seq<WarningView> {
    (match group(groups, 8) {
        Some(o) => unknown_names(trim_each(split(o, "&"@)), ot_table()),
        None => seq![],
    }) + (match stats {
        Some(s) if is_stats(s) => stat_warnings(s),
        _ => seq![],
    })
}

/// The warnings of a line that follows a header: the sets of a series line
/// and the categories of a category line.
pub open spec fn line_warnings(line: Seq<char>, names: SetNameMap) -> Seq<WarningView> {
    if starts_with(line, "系列字段："@) {
        unknown_sets(split(trim_start_matches(line, "系列字段："@), "、"@), names)
    } else if starts_with(line, "系列："@) {
        unknown_sets(split(trim_start_matches(line, "系列："@), "、"@), names)
    } else if starts_with(line, "效果分类："@) {
        unknown_names(
            trim_each(split(trim_start_matches(line, "效果分类："@), "、"@)),
            category_table(),
        )
    } else {
        seq![]
    }
}

/// What going through a text for warnings holds: the warnings so far, and
/// whether a card is open.
pub struct Watch {
    pub warnings: Seq<WarningView>,
    pub open: bool,
}

/// The state after one line: a header line adds the warnings of the header
/// and opens a card, any other line that is no comment and not blank adds
/// its warnings where a card is open.
pub open spec fn watch_step(st: Watch, raw: Seq<char>, names: SetNameMap) -> Watch {
    let line = without_cr(raw);
    if starts_with(line, "#"@) || is_blank(line) {
        st
    } else {
        match captures_of(header_pattern(), line) {
            Some(groups) if is_header(groups) => Watch {
                warnings: st.warnings + header_warnings(
                    groups,
                    captures_of(stat_pattern(), group(groups, 6)->0),
                ),
                open: true,
            },
            _ => if st.open {
                Watch { warnings: st.warnings + line_warnings(line, names), open: true }
            } else {
                st
            },
        }
    }
}

/// The warnings of a text whose lines before `start` were gone through.
pub open spec fn watch_scan(
    text: Seq<char>,
    names: SetNameMap,
    st: Watch,
    start: int,
    at: int,
) -> Seq<WarningView>
    decreases text.len() - at,
{
    if start < 0 || at < start || at >= text.len() {
        watch_step(st, text.subrange(start, text.len() as int), names).warnings
    } else if text[at] == '\n' {
        watch_scan(text, names, watch_step(st, text.subrange(start, at), names), at + 1, at + 1)
    } else {
        watch_scan(text, names, st, start, at + 1)
    }
}

/// The warnings of a text: for each name that reading drops, in the order of
/// the text.
pub open spec fn warnings_of_text(text: Seq<char>, names: SetNameMap) -> Seq<WarningView> {
    watch_scan(text, names, Watch { warnings: seq![], open: false }, 0, 0)
}

/// Adds a warning for each token that has no key in the table.
fn add_unknown_names(out: &mut Vec<Warning>, tokens: &Vec<Vec<char>>, table: &Names)
    ensures
        warning_views(final(out)@) == warning_views(old(out)@) + unknown_names(
            views(tokens@),
            table_view(table@),
        ),
{
    let ghost before = warning_views(out@);
    let mut i: usize = 0;
    assert(views(tokens@).take(0) =~= Seq::<Seq<char>>::empty());
    assert(before + Seq::<WarningView>::empty() =~= before);
    while i < tokens.len()
        invariant
            i <= tokens.len(),
            warning_views(out@) == before + unknown_names(
                views(tokens@).take(i as int),
                table_view(table@),
            ),
        decreases tokens.len() - i,
    {
        proof {
            let next = views(tokens@).take(i + 1);
            assert(next.drop_last() =~= views(tokens@).take(i as int));
            assert(next.last() == tokens@[i as int]@);
        }
        match find_key(table, &tokens[i]) {
            Some(_) => {},
            None => {
                let w = Warning { kind: WarningKind::Name, text: string_of(&tokens[i]) };
                let ghost so_far = warning_views(out@);
                out.push(w);
                assert(warning_views(out@) =~= so_far.push(w@));
                assert(warning_views(out@) =~= before + unknown_names(
                    views(tokens@).take(i + 1),
                    table_view(table@),
                ));
            },
        }
        i += 1;
    }
    assert(views(tokens@).take(tokens@.len() as int) =~= views(tokens@));
}

/// Adds a warning for each token that denotes no set.
fn add_unknown_sets(out: &mut Vec<Warning>, tokens: &Vec<Vec<char>>, names: &SetNames)
    ensures
        warning_views(final(out)@) == warning_views(old(out)@) + unknown_sets(
            views(tokens@),
            names@,
        ),
{
    let ghost before = warning_views(out@);
    let mut i: usize = 0;
    assert(views(tokens@).take(0) =~= Seq::<Seq<char>>::empty());
    assert(before + Seq::<WarningView>::empty() =~= before);
    while i < tokens.len()
        invariant
            i <= tokens.len(),
            warning_views(out@) == before + unknown_sets(views(tokens@).take(i as int), names@),
        decreases tokens.len() - i,
    {
        proof {
            let next = views(tokens@).take(i + 1);
            assert(next.drop_last() =~= views(tokens@).take(i as int));
            assert(next.last() == tokens@[i as int]@);
        }
        match names.token(&tokens[i]) {
            Some(_) => {},
            None => {
                let w = Warning { kind: WarningKind::Series, text: string_of(&trimmed(&tokens[i])) };
                let ghost so_far = warning_views(out@);
                out.push(w);
                assert(warning_views(out@) =~= so_far.push(w@));
                assert(warning_views(out@) =~= before + unknown_sets(
                    views(tokens@).take(i + 1),
                    names@,
                ));
            },
        }
        i += 1;
    }
    assert(views(tokens@).take(tokens@.len() as int) =~= views(tokens@));
}

/// Adds the warnings of the stats of a monster.
fn add_stat_warnings(out: &mut Vec<Warning>, stats: &Groups)
    requires
        is_stats(groups_view(stats@)),
    ensures
        warning_views(final(out)@) == warning_views(old(out)@) + stat_warnings(
            groups_view(stats@),
        ),
{
    let ghost before = warning_views(out@);
    let ghost g = groups_view(stats@);
    let slash = chars_of("/");
    let attribute = group_of(stats, 1).unwrap();
    let level = group_of(stats, 2).unwrap();
    let race = group_of(stats, 3).unwrap();
    let subtype = match group_of(stats, 4) {
        Some(t) => t,
        None => Vec::new(),
    };
    add_unknown_names(out, &split_on(&attribute, &slash), &attribute_names());
    let ghost first = unknown_names(split(group(g, 1)->0, "/"@), attribute_table());
    let star = chars_of("星");
    let rank = chars_of("阶");
    let link = chars_of("LINK-");
    let known = has_suffix(&level, &star) || has_suffix(&level, &rank) || has_prefix(&level, &link);
    let ghost second: Seq<WarningView> = if level_of_text(level@) is None {
        seq![WarningView { kind: WarningKind::Level, text: level@ }]
    } else {
        seq![]
    };
    if !known {
        let w = Warning { kind: WarningKind::Level, text: string_of(&level) };
        let ghost so_far = warning_views(out@);
        out.push(w);
        assert(warning_views(out@) =~= so_far.push(w@));
    }
    assert(warning_views(out@) =~= before + first + second);
    add_unknown_names(out, &split_on(&race, &slash), &race_names());
    let ghost third = unknown_names(split(group(g, 3)->0, "/"@), race_table());
    let mut table = noneffect_names();
    let mut kinds = type_names();
    let ghost t1 = table_view(table@);
    let ghost t2 = table_view(kinds@);
    table.append(&mut kinds);
    assert(table_view(table@) =~= t1 + t2);
    add_unknown_names(out, &drop_empty(&split_on(&subtype, &slash)), &table);
    let ghost fourth = unknown_names(
        non_empty(split(subtype@, "/"@)),
        noneffect_table() + type_table(),
    );
    assert(warning_views(out@) =~= before + first + second + third + fourth);
    let ghost fifth: Seq<WarningView> = match group(g, 7) {
        Some(arrows) if arrows.len() > 0 => unknown_names(
            split(inner(arrows), "]["@),
            linkmarker_table(),
        ),
        _ => seq![],
    };
    match group_of(stats, 7) {
        Some(arrows) => {
            if arrows.len() > 0 {
                let middle = if arrows.len() >= 2 {
                    slice_of(&arrows, 1, arrows.len() - 1)
                } else {
                    Vec::new()
                };
                let sep = chars_of("][");
                add_unknown_names(out, &split_on(&middle, &sep), &linkmarker_names());
            }
        },
        None => {},
    }
    assert(warning_views(out@) =~= before + first + second + third + fourth + fifth);
    assert(warning_views(out@) =~= before + (first + second + third + fourth + fifth));
}

/// The warnings of a header line, given its groups and what the stat
/// expression found in group 6.
pub fn warnings_of_header(groups: &Groups, stats: &Option<Groups>) -> (r: Vec<Warning>)
    ensures
        warning_views(r@) == header_warnings(groups_view(groups@), match_view(*stats)),
{
    let mut out: Vec<Warning> = Vec::new();
    assert(warning_views(out@) =~= Seq::<WarningView>::empty());
    let ghost first: Seq<WarningView> = match group(groups_view(groups@), 8) {
        Some(o) => unknown_names(trim_each(split(o, "&"@)), ot_table()),
        None => seq![],
    };
    match group_of(groups, 8) {
        Some(o) => {
            let sep = chars_of("&");
            add_unknown_names(&mut out, &trim_all(&split_on(&o, &sep)), &ot_names());
        },
        None => {},
    }
    assert(warning_views(out@) =~= first);
    match stats {
        Some(s) => {
            if group_of(s, 1).is_some() && group_of(s, 2).is_some() && group_of(s, 3).is_some()
                && group_of(s, 5).is_some() && group_of(s, 6).is_some() {
                add_stat_warnings(&mut out, s);
            } else {
                assert(first + Seq::<WarningView>::empty() =~= first);
            }
        },
        None => {
            assert(first + Seq::<WarningView>::empty() =~= first);
        },
    }
    out
}

/// The warnings of a line that follows a header.
pub fn warnings_of_line(line: &str, names: &SetNames) -> (r: Vec<Warning>)
    ensures
        warning_views(r@) == line_warnings(line@, names@),
{
    let mut out: Vec<Warning> = Vec::new();
    assert(warning_views(out@) =~= Seq::<WarningView>::empty());
    let line = chars_of(line);
    let field = chars_of("系列字段：");
    let series = chars_of("系列：");
    let category = chars_of("效果分类：");
    let sep = chars_of("、");
    if has_prefix(&line, &field) {
        add_unknown_sets(&mut out, &split_on(&strip_leading(&line, &field), &sep), names);
    } else if has_prefix(&line, &series) {
        add_unknown_sets(&mut out, &split_on(&strip_leading(&line, &series), &sep), names);
    } else if has_prefix(&line, &category) {
        add_unknown_names(
            &mut out,
            &trim_all(&split_on(&strip_leading(&line, &category), &sep)),
            &category_names(),
        );
    }
    assert(Seq::<WarningView>::empty() + line_warnings(line@, names@) =~= line_warnings(
        line@,
        names@,
    ));
    out
}

/// Goes through one line for warnings.
fn watch_line(
    out: &mut Vec<Warning>,
    open: bool,
    raw: &Vec<char>,
    grammar: &Grammar,
    names: &SetNames,
) -> (r: bool)
    requires
        grammar.is_xyyz(),
    ensures
        (Watch { warnings: warning_views(final(out)@), open: r }) == watch_step(
            Watch { warnings: warning_views(old(out)@), open: open },
            raw@,
            names@,
        ),
{
    let ghost before = warning_views(out@);
    let line = if raw.len() > 0 && raw[raw.len() - 1] == '\r' {
        slice_of(raw, 0, raw.len() - 1)
    } else {
        slice_of(raw, 0, raw.len())
    };
    assert(line@ =~= without_cr(raw@));
    let comment = chars_of("#");
    if has_prefix(&line, &comment) || blank(&line) {
        return open;
    }
    let text = string_of(&line);
    let found = grammar.header.captures(text.as_str());
    match &found {
        Some(groups) => {
            if group_of(groups, 2).is_some() && group_of(groups, 3).is_some() {
                match group_of(groups, 6) {
                    Some(rest) => {
                        let stats = grammar.stats.captures(string_of(&rest).as_str());
                        let mut more = warnings_of_header(groups, &stats);
                        let ghost added = warning_views(more@);
                        out.append(&mut more);
                        assert(warning_views(out@) =~= before + added);
                        return true;
                    },
                    None => {},
                }
            }
        },
        None => {},
    }
    if open {
        let mut more = warnings_of_line(text.as_str(), names);
        let ghost added = warning_views(more@);
        out.append(&mut more);
        assert(warning_views(out@) =~= before + added);
    }
    open
}

/// The warnings of a text: for each name that reading drops, in the order of
/// the text.
pub fn warnings(text: &str, names: &SetNames) -> (r: Vec<Warning>)
    ensures
        warning_views(r@) == warnings_of_text(text@, names@),
{
    let grammar = Grammar::new();
    let text = chars_of(text);
    let mut out: Vec<Warning> = Vec::new();
    assert(warning_views(out@) =~= Seq::<WarningView>::empty());
    let mut open = false;
    let mut start: usize = 0;
    let mut at: usize = 0;
    while at < text.len()
        invariant
            grammar.is_xyyz(),
            start <= at <= text.len(),
            warnings_of_text(text@, names@) == watch_scan(
                text@,
                names@,
                Watch { warnings: warning_views(out@), open: open },
                start as int,
                at as int,
            ),
        decreases text.len() - at,
    {
        if text[at] == '\n' {
            let raw = slice_of(&text, start, at);
            open = watch_line(&mut out, open, &raw, &grammar, names);
            start = at + 1;
        }
        at += 1;
    }
    let raw = slice_of(&text, start, text.len());
    let _ = watch_line(&mut out, open, &raw, &grammar, names);
    out
}

} // verus!
