use vstd::prelude::*;

use crate::config::Config;
use crate::text::{
    chars_of, contains_chars, decimal, decimal_chars, is_infix, lines_of, lower_of, lowercase,
    split_lines, string_of, views,
};

verus! {

/// Whether a line is selected, given the case-folded forms of the line and
/// of the query. Without case folding the invert flag plays no part.
pub open spec fn selected_given(
    line: Seq<char>,
    query: Seq<char>,
    line_folded: Seq<char>,
    query_folded: Seq<char>,
    insensitive: bool,
    invert: bool,
) -> bool {
    if insensitive {
        if invert {
            !is_infix(query_folded, line_folded)
        } else {
            is_infix(query_folded, line_folded)
        }
    } else {
        is_infix(query, line)
    }
}

/// Whether a line is selected for a query under the two mode flags.
pub open spec fn selected(line: Seq<char>, query: Seq<char>, insensitive: bool, invert: bool) -> bool {
    selected_given(line, query, lower_of(line), lower_of(query), insensitive, invert)
}

/// The selected lines, each with its zero-based position among all lines.
pub open spec fn picked(lines: Seq<Seq<char>>, query: Seq<char>, insensitive: bool, invert: bool) -> Seq<(nat, Seq<char>)>
    decreases lines.len(),
{
    if lines.len() == 0 {
        Seq::empty()
    } else {
        let before = picked(lines.drop_last(), query, insensitive, invert);
        if selected(lines.last(), query, insensitive, invert) {
            before.push(((lines.len() - 1) as nat, lines.last()))
        } else {
            before
        }
    }
}

/// One selected line as it is reported: bare, or after its number and `':'`.
pub open spec fn rendered(entry: (nat, Seq<char>), numbered: bool) -> Seq<char> {
    if numbered {
        decimal(entry.0) + seq![':'] + entry.1
    } else {
        entry.1
    }
}

/// The selected lines of `text` under `config`.
pub open spec fn picked_in(config: Config, text: Seq<char>) -> Seq<(nat, Seq<char>)> {
    picked(split_lines(text), config.query@, config.case_insensitive, config.case_invert)
}

/// What is reported for one file's text: the rendered selected lines, or in
/// count mode the one numeral of their count.
pub open spec fn report(config: Config, text: Seq<char>) -> Seq<Seq<char>> {
    let p = picked_in(config, text);
    if config.case_count_line_number {
        seq![decimal(p.len())]
    } else {
        p.map_values(|e: (nat, Seq<char>)| rendered(e, config.case_line_number))
    }
}

/// The character sequences held by a sequence of strings.
pub open spec fn string_views(v: Seq<String>) -> Seq<Seq<char>> {
    v.map_values(|s: String| s@)
}

/// Decides whether a line is selected from the case-folded forms of the
/// line and of the query, as `str::to_lowercase` gives them.
pub fn select_folded(
    line: &str,
    query: &str,
    line_folded: &str,
    query_folded: &str,
    insensitive: bool,
    invert: bool,
) -> (r: bool)
    ensures
        r == selected_given(line@, query@, line_folded@, query_folded@, insensitive, invert),
{
    if insensitive {
        let found = contains_chars(&chars_of(line_folded), &chars_of(query_folded));
        if invert {
            !found
        } else {
            found
        }
    } else {
        contains_chars(&chars_of(line), &chars_of(query))
    }
}

/// Whether `line` is selected under the query and mode flags of `config`.
pub fn search_case_insensitive_and_invert(config: &Config, line: &String) -> (r: bool)
    ensures
        r == selected(line@, config.query@, config.case_insensitive, config.case_invert),
{
    let query_folded = lowercase(config.query.as_str());
    let line_folded = lowercase(line.as_str());
    select_folded(
        line.as_str(),
        config.query.as_str(),
        line_folded.as_str(),
        query_folded.as_str(),
        config.case_insensitive,
        config.case_invert,
    )
}

fn render(number: usize, line: &Vec<char>, numbered: bool) -> (r: String)
    ensures
        r@ == rendered((number as nat, line@), numbered),
{
    if numbered {
        let mut v = decimal_chars(number);
        v.push(':');
        let ghost head = v@;
        let mut k: usize = 0;
        while k < line.len()
            invariant
                k <= line@.len(),
                v@ == head + line@.take(k as int),
            decreases line@.len() - k,
        {
            v.push(line[k]);
            assert(line@.take(k + 1) =~= line@.take(k as int).push(line@[k as int]));
            k += 1;
        }
        assert(line@.take(k as int) =~= line@);
        string_of(&v)
    } else {
        string_of(line)
    }
}

/// The lines reported for one file's text under `config`.
pub fn match_text(config: &Config, text: &str) -> (r: Vec<String>)
    ensures
        string_views(r@) == report(*config, text@),
{
    let lines = lines_of(&chars_of(text));
    let ghost all = split_lines(text@);
    let mut out: Vec<String> = Vec::new();
    let mut count: usize = 0;
    let mut i: usize = 0;
    while i < lines.len()
        invariant
            views(lines@) == all,
            i <= lines@.len(),
            count as nat == picked(all.take(i as int), config.query@, config.case_insensitive, config.case_invert).len(),
            count <= i,
            string_views(out@) == picked(all.take(i as int), config.query@, config.case_insensitive, config.case_invert).map_values(
                |e: (nat, Seq<char>)| rendered(e, config.case_line_number),
            ),
        decreases lines@.len() - i,
    {
        let ghost before = picked(all.take(i as int), config.query@, config.case_insensitive, config.case_invert);
        assert(all.take(i + 1).drop_last() =~= all.take(i as int));
        assert(all.take(i + 1).last() == lines@[i as int]@);
        let line = string_of(&lines[i]);
        if search_case_insensitive_and_invert(config, &line) {
            let shown = render(i, &lines[i], config.case_line_number);
            let ghost old_out = out@;
            out.push(shown);
            count += 1;
            assert(string_views(out@) =~= string_views(old_out).push(shown@));
            assert(string_views(out@) =~= picked(all.take(i + 1), config.query@, config.case_insensitive, config.case_invert).map_values(
                |e: (nat, Seq<char>)| rendered(e, config.case_line_number),
            ));
        }
        i += 1;
    }
    assert(all.take(i as int) =~= all);
    if config.case_count_line_number {
        let n = string_of(&decimal_chars(count));
        let r = vec![n];
        assert(string_views(r@) =~= report(*config, text@));
        r
    } else {
        out
    }
}

} // verus!
