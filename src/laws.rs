use vstd::prelude::*;

use crate::collect::{files_of, forest_files, label, labels, settle, stack_files, Tree};
use crate::config::Config;
use crate::matcher::{picked, picked_in, report, selected};
use crate::text::{decimal, is_infix, lower_of, split_lines};

verus! {

/// Without case folding a line is selected exactly when it contains the
/// query, character for character, whatever the invert flag says.
pub proof fn case_sensitive_selects_containing(line: Seq<char>, query: Seq<char>, invert: bool)
    ensures
        selected(line, query, false, invert) == is_infix(query, line),
{
}

/// With case folding and no inversion a line is selected exactly when its
/// lower-case form contains the lower-case form of the query.
pub proof fn case_insensitive_selects_containing(line: Seq<char>, query: Seq<char>)
    ensures
        selected(line, query, true, false) == is_infix(lower_of(query), lower_of(line)),
{
}

/// With case folding and inversion a line is selected exactly when its
/// lower-case form does not contain the lower-case form of the query.
pub proof fn case_insensitive_invert_selects_others(line: Seq<char>, query: Seq<char>)
    ensures
        selected(line, query, true, true) == !is_infix(lower_of(query), lower_of(line)),
{
}

/// The selected lines, in their order, are the lines that pass the
/// predicate, in theirs.
pub proof fn picked_are_the_passing_lines(
    lines: Seq<Seq<char>>,
    query: Seq<char>,
    insensitive: bool,
    invert: bool,
)
    ensures
        picked(lines, query, insensitive, invert).map_values(|e: (nat, Seq<char>)| e.1)
            == lines.filter(|l: Seq<char>| selected(l, query, insensitive, invert)),
    decreases lines.len(),
{
    reveal(Seq::filter);
    if lines.len() > 0 {
        picked_are_the_passing_lines(lines.drop_last(), query, insensitive, invert);
        let before = picked(lines.drop_last(), query, insensitive, invert);
        if selected(lines.last(), query, insensitive, invert) {
            assert(before.push(((lines.len() - 1) as nat, lines.last())).map_values(
                |e: (nat, Seq<char>)| e.1,
            ) =~= before.map_values(|e: (nat, Seq<char>)| e.1).push(lines.last()));
        }
    } else {
        assert(picked(lines, query, insensitive, invert).map_values(|e: (nat, Seq<char>)| e.1)
            =~= lines);
    }
}

/// Each selected line is reported with its own position among all lines.
pub proof fn picked_keep_their_positions(
    lines: Seq<Seq<char>>,
    query: Seq<char>,
    insensitive: bool,
    invert: bool,
    k: int,
)
    requires
        0 <= k < picked(lines, query, insensitive, invert).len(),
    ensures
        ({
            let e = picked(lines, query, insensitive, invert)[k];
            &&& e.0 < lines.len()
            &&& lines[e.0 as int] == e.1
            &&& selected(e.1, query, insensitive, invert)
        }),
    decreases lines.len(),
{
    if lines.len() > 0 {
        let before = picked(lines.drop_last(), query, insensitive, invert);
        if k < before.len() {
            picked_keep_their_positions(lines.drop_last(), query, insensitive, invert, k);
        }
    }
}

/// Matching the same text under the same configuration twice gives the
/// same report.
pub proof fn report_is_deterministic(
    config1: Config,
    config2: Config,
    text1: Seq<char>,
    text2: Seq<char>,
)
    requires
        config1 == config2,
        text1 == text2,
    ensures
        report(config1, text1) == report(config2, text2),
{
}

/// In count mode the report is a single numeral: the number of lines of the
/// text that pass the predicate.
pub proof fn count_mode_reports_one_count(config: Config, text: Seq<char>)
    requires
        config.case_count_line_number,
    ensures
        report(config, text).len() == 1,
        report(config, text)[0] == decimal(
            split_lines(text).filter(
                |l: Seq<char>| selected(l, config.query@, config.case_insensitive, config.case_invert),
            ).len(),
        ),
{
    let p = picked_in(config, text);
    picked_are_the_passing_lines(split_lines(text), config.query@, config.case_insensitive, config.case_invert);
    assert(p.map_values(|e: (nat, Seq<char>)| e.1).len() == p.len());
}

/// A walk starts with the root alone on the stack: the files still to come
/// are the files of the root's tree.
pub proof fn walk_starts_with_root_files(root: Tree)
    ensures
        labels(seq![root]) == seq![label(root)],
        stack_files(seq![root]) == files_of(root),
{
    assert(labels(seq![root]) =~= seq![label(root)]);
    let one = seq![root];
    assert(one.drop_last() =~= Seq::<Tree>::empty());
    assert(one.last() == root);
    assert(stack_files(one.drop_last()) =~= Seq::<Seq<char>>::empty());
    assert(files_of(root) + Seq::<Seq<char>>::empty() =~= files_of(root));
}

/// One step of a walk loses no file and invents none: taking entries off
/// the stack either empties it, with every file still to come now found, or
/// stops at a directory, and then what was found, that directory's files
/// and the files of the stack below it are, in order, what was found before
/// followed by the files still to come.
pub proof fn walk_step_keeps_files(found: Seq<Seq<char>>, stack: Seq<Tree>)
    ensures
        ({
            let s = settle(found, labels(stack));
            &&& s.2 is None ==> s.0 == found + stack_files(stack) && s.1.len() == 0
            &&& s.2 is Some ==> exists|j: int|
                0 <= j < stack.len() && (#[trigger] stack[j]) is Dir && s.1 == labels(
                    stack.take(j),
                ) && s.2 == Some(stack[j]->Dir_0) && s.0 + forest_files(
                    stack[j]->Dir_1,
                    stack[j]->Dir_1.len(),
                ) + stack_files(stack.take(j)) == found + stack_files(stack)
        }),
    decreases stack.len(),
{
    if stack.len() == 0 {
        assert(stack_files(stack) =~= Seq::<Seq<char>>::empty());
        assert(found + Seq::<Seq<char>>::empty() =~= found);
    } else {
        let top = stack.last();
        let rest = stack.drop_last();
        assert(labels(stack).last() == label(top));
        assert(labels(stack).drop_last() =~= labels(rest));
        match top {
            Tree::File(p) => {
                walk_step_keeps_files(found.push(p), rest);
                assert(found.push(p) + stack_files(rest) =~= found + (seq![p] + stack_files(rest)));
                let s = settle(found, labels(stack));
                if s.2 is Some {
                    let j = choose|j: int|
                        0 <= j < rest.len() && (#[trigger] rest[j]) is Dir && s.1 == labels(
                            rest.take(j),
                        ) && s.2 == Some(rest[j]->Dir_0) && s.0 + forest_files(
                            rest[j]->Dir_1,
                            rest[j]->Dir_1.len(),
                        ) + stack_files(rest.take(j)) == found.push(p) + stack_files(rest);
                    assert(rest.take(j) =~= stack.take(j));
                    assert(stack[j] == rest[j]);
                }
            },
            Tree::Dir(p, kids) => {
                assert(stack.take(stack.len() - 1) =~= rest);
                assert(stack[stack.len() - 1] == top);
                assert(found + forest_files(kids, kids.len()) + stack_files(rest) =~= found + (
                forest_files(kids, kids.len()) + stack_files(rest)));
            },
            Tree::Other(p) => {
                walk_step_keeps_files(found, rest);
                assert(Seq::<Seq<char>>::empty() + stack_files(rest) =~= stack_files(rest));
                let s = settle(found, labels(stack));
                if s.2 is Some {
                    let j = choose|j: int|
                        0 <= j < rest.len() && (#[trigger] rest[j]) is Dir && s.1 == labels(
                            rest.take(j),
                        ) && s.2 == Some(rest[j]->Dir_0) && s.0 + forest_files(
                            rest[j]->Dir_1,
                            rest[j]->Dir_1.len(),
                        ) + stack_files(rest.take(j)) == found + stack_files(rest);
                    assert(rest.take(j) =~= stack.take(j));
                    assert(stack[j] == rest[j]);
                }
            },
        }
    }
}

proof fn forest_files_front(kids: Seq<Tree>, n: nat)
    requires
        1 <= n <= kids.len(),
    ensures
        forest_files(kids, n) == files_of(kids[0]) + forest_files(kids.drop_first(), (n - 1) as nat),
    decreases n,
{
    let tail = kids.drop_first();
    if n == 1 {
        assert(forest_files(kids, 0) =~= Seq::<Seq<char>>::empty());
        assert(forest_files(tail, 0) =~= Seq::<Seq<char>>::empty());
        assert(Seq::<Seq<char>>::empty() + files_of(kids[0]) =~= files_of(kids[0])
            + Seq::<Seq<char>>::empty());
    } else {
        forest_files_front(kids, (n - 1) as nat);
        assert(tail[n - 2] == kids[n - 1]);
        assert(files_of(kids[0]) + forest_files(tail, (n - 2) as nat) + files_of(kids[n - 1])
            =~= files_of(kids[0]) + (forest_files(tail, (n - 2) as nat) + files_of(tail[n - 2])));
    }
}

/// Putting a directory's listing on the stack, last entry first, makes its
/// files come next, in listing order, before those of the stack below.
pub proof fn entering_keeps_files(rest: Seq<Tree>, kids: Seq<Tree>)
    ensures
        labels(rest + kids.reverse()) == labels(rest) + labels(kids).reverse(),
        stack_files(rest + kids.reverse()) == forest_files(kids, kids.len()) + stack_files(rest),
    decreases kids.len(),
{
    assert(labels(rest + kids.reverse()) =~= labels(rest) + labels(kids).reverse());
    if kids.len() == 0 {
        assert(rest + kids.reverse() =~= rest);
        assert(Seq::<Seq<char>>::empty() + stack_files(rest) =~= stack_files(rest));
    } else {
        let tail = kids.drop_first();
        entering_keeps_files(rest, tail);
        let whole = rest + kids.reverse();
        assert(whole.last() == kids[0]);
        assert(whole.drop_last() =~= rest + tail.reverse());
        forest_files_front(kids, kids.len());
        assert(files_of(kids[0]) + (forest_files(tail, tail.len()) + stack_files(rest))
            =~= files_of(kids[0]) + forest_files(tail, tail.len()) + stack_files(rest));
    }
}

} // verus!
