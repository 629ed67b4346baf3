use vstd::prelude::*;

use crate::config::Config;
use crate::matcher::{match_text, report, string_views};
use crate::text::{chars_of, string_of};

verus! {

/// The lines reported for one file.
#[derive(Debug, PartialEq)]
pub struct MatchedContent {
    pub filename: String,
    pub content: Vec<String>,
}

impl MatchedContent {
    /// The result for the file `filename`.
    pub fn new(filename: String, content: Vec<String>) -> (r: MatchedContent)
        ensures
            r.filename == filename,
            r.content == content,
    {
        MatchedContent { filename, content }
    }
}

/// A search under one configuration.
pub struct Search {
    pub config: Config,
}

/// `name`, then `':'`, then `line`.
pub open spec fn prefixed(name: Seq<char>, line: Seq<char>) -> Seq<char> {
    name + seq![':'] + line
}

/// The printed lines for one file's result, given how many files were
/// searched. In count mode the count is shown even where only file names
/// were asked for.
pub open spec fn file_output(
    filename: Seq<char>,
    content: Seq<Seq<char>>,
    n_files: nat,
    names_only: bool,
    count: bool,
) -> Seq<Seq<char>> {
    if names_only && !count {
        if content.len() > 0 {
            seq![filename]
        } else {
            Seq::empty()
        }
    } else if n_files == 1 {
        content
    } else {
        content.map_values(|l: Seq<char>| prefixed(filename, l))
    }
}

/// The printed lines for all results, file after file.
pub open spec fn all_output(
    results: Seq<(Seq<char>, Seq<Seq<char>>)>,
    n_files: nat,
    names_only: bool,
    count: bool,
) -> Seq<Seq<char>>
    decreases results.len(),
{
    if results.len() == 0 {
        Seq::empty()
    } else {
        all_output(results.drop_last(), n_files, names_only, count) + file_output(
            results.last().0,
            results.last().1,
            n_files,
            names_only,
            count,
        )
    }
}

/// A result as plain values: the file name and the reported lines.
pub open spec fn result_view(m: MatchedContent) -> (Seq<char>, Seq<Seq<char>>) {
    (m.filename@, string_views(m.content@))
}

fn join_prefixed(name: &String, line: &String) -> (r: String)
    ensures
        r@ == prefixed(name@, line@),
{
    let mut v = chars_of(name.as_str());
    v.push(':');
    let tail = chars_of(line.as_str());
    let ghost head = v@;
    let mut k: usize = 0;
    while k < tail.len()
        invariant
            k <= tail@.len(),
            v@ == head + tail@.take(k as int),
            head == name@ + seq![':'],
        decreases tail@.len() - k,
    {
        v.push(tail[k]);
        assert(tail@.take(k + 1) =~= tail@.take(k as int).push(tail@[k as int]));
        k += 1;
    }
    assert(tail@.take(k as int) =~= tail@);
    assert(tail@ == line@);
    string_of(&v)
}

impl Search {
    /// A search under `config`.
    pub fn new(config: Config) -> (r: Search)
        ensures
            r.config == config,
    {
        Search { config }
    }

    /// Matches each file's text, in the order given: one result per file,
    /// named by its path.
    pub fn search(&self, files: &Vec<(String, String)>) -> (r: Vec<MatchedContent>)
        ensures
            r@.len() == files@.len(),
            forall|i: int|
                0 <= i < files@.len() ==> #[trigger] r@[i].filename@ == files@[i].0@
                    && string_views(r@[i].content@) == report(self.config, files@[i].1@),
    {
        let mut out: Vec<MatchedContent> = Vec::new();
        let mut k: usize = 0;
        while k < files.len()
            invariant
                k <= files@.len(),
                out@.len() == k,
                forall|i: int|
                    0 <= i < k ==> #[trigger] out@[i].filename@ == files@[i].0@
                        && string_views(out@[i].content@) == report(self.config, files@[i].1@),
            decreases files@.len() - k,
        {
            let content = match_text(&self.config, files[k].1.as_str());
            out.push(MatchedContent::new(files[k].0.clone(), content));
            k += 1;
        }
        out
    }

    /// The lines to print for `results`: for a single file its lines bare,
    /// for several each line after its file's name; where only file names
    /// were asked for, the name of each file with a reported line.
    pub fn output(&self, results: &Vec<MatchedContent>) -> (r: Vec<String>)
        ensures
            string_views(r@) == all_output(
                results@.map_values(|m: MatchedContent| result_view(m)),
                results@.len(),
                self.config.case_file_name,
                self.config.case_count_line_number,
            ),
    {
        let ghost all = results@.map_values(|m: MatchedContent| result_view(m));
        let n = results.len();
        let names_only = self.config.case_file_name;
        let count = self.config.case_count_line_number;
        let mut out: Vec<String> = Vec::new();
        let mut k: usize = 0;
        while k < n
            invariant
                n == results@.len(),
                all == results@.map_values(|m: MatchedContent| result_view(m)),
                names_only == self.config.case_file_name,
                count == self.config.case_count_line_number,
                k <= n,
                string_views(out@) == all_output(all.take(k as int), n as nat, names_only, count),
            decreases n - k,
        {
            assert(all.take(k + 1).drop_last() =~= all.take(k as int));
            let m = &results[k];
            let ghost before = out@;
            let ghost fv = result_view(*m);
            assert(all.take(k + 1).last() == fv);
            if names_only && !count {
                if m.content.len() > 0 {
                    out.push(m.filename.clone());
                    assert(string_views(out@) =~= string_views(before) + seq![m.filename@]);
                } else {
                    assert(string_views(out@) =~= string_views(before) + Seq::<Seq<char>>::empty());
                }
            } else {
                let mut j: usize = 0;
                while j < m.content.len()
                    invariant
                        j <= m.content@.len(),
                        n == results@.len(),
                        fv == result_view(*m),
                        string_views(out@) == string_views(before) + file_output(
                            fv.0,
                            fv.1.take(j as int),
                            n as nat,
                            names_only,
                            count,
                        ),
                        !(names_only && !count),
                    decreases m.content@.len() - j,
                {
                    let ghost mid = out@;
                    let line = if n == 1 {
                        m.content[j].clone()
                    } else {
                        join_prefixed(&m.filename, &m.content[j])
                    };
                    out.push(line);
                    assert(fv.1.take(j + 1) =~= fv.1.take(j as int).push(fv.1[j as int]));
                    assert(file_output(fv.0, fv.1.take(j + 1), n as nat, names_only, count)
                        =~= file_output(fv.0, fv.1.take(j as int), n as nat, names_only, count).push(line@));
                    assert(string_views(out@) =~= string_views(mid).push(line@));
                    j += 1;
                }
                assert(fv.1.take(j as int) =~= fv.1);
            }
            k += 1;
        }
        assert(all.take(k as int) =~= all);
        out
    }
}

} // verus!
