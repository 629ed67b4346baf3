use vstd::prelude::*;

use crate::matcher::string_views;
use crate::text::chars_of;

verus! {

/// What to search for, where, and how.
pub struct Config {
    pub query: String,
    pub filename_list: Vec<String>,
    pub case_insensitive: bool,
    pub case_invert: bool,
    pub case_line_number: bool,
    pub case_recursive: bool,
    pub case_file_name: bool,
    pub case_count_line_number: bool,
}

/// A configuration as plain values.
pub struct ConfigView {
    pub query: Seq<char>,
    pub filenames: Seq<Seq<char>>,
    pub insensitive: bool,
    pub invert: bool,
    pub line_number: bool,
    pub recursive: bool,
    pub file_name: bool,
    pub count: bool,
}

impl View for Config {
    type V = ConfigView;

    open spec fn view(&self) -> ConfigView {
        ConfigView {
            query: self.query@,
            filenames: string_views(self.filename_list@),
            insensitive: self.case_insensitive,
            invert: self.case_invert,
            line_number: self.case_line_number,
            recursive: self.case_recursive,
            file_name: self.case_file_name,
            count: self.case_count_line_number,
        }
    }
}

/// A command-line option that switches a mode on.
pub enum Flag {
    IgnoreCase,
    InvertMatch,
    LineNumber,
    Recursive,
    FilesWithMatches,
    Count,
}

/// The option that an argument names, in its short or its long form.
pub open spec fn flag_of(a: Seq<char>) -> Option<Flag> {
    if a == "-i"@ || a == "--ignore-case"@ {
        Some(Flag::IgnoreCase)
    } else if a == "-v"@ || a == "--invert-match"@ {
        Some(Flag::InvertMatch)
    } else if a == "-n"@ || a == "--line-number"@ {
        Some(Flag::LineNumber)
    } else if a == "-r"@ || a == "--recursive"@ {
        Some(Flag::Recursive)
    } else if a == "-l"@ || a == "--files-with-matches"@ {
        Some(Flag::FilesWithMatches)
    } else if a == "-c"@ || a == "--count"@ {
        Some(Flag::Count)
    } else {
        None
    }
}

/// An argument that starts with `'-'` is an option.
pub open spec fn is_option(a: Seq<char>) -> bool {
    a.len() > 0 && a[0] == '-'
}

/// The configuration before any argument is read.
pub open spec fn initial_view() -> ConfigView {
    ConfigView {
        query: Seq::empty(),
        filenames: Seq::empty(),
        insensitive: false,
        invert: false,
        line_number: false,
        recursive: false,
        file_name: false,
        count: false,
    }
}

/// Reads one argument: an option sets its mode (an unknown one changes
/// nothing), the first other argument while no pattern is set becomes the
/// pattern, and every later one is a file name.
pub open spec fn apply_arg(v: ConfigView, a: Seq<char>) -> ConfigView {
    if is_option(a) {
        match flag_of(a) {
            Some(Flag::IgnoreCase) => ConfigView { insensitive: true, ..v },
            Some(Flag::InvertMatch) => ConfigView { invert: true, ..v },
            Some(Flag::LineNumber) => ConfigView { line_number: true, ..v },
            Some(Flag::Recursive) => ConfigView { recursive: true, ..v },
            Some(Flag::FilesWithMatches) => ConfigView { file_name: true, ..v },
            Some(Flag::Count) => ConfigView { count: true, ..v },
            None => v,
        }
    } else if v.query.len() == 0 {
        ConfigView { query: a, ..v }
    } else {
        ConfigView { filenames: v.filenames.push(a), ..v }
    }
}

/// The configuration that a list of arguments (after the program name) gives.
pub open spec fn parse_args(args: Seq<Seq<char>>) -> ConfigView
    decreases args.len(),
{
    if args.len() == 0 {
        initial_view()
    } else {
        apply_arg(parse_args(args.drop_last()), args.last())
    }
}

/// Whether `a` holds the characters of `lit`.
fn same_text(a: &Vec<char>, lit: &str) -> (r: bool)
    ensures
        r == (a@ == lit@),
{
    let b = chars_of(lit);
    if a.len() != b.len() {
        return false;
    }
    let mut k: usize = 0;
    while k < a.len()
        invariant
            a@.len() == b@.len(),
            b@ == lit@,
            k <= a@.len(),
            forall|j: int| 0 <= j < k ==> a@[j] == b@[j],
        decreases a@.len() - k,
    {
        if a[k] != b[k] {
            return false;
        }
        k += 1;
    }
    assert(a@ =~= b@);
    true
}

/// The option that `arg` names, if it names one.
pub fn flag_of_arg(arg: &str) -> (r: Option<Flag>)
    ensures
        r == flag_of(arg@),
{
    let a = chars_of(arg);
    if same_text(&a, "-i") || same_text(&a, "--ignore-case") {
        Some(Flag::IgnoreCase)
    } else if same_text(&a, "-v") || same_text(&a, "--invert-match") {
        Some(Flag::InvertMatch)
    } else if same_text(&a, "-n") || same_text(&a, "--line-number") {
        Some(Flag::LineNumber)
    } else if same_text(&a, "-r") || same_text(&a, "--recursive") {
        Some(Flag::Recursive)
    } else if same_text(&a, "-l") || same_text(&a, "--files-with-matches") {
        Some(Flag::FilesWithMatches)
    } else if same_text(&a, "-c") || same_text(&a, "--count") {
        Some(Flag::Count)
    } else {
        None
    }
}

/// Whether `arg` is an option, that is starts with `'-'`.
pub fn is_option_arg(arg: &str) -> (r: bool)
    ensures
        r == is_option(arg@),
{
    let a = chars_of(arg);
    a.len() > 0 && a[0] == '-'
}

impl Config {
    /// Reads the command line `args`, whose first element is the program
    /// name. Fewer than three arguments, or no pattern among them, is an
    /// error.
    pub fn new(args: &Vec<String>) -> (r: Result<Config, &'static str>)
        ensures
            args@.len() < 3 ==> r == Err::<Config, &'static str>("Not enough arguments."),
            args@.len() >= 3 ==> ({
                let v = parse_args(string_views(args@).drop_first());
                if v.query.len() == 0 {
                    r == Err::<Config, &'static str>("Missing pattern.")
                } else {
                    r is Ok && r->Ok_0@ == v
                }
            }),
    {
        if args.len() < 3 {
            return Err("Not enough arguments.");
        }
        let ghost all = string_views(args@).drop_first();
        let mut config = Config {
            query: String::new(),
            filename_list: Vec::new(),
            case_insensitive: false,
            case_invert: false,
            case_line_number: false,
            case_recursive: false,
            case_file_name: false,
            case_count_line_number: false,
        };
        assert(config@.filenames =~= Seq::<Seq<char>>::empty());
        assert(config@ == initial_view());
        let mut k: usize = 1;
        while k < args.len()
            invariant
                1 <= k <= args@.len(),
                all == string_views(args@).drop_first(),
                config@ == parse_args(all.take(k - 1)),
            decreases args@.len() - k,
        {
            assert(all.take(k as int).drop_last() =~= all.take(k - 1));
            assert(all.take(k as int).last() == args@[k as int]@);
            let arg = &args[k];
            if is_option_arg(arg.as_str()) {
                match flag_of_arg(arg.as_str()) {
                    Some(Flag::IgnoreCase) => config.case_insensitive = true,
                    Some(Flag::InvertMatch) => config.case_invert = true,
                    Some(Flag::LineNumber) => config.case_line_number = true,
                    Some(Flag::Recursive) => config.case_recursive = true,
                    Some(Flag::FilesWithMatches) => config.case_file_name = true,
                    Some(Flag::Count) => config.case_count_line_number = true,
                    None => {},
                }
            } else if config.query.as_str().unicode_len() == 0 {
                config.query = arg.clone();
            } else {
                let ghost before = config.filename_list@;
                config.filename_list.push(arg.clone());
                assert(string_views(config.filename_list@) =~= string_views(before).push(arg@));
            }
            k += 1;
        }
        assert(all.take(k - 1) =~= all);
        if config.query.as_str().unicode_len() == 0 {
            Err("Missing pattern.")
        } else {
            Ok(config)
        }
    }
}

} // verus!
