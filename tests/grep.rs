use grep::config::{flag_of_arg, is_option_arg};
use grep::text::{chars_of, contains_chars, decimal_chars, lines_of};
use grep::{
    match_text, search_case_insensitive_and_invert, select_folded, Config, Entry, EntryKind,
    Flag, MatchedContent, PathCollector, Search,
};

fn config(query: &str) -> Config {
    Config {
        query: String::from(query),
        filename_list: Vec::new(),
        case_insensitive: false,
        case_invert: false,
        case_line_number: false,
        case_recursive: false,
        case_file_name: false,
        case_count_line_number: false,
    }
}

fn strings(v: &[&str]) -> Vec<String> {
    v.iter().map(|s| s.to_string()).collect()
}

const FIRST: &str = "C:\\Users\\kuroneko\\Documents\\code\\RustProject\\minigrep\\README.md";
const SECOND: &str = "C:\\Users\\kuroneko\\Documents\\code\\RustProject\\minigrep\\README2.md";

#[test]
fn one_result() {
    let config: Config = Config {
        query: String::from("thank"),
        filename_list: vec![String::from(FIRST), String::from(SECOND)],
        case_insensitive: true,
        case_invert: false,
        case_line_number: false,
        case_recursive: false,
        case_file_name: false,
        case_count_line_number: false,
    };
    let search: Search = Search::new(config);
    let files = vec![
        (String::from(FIRST), String::from("# minigrep\nThank for use\n")),
        (String::from(SECOND), String::from("Thank for use")),
    ];
    let result = search.search(&files);
    assert_eq!(
        vec![
            MatchedContent::new(String::from(FIRST), vec![String::from("Thank for use")]),
            MatchedContent::new(String::from(SECOND), vec![String::from("Thank for use")]),
        ],
        result
    )
}

#[test]
fn case_sensitive_scenario() {
    let c = config("duct");
    let r = match_text(&c, "Rust:\nsafe,fast,productive\nPick three.");
    assert_eq!(r, strings(&["safe,fast,productive"]));
}

#[test]
fn case_insensitive_scenario() {
    let mut c = config("rUsT");
    c.case_insensitive = true;
    let r = match_text(&c, "Rust:\nsafe,fast,productive\nPick three.\nTrust me.");
    assert_eq!(r, strings(&["Rust:", "Trust me."]));
}

#[test]
fn case_insensitive_invert_scenario() {
    let mut c = config("rust");
    c.case_insensitive = true;
    c.case_invert = true;
    let r = match_text(&c, "Rust:\nsafe,fast,productive\nPick three.\nTrust me.");
    assert_eq!(r, strings(&["safe,fast,productive", "Pick three."]));
}

#[test]
fn count_scenario() {
    let mut c = config("rust");
    c.case_insensitive = true;
    c.case_invert = true;
    c.case_count_line_number = true;
    let r = match_text(&c, "Rust:\nsafe,fast,productive\nPick three.\nTrust me.");
    assert_eq!(r, strings(&["2"]));
}

#[test]
fn count_of_no_match_is_zero() {
    let mut c = config("zebra");
    c.case_count_line_number = true;
    assert_eq!(match_text(&c, "a\nb\n"), strings(&["0"]));
    assert_eq!(match_text(&c, ""), strings(&["0"]));
}

#[test]
fn count_wins_over_file_names() {
    let mut c = config("a");
    c.case_count_line_number = true;
    c.case_file_name = true;
    let s = Search::new(c);
    let files = vec![(String::from("f"), String::from("a\nb\na"))];
    let r = s.search(&files);
    assert_eq!(r[0].content, strings(&["2"]));
    assert_eq!(s.output(&r), strings(&["2"]));
}

#[test]
fn case_sensitive_ignores_invert() {
    let mut c = config("Rust");
    c.case_invert = true;
    let line = String::from("Rust:");
    assert!(search_case_insensitive_and_invert(&c, &line));
    let other = String::from("rust:");
    assert!(!search_case_insensitive_and_invert(&c, &other));
}

#[test]
fn case_insensitive_predicate() {
    let mut c = config("RUST");
    c.case_insensitive = true;
    assert!(search_case_insensitive_and_invert(&c, &String::from("Trust me.")));
    assert!(!search_case_insensitive_and_invert(&c, &String::from("Pick three.")));
    c.case_invert = true;
    assert!(!search_case_insensitive_and_invert(&c, &String::from("Trust me.")));
    assert!(search_case_insensitive_and_invert(&c, &String::from("Pick three.")));
}

#[test]
fn folded_forms_decide() {
    assert!(select_folded("Trust", "RUST", "trust", "rust", true, false));
    assert!(!select_folded("Trust", "RUST", "trust", "rust", true, true));
    assert!(!select_folded("Trust", "RUST", "trust", "rust", false, false));
    assert!(select_folded("xyz", "q", "q", "q", true, false));
}

#[test]
fn matching_twice_gives_the_same() {
    let mut c = config("a");
    c.case_line_number = true;
    let t = "abc\nxyz\ncba";
    assert_eq!(match_text(&c, t), match_text(&c, t));
}

#[test]
fn line_numbers_are_original_positions() {
    let mut c = config("a");
    c.case_line_number = true;
    let r = match_text(&c, "xyz\nabc\nxyz\nxyz\nxyz\nxyz\nxyz\nxyz\nxyz\nxyz\nxyz\ncba");
    assert_eq!(r, strings(&["1:abc", "11:cba"]));
}

#[test]
fn empty_query_matches_every_line() {
    let c = config("");
    assert_eq!(match_text(&c, "a\n\nb"), strings(&["a", "", "b"]));
}

#[test]
fn lines_split_on_newlines() {
    let split = |s: &str| -> Vec<String> {
        lines_of(&chars_of(s)).iter().map(|l| l.iter().collect()).collect()
    };
    assert_eq!(split(""), Vec::<String>::new());
    assert_eq!(split("a"), strings(&["a"]));
    assert_eq!(split("a\n"), strings(&["a"]));
    assert_eq!(split("a\r\nb\r"), strings(&["a", "b\r"]));
    assert_eq!(split("\n\nx"), strings(&["", "", "x"]));
}

#[test]
fn substring_test() {
    let c = |s: &str| chars_of(s);
    assert!(contains_chars(&c("safe,fast,productive"), &c("duct")));
    assert!(!contains_chars(&c("duc"), &c("duct")));
    assert!(contains_chars(&c(""), &c("")));
    assert!(!contains_chars(&c("abc"), &c("abd")));
}

#[test]
fn decimal_numerals() {
    let d = |n: usize| -> String { decimal_chars(n).iter().collect() };
    assert_eq!(d(0), "0");
    assert_eq!(d(7), "7");
    assert_eq!(d(10), "10");
    assert_eq!(d(12345), "12345");
}

#[test]
fn parses_flags_pattern_and_files() {
    let args = strings(&["grep", "-i", "--line-number", "pat", "a.txt", "-x", "b.txt", "-c"]);
    let c = Config::new(&args).unwrap();
    assert_eq!(c.query, "pat");
    assert_eq!(c.filename_list, strings(&["a.txt", "b.txt"]));
    assert!(c.case_insensitive);
    assert!(c.case_line_number);
    assert!(c.case_count_line_number);
    assert!(!c.case_invert);
    assert!(!c.case_recursive);
    assert!(!c.case_file_name);
}

#[test]
fn parse_errors() {
    assert_eq!(
        Config::new(&strings(&["grep", "pat"])).err(),
        Some("Not enough arguments.")
    );
    assert_eq!(
        Config::new(&strings(&["grep", "-i", "-v"])).err(),
        Some("Missing pattern.")
    );
}

#[test]
fn option_names() {
    assert!(matches!(flag_of_arg("-v"), Some(Flag::InvertMatch)));
    assert!(matches!(flag_of_arg("--recursive"), Some(Flag::Recursive)));
    assert!(matches!(flag_of_arg("--files-with-matches"), Some(Flag::FilesWithMatches)));
    assert!(flag_of_arg("--colour").is_none());
    assert!(is_option_arg("-z"));
    assert!(!is_option_arg("z-"));
    assert!(!is_option_arg(""));
}

#[test]
fn output_for_one_and_for_several_files() {
    let s = Search::new(config("a"));
    let one = s.search(&vec![(String::from("f"), String::from("a1\nb\na2"))]);
    assert_eq!(s.output(&one), strings(&["a1", "a2"]));
    let two = s.search(&vec![
        (String::from("f"), String::from("a1\nb")),
        (String::from("g"), String::from("b\na2")),
    ]);
    assert_eq!(s.output(&two), strings(&["f:a1", "g:a2"]));
    let mut c = config("a");
    c.case_file_name = true;
    let s = Search::new(c);
    let two = s.search(&vec![
        (String::from("f"), String::from("a1\na3")),
        (String::from("g"), String::from("b")),
    ]);
    assert_eq!(s.output(&two), strings(&["f"]));
}

#[test]
fn recursive_collection_finds_nested_files() {
    let mut w = PathCollector::new(String::from("root"), EntryKind::Dir, true);
    let mut listed = Vec::new();
    while let Some(dir) = w.next_dir() {
        let listing = if dir == "root" {
            vec![
                Entry { path: String::from("root/d"), kind: EntryKind::Dir },
                Entry { path: String::from("root/a.txt"), kind: EntryKind::File },
            ]
        } else if dir == "root/d" {
            vec![Entry { path: String::from("root/d/b.txt"), kind: EntryKind::File }]
        } else {
            Vec::new()
        };
        listed.push(dir);
        w.enter(listing);
    }
    let mut found = w.finish();
    found.sort();
    assert_eq!(found, strings(&["root/a.txt", "root/d/b.txt"]));
    assert_eq!(listed, strings(&["root", "root/d"]));
}

#[test]
fn collection_keeps_listing_order_depth_first() {
    let mut w = PathCollector::new(String::from("r"), EntryKind::Dir, true);
    while let Some(dir) = w.next_dir() {
        let listing = if dir == "r" {
            vec![
                Entry { path: String::from("r/x"), kind: EntryKind::File },
                Entry { path: String::from("r/s"), kind: EntryKind::Dir },
                Entry { path: String::from("r/p"), kind: EntryKind::Other },
                Entry { path: String::from("r/y"), kind: EntryKind::File },
            ]
        } else {
            vec![Entry { path: String::from("r/s/z"), kind: EntryKind::File }]
        };
        w.enter(listing);
    }
    assert_eq!(w.finish(), strings(&["r/x", "r/s/z", "r/y"]));
}

#[test]
fn roots_without_recursion_are_kept_as_given() {
    let mut w = PathCollector::new(String::from("dir"), EntryKind::Dir, false);
    assert!(w.next_dir().is_none());
    assert_eq!(w.finish(), strings(&["dir"]));
    let mut w = PathCollector::new(String::from("f.txt"), EntryKind::File, true);
    assert!(w.next_dir().is_none());
    assert_eq!(w.finish(), strings(&["f.txt"]));
}
