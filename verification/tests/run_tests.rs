use minigrep::config::{Config, OutputModeArgs, OutputOption, SearchOption};
use minigrep::output::{JsonContent, JsonMatch, Output, Span, Style};
use minigrep::run::{run, RunError, Sources};
use minigrep::search::FileEntry;

const POEM: &str = "Rust:\nsafe, fast, productive.\nPick three.\nDuct tape.";

fn config(query: &str, path: Option<&str>) -> Config {
    Config {
        query: query.to_string(),
        path: path.map(|p| p.to_string()),
        search: SearchOption { ignore_case: false, invert_match: false, only_matching: false },
        output: OutputOption {
            after_context: 0,
            before_context: 0,
            context: 0,
            line_number: false,
        },
        mode_args: OutputModeArgs {
            json: false,
            count: false,
            files_with_matches: false,
            files_without_match: false,
        },
    }
}

fn lines_of(text: &str) -> Vec<String> {
    text.lines().map(|l| l.to_string()).collect()
}

fn stdin(text: &str) -> Sources {
    Sources { is_dir: false, entries: Vec::new(), all_files: Vec::new(), stdin: lines_of(text) }
}

fn file(path: &str, text: &str) -> FileEntry {
    FileEntry {
        path: path.to_string(),
        is_file: true,
        head: Some(text.as_bytes().to_vec()),
        lines: Some(lines_of(text)),
    }
}

fn tree(entries: Vec<FileEntry>) -> Sources {
    let all_files = entries.iter().map(|e| e.path.clone()).collect();
    Sources { is_dir: true, entries, all_files, stdin: Vec::new() }
}

fn sp(text: &str, style: Style) -> Span {
    Span { text: text.to_string(), style }
}

fn path_line(path: &str) -> Output {
    Output::Line(vec![sp(path, Style::Path)])
}

#[test]
fn case_sensitive_search_finds_one_line() {
    let mut out = Vec::new();
    run(&config("duct", None), &stdin(POEM), &mut out).unwrap();
    assert_eq!(
        out,
        vec![Output::Line(vec![
            sp("2", Style::LineNumber),
            sp(":", Style::Plain),
            sp("safe, fast, pro", Style::Plain),
            sp("duct", Style::Match),
            sp("ive.", Style::Plain),
        ])]
    );
}

#[test]
fn case_insensitive_search_finds_lines_one_and_four() {
    let mut cfg = config("rUsT", None);
    cfg.search.ignore_case = true;
    let mut out = Vec::new();
    run(&cfg, &stdin("Rust:\nsafe, fast, productive.\nPick three.\nTrust me."), &mut out).unwrap();
    assert_eq!(
        out,
        vec![
            Output::Line(vec![
                sp("1", Style::LineNumber),
                sp(":", Style::Plain),
                sp("", Style::Plain),
                sp("Rust", Style::Match),
                sp(":", Style::Plain),
            ]),
            Output::Line(vec![
                sp("4", Style::LineNumber),
                sp(":", Style::Plain),
                sp("T", Style::Plain),
                sp("rust", Style::Match),
                sp(" me.", Style::Plain),
            ]),
        ]
    );
}

#[test]
fn case_sensitive_search_does_not_fold_case() {
    let mut out = Vec::new();
    run(&config("rUsT", None), &stdin(POEM), &mut out).unwrap();
    assert_eq!(out, Vec::<Output>::new());
}

#[test]
fn inverted_search_shows_the_other_lines_unmarked() {
    let mut cfg = config("t", None);
    cfg.search.invert_match = true;
    let mut out = Vec::new();
    run(&cfg, &stdin("one\ntwo\nsix"), &mut out).unwrap();
    assert_eq!(
        out,
        vec![
            Output::Line(vec![
                sp("1", Style::LineNumber),
                sp(":", Style::Plain),
                sp("one", Style::Plain),
            ]),
            Output::Line(vec![
                sp("3", Style::LineNumber),
                sp(":", Style::Plain),
                sp("six", Style::Plain),
            ]),
        ]
    );
}

#[test]
fn only_matching_shows_one_line_per_fragment() {
    let mut cfg = config(r"\d+", None);
    cfg.search.only_matching = true;
    let mut out = Vec::new();
    run(&cfg, &stdin("hello 123 world 456\nnothing"), &mut out).unwrap();
    assert_eq!(
        out,
        vec![
            Output::Line(vec![
                sp("1", Style::LineNumber),
                sp(":", Style::Plain),
                sp("123", Style::Match),
            ]),
            Output::Line(vec![
                sp("1", Style::LineNumber),
                sp(":", Style::Plain),
                sp("456", Style::Match),
            ]),
        ]
    );
}

#[test]
fn directory_search_prefixes_each_line_with_its_path() {
    let mut out = Vec::new();
    let sources = tree(vec![file("d/a.txt", "x\nneedle"), file("d/b.txt", "needle")]);
    run(&config("needle", Some("d")), &sources, &mut out).unwrap();
    assert_eq!(
        out,
        vec![
            Output::Line(vec![
                sp("d/a.txt", Style::Path),
                sp(":", Style::Plain),
                sp("2", Style::LineNumber),
                sp(":", Style::Plain),
                sp("", Style::Plain),
                sp("needle", Style::Match),
                sp("", Style::Plain),
            ]),
            Output::Line(vec![
                sp("d/b.txt", Style::Path),
                sp(":", Style::Plain),
                sp("1", Style::LineNumber),
                sp(":", Style::Plain),
                sp("", Style::Plain),
                sp("needle", Style::Match),
                sp("", Style::Plain),
            ]),
        ]
    );
}

#[test]
fn single_file_search_shows_no_path() {
    let mut out = Vec::new();
    let mut sources = tree(vec![file("a.txt", "needle")]);
    sources.is_dir = false;
    run(&config("needle", Some("a.txt")), &sources, &mut out).unwrap();
    assert_eq!(
        out,
        vec![Output::Line(vec![
            sp("1", Style::LineNumber),
            sp(":", Style::Plain),
            sp("", Style::Plain),
            sp("needle", Style::Match),
            sp("", Style::Plain),
        ])]
    );
}

#[test]
fn count_mode_lists_only_the_file_that_matched() {
    let mut cfg = config("x", Some("d"));
    cfg.mode_args.count = true;
    let sources = tree(vec![file("d/a.txt", "x\ny\nx\nxx"), file("d/b.txt", "y\nz")]);
    let mut out = Vec::new();
    run(&cfg, &sources, &mut out).unwrap();
    assert_eq!(
        out,
        vec![Output::Line(vec![
            sp("d/a.txt", Style::Path),
            sp(":", Style::Plain),
            sp("3", Style::Plain),
        ])]
    );
}

#[test]
fn count_mode_adds_a_total_for_several_files() {
    let mut cfg = config("x", Some("d"));
    cfg.mode_args.count = true;
    let sources = tree(vec![
        file("d/b.txt", "x\nx"),
        file("d/a.txt", "x\ny\nx\nxx"),
        file("d/c.txt", "y"),
    ]);
    let mut out = Vec::new();
    run(&cfg, &sources, &mut out).unwrap();
    assert_eq!(
        out,
        vec![
            Output::Line(vec![
                sp("d/a.txt", Style::Path),
                sp(":", Style::Plain),
                sp("3", Style::Plain),
            ]),
            Output::Line(vec![
                sp("d/b.txt", Style::Path),
                sp(":", Style::Plain),
                sp("2", Style::Plain),
            ]),
            Output::Line(vec![sp("Total: 5", Style::Plain)]),
        ]
    );
}

#[test]
fn count_mode_counts_lines_not_fragments() {
    let mut cfg = config("x", None);
    cfg.mode_args.count = true;
    cfg.search.only_matching = true;
    let mut out = Vec::new();
    run(&cfg, &stdin("xxx\nx x"), &mut out).unwrap();
    assert_eq!(
        out,
        vec![Output::Line(vec![
            sp("stdin", Style::Path),
            sp(":", Style::Plain),
            sp("2", Style::Plain),
        ])]
    );
}

#[test]
fn count_mode_without_matches_shows_nothing() {
    let mut cfg = config("x", None);
    cfg.mode_args.count = true;
    let mut out = Vec::new();
    run(&cfg, &stdin("a\nb"), &mut out).unwrap();
    assert_eq!(out, Vec::<Output>::new());
}

#[test]
fn files_with_matches_lists_each_file_once_in_order() {
    let mut cfg = config("x", Some("d"));
    cfg.mode_args.files_with_matches = true;
    let sources = tree(vec![
        file("d/c.txt", "x\nx\nx"),
        file("d/a.txt", "y\nx"),
        file("d/b.txt", "y"),
    ]);
    let mut out = Vec::new();
    run(&cfg, &sources, &mut out).unwrap();
    assert_eq!(out, vec![path_line("d/a.txt"), path_line("d/c.txt")]);
}

#[test]
fn files_without_match_lists_the_other_two_files() {
    let mut cfg = config("x", Some("d"));
    cfg.mode_args.files_without_match = true;
    let sources = tree(vec![
        file("d/c.txt", "y"),
        file("d/a.txt", "x"),
        file("d/b.txt", "z"),
    ]);
    let mut out = Vec::new();
    run(&cfg, &sources, &mut out).unwrap();
    assert_eq!(out, vec![path_line("d/b.txt"), path_line("d/c.txt")]);
}

#[test]
fn files_without_match_lists_files_that_were_never_searched() {
    let mut cfg = config("x", Some("d"));
    cfg.mode_args.files_without_match = true;
    let mut sources = tree(vec![file("d/a.txt", "x")]);
    sources.all_files = vec!["d/z.bin".to_string(), "d/a.txt".to_string(), "d/.h".to_string()];
    let mut out = Vec::new();
    run(&cfg, &sources, &mut out).unwrap();
    assert_eq!(out, vec![path_line("d/.h"), path_line("d/z.bin")]);
}

#[test]
fn files_without_match_on_stdin_is_refused() {
    let mut cfg = config("x", None);
    cfg.mode_args.files_without_match = true;
    let mut out = Vec::new();
    let err = run(&cfg, &stdin("x"), &mut out).unwrap_err();
    assert!(matches!(err, RunError::StdinUnsupported));
    assert_eq!(err.message(), "Error: --files-without-match is not supported for stdin.");
    assert_eq!(out, Vec::<Output>::new());
}

#[test]
fn invalid_pattern_is_refused_before_anything_is_shown() {
    let mut out = Vec::new();
    let err = run(&config("(", None), &stdin("("), &mut out).unwrap_err();
    assert!(matches!(err, RunError::BadPattern(_)));
    assert!(err.message().contains("unclosed group"));
    assert_eq!(out, Vec::<Output>::new());
}

#[test]
fn json_mode_hands_out_all_records_at_the_end() {
    let mut cfg = config("a", Some("d"));
    cfg.mode_args.json = true;
    let sources = tree(vec![file("d/b.txt", "a\nb"), file("d/a.txt", "b\nba")]);
    let mut out = Vec::new();
    run(&cfg, &sources, &mut out).unwrap();
    assert_eq!(
        out,
        vec![Output::Records(vec![
            JsonMatch {
                path: "d/b.txt".to_string(),
                line_number: 1,
                content: JsonContent::Line("a".to_string()),
            },
            JsonMatch {
                path: "d/a.txt".to_string(),
                line_number: 2,
                content: JsonContent::Line("ba".to_string()),
            },
        ])]
    );
}

#[test]
fn json_mode_with_only_matching_records_fragments() {
    let mut cfg = config(r"\d+", None);
    cfg.mode_args.json = true;
    cfg.search.only_matching = true;
    let mut out = Vec::new();
    run(&cfg, &stdin("hello 123 world 456"), &mut out).unwrap();
    assert_eq!(
        out,
        vec![Output::Records(vec![JsonMatch {
            path: "stdin".to_string(),
            line_number: 1,
            content: JsonContent::Matches(vec!["123".to_string(), "456".to_string()]),
        }])]
    );
}

#[test]
fn json_mode_without_matches_shows_an_empty_array() {
    let mut cfg = config("a", None);
    cfg.mode_args.json = true;
    let mut out = Vec::new();
    run(&cfg, &stdin("b"), &mut out).unwrap();
    assert_eq!(out, vec![Output::Line(vec![sp("[]", Style::Plain)])]);
}

#[test]
fn binary_and_unreadable_entries_are_passed_over() {
    let mut cfg = config("x", Some("d"));
    cfg.mode_args.files_with_matches = true;
    let mut binary = file("d/bin", "x");
    binary.head = Some(vec![b'x', 0, b'x']);
    let mut unprobed = file("d/unprobed", "x");
    unprobed.head = None;
    let mut unread = file("d/unread", "x");
    unread.lines = None;
    let mut dir = file("d/sub", "x");
    dir.is_file = false;
    let sources = tree(vec![binary, unprobed, unread, dir, file("d/ok", "x")]);
    let mut out = Vec::new();
    run(&cfg, &sources, &mut out).unwrap();
    assert_eq!(out, vec![path_line("d/ok")]);
}

#[test]
fn symmetric_context_overrides_both_counts() {
    let mut cfg = config("m", None);
    cfg.output.context = 1;
    cfg.output.before_context = 3;
    cfg.output.after_context = 0;
    let mut out = Vec::new();
    run(&cfg, &stdin("a\nb\nm\nc\nd"), &mut out).unwrap();
    assert_eq!(
        out,
        vec![
            Output::Line(vec![
                sp("2", Style::LineNumber),
                sp("-", Style::Plain),
                sp("b", Style::Plain),
            ]),
            Output::Line(vec![
                sp("3", Style::LineNumber),
                sp(":", Style::Plain),
                sp("", Style::Plain),
                sp("m", Style::Match),
                sp("", Style::Plain),
            ]),
            Output::Line(vec![
                sp("4", Style::LineNumber),
                sp("-", Style::Plain),
                sp("c", Style::Plain),
            ]),
        ]
    );
}

#[test]
fn context_does_not_span_files() {
    let mut cfg = config("m", Some("d"));
    cfg.output.after_context = 2;
    cfg.output.before_context = 2;
    let sources = tree(vec![file("d/a", "m"), file("d/b", "x\nm")]);
    let mut out = Vec::new();
    run(&cfg, &sources, &mut out).unwrap();
    let shown: Vec<String> = out
        .iter()
        .map(|o| match o {
            Output::Line(spans) => spans.iter().map(|s| s.text.as_str()).collect::<String>(),
            Output::Records(_) => String::new(),
        })
        .collect();
    assert_eq!(shown, vec!["d/a:1:m", "d/b:1-x", "d/b:2:m"]);
}
