use std::ops::ControlFlow;
use std::path::Path;

use minigrep::config::{Config, OutputMode, OutputModeArgs, OutputOption, SearchOption};
use minigrep::count_sink::CountSink;
use minigrep::files::{is_binary, is_hidden};
use minigrep::formatter::OutputFormatter;
use minigrep::highlight::highlight;
use minigrep::json_sink::JsonSink;
use minigrep::matcher::{
    fragments_if_any, whole_line_if, LineMatcher, MatchResult, Matcher,
};
use minigrep::order::{rank_bytes, rank_paths, Rank};
use minigrep::output::{ContextKind, ContextLine, MatchedLine, Output, Span, Style};
use minigrep::pathset::PathSet;
use minigrep::search::{Searcher, SearcherBuilder};
use minigrep::sink::Sink;
use minigrep::sinks::{FilesWithMatchesSink, FilesWithoutMatchSink, StandardSink};
use minigrep::text::{decimal_string, digit_str};
use regex::Regex;

fn config(path: Option<&str>) -> Config {
    Config {
        query: "x".to_string(),
        path: path.map(|p| p.to_string()),
        search: SearchOption { ignore_case: false, invert_match: false, only_matching: false },
        output: OutputOption {
            after_context: 0,
            before_context: 0,
            context: 0,
            line_number: false,
        },
        mode_args: OutputModeArgs {
            json: false,
            count: false,
            files_with_matches: false,
            files_without_match: false,
        },
    }
}

fn sp(text: &str, style: Style) -> Span {
    Span { text: text.to_string(), style }
}

fn matched<'a>(path: &'a str, line_number: usize, line: &'a str) -> MatchedLine<'a> {
    MatchedLine { path, line_number, match_result: MatchResult::Line(line) }
}

#[test]
fn decimal_of_small_and_large_numbers() {
    assert_eq!(decimal_string(0), "0");
    assert_eq!(decimal_string(7), "7");
    assert_eq!(decimal_string(10), "10");
    assert_eq!(decimal_string(1234567890), "1234567890");
    assert_eq!(decimal_string(u64::MAX), "18446744073709551615");
}

#[test]
fn digits_are_single_characters() {
    let all: String = (0..10).map(digit_str).collect();
    assert_eq!(all, "0123456789");
}

#[test]
fn effective_context_prefers_the_symmetric_count() {
    let mut cfg = config(None);
    cfg.output.after_context = 1;
    cfg.output.before_context = 2;
    assert_eq!(cfg.get_effective_context(), (1, 2));
    cfg.output.context = 5;
    assert_eq!(cfg.get_effective_context(), (5, 5));
}

#[test]
fn output_mode_follows_the_flags() {
    let mut args = OutputModeArgs {
        json: false,
        count: false,
        files_with_matches: false,
        files_without_match: false,
    };
    assert_eq!(OutputMode::try_from(&args), Ok(OutputMode::Standard));
    args.files_without_match = true;
    assert_eq!(OutputMode::try_from(&args), Ok(OutputMode::FilesWithoutMatch));
    args.files_with_matches = true;
    assert_eq!(OutputMode::try_from(&args), Ok(OutputMode::FilesWithMatches));
    args.count = true;
    assert_eq!(OutputMode::try_from(&args), Ok(OutputMode::Count));
    args.json = true;
    assert_eq!(OutputMode::try_from(&args), Ok(OutputMode::Json));
}

#[test]
fn bytes_are_ranked_in_their_own_order_within_a_part() {
    assert_eq!(rank_bytes(b"", b""), Rank::Same);
    assert_eq!(rank_bytes(b"", b"a"), Rank::Before);
    assert_eq!(rank_bytes(b"a", b""), Rank::After);
    assert_eq!(rank_bytes(b"ab", b"abc"), Rank::Before);
    assert_eq!(rank_bytes(b"abd", b"abc"), Rank::After);
    assert_eq!(rank_bytes(b"abc", b"abc"), Rank::Same);
    assert_eq!(rank_bytes(&[0x7f], &[0x80]), Rank::Before);
}

#[test]
fn paths_are_ranked_part_by_part() {
    assert_eq!(rank_paths("a/b", "a.b"), Rank::Before);
    assert_eq!(rank_paths("a.txt", "a/b"), Rank::After);
    assert_eq!(rank_paths("d/notes/a.txt", "d/notes.txt"), Rank::Before);
    assert_eq!(rank_paths("d/notes", "d/notes/a.txt"), Rank::Before);
    assert_eq!(rank_paths("a/z", "a b"), Rank::Before);
    assert_eq!(rank_paths("b", "a/b"), Rank::After);
    assert_eq!(rank_paths("é", "z"), Rank::After);
    assert_eq!(rank_paths("dir/x", "dir/x"), Rank::Same);
    assert_eq!(rank_bytes(b"/", b"\0"), Rank::Before);
    assert_eq!(rank_bytes(b"a/", b"a\0"), Rank::Before);
}

#[test]
fn paths_are_ranked_as_the_standard_library_ranks_them() {
    let names = [
        "a", "a/b", "a.b", "a b", "a-b", "a!b", "a/b/c", "a/b.c", "a/bc", "a/!", "ab", "b", "B",
        "d/notes", "d/notes/a.txt", "d/notes.txt", "d/notes-old/a.txt", "d/notes old.txt", "é",
        "z", "/a", "/a/b", "/a.b", "stdin", "src/main.rs", "src/main/x.rs", "src.rs",
    ];
    for a in names {
        for b in names {
            let expected = if Path::new(a) < Path::new(b) {
                Rank::Before
            } else if Path::new(a) == Path::new(b) {
                Rank::Same
            } else {
                Rank::After
            };
            assert_eq!(rank_paths(a, b), expected, "{:?} against {:?}", a, b);
        }
    }
}

#[test]
fn listing_sinks_put_a_directory_before_a_sibling_that_extends_its_name() {
    let mut out = Vec::new();
    let mut with = FilesWithMatchesSink::new();
    with.matched(&matched("a.b", 1, "x"), &mut out);
    with.matched(&matched("a/b", 1, "x"), &mut out);
    with.finish(&mut out);
    let mut without = FilesWithoutMatchSink::new(vec!["a.b".to_string(), "a/b".to_string()]);
    without.finish(&mut out);
    let mut count = CountSink::new();
    count.matched(&matched("a.b", 1, "x"), &mut out);
    count.matched(&matched("a/b", 1, "x"), &mut out);
    count.finish(&mut out);
    let shown: Vec<String> = out
        .iter()
        .map(|o| match o {
            Output::Line(spans) => spans.iter().map(|s| s.text.as_str()).collect::<String>(),
            Output::Records(_) => String::new(),
        })
        .collect();
    assert_eq!(shown, vec!["a/b", "a.b", "a/b", "a.b", "a/b:1", "a.b:1", "Total: 2"]);
}

#[test]
fn path_set_keeps_paths_sorted_and_once() {
    let mut set = PathSet::new();
    assert_eq!(set.len(), 0);
    assert_eq!(set.insert("m"), (0, true));
    assert_eq!(set.insert("z"), (1, true));
    assert_eq!(set.insert("a"), (0, true));
    assert_eq!(set.insert("m"), (1, false));
    assert_eq!(set.items, vec!["a", "m", "z"]);
    assert_eq!(set.len(), 3);
    assert_eq!(set.get(2), "z");
    assert!(set.contains("a"));
    assert!(!set.contains("b"));
    assert_eq!(set.locate("b"), (1, false));
    assert_eq!(set.locate("z"), (2, true));
    assert_eq!(set.locate("zz"), (3, false));
}

#[test]
fn path_set_from_a_list_and_difference() {
    let all = PathSet::from_vec(&vec![
        "c".to_string(),
        "a".to_string(),
        "c".to_string(),
        "b".to_string(),
    ]);
    assert_eq!(all.items, vec!["a", "b", "c"]);
    let some = PathSet::from_vec(&vec!["b".to_string(), "x".to_string()]);
    assert_eq!(all.difference(&some).items, vec!["a", "c"]);
    assert_eq!(some.difference(&all).items, vec!["x"]);
    assert_eq!(all.difference(&all).items, Vec::<String>::new());
}

#[test]
fn hidden_names_start_with_a_dot_or_name_the_build_directory() {
    assert!(is_hidden(Some(".git")));
    assert!(is_hidden(Some(".")));
    assert!(is_hidden(Some("target")));
    assert!(!is_hidden(Some("targets")));
    assert!(!is_hidden(Some("src")));
    assert!(!is_hidden(Some("a.b")));
    assert!(!is_hidden(Some("")));
    assert!(!is_hidden(None));
}

#[test]
fn binary_content_has_a_zero_among_its_first_bytes() {
    assert!(!is_binary(b""));
    assert!(!is_binary(b"plain text"));
    assert!(is_binary(&[b'a', 0, b'b']));
    let mut long = vec![b'a'; 2000];
    assert!(!is_binary(&long));
    long[1024] = 0;
    assert!(!is_binary(&long));
    long[1023] = 0;
    assert!(is_binary(&long));
}

#[test]
fn prefix_of_a_match_in_a_single_file() {
    let f = OutputFormatter::new(&config(Some("a.txt")), false);
    assert_eq!(
        f.format_prefix("a.txt", 12, None),
        vec![sp("12", Style::LineNumber), sp(":", Style::Plain)]
    );
}

#[test]
fn prefix_of_context_in_a_directory() {
    let f = OutputFormatter::new(&config(Some("d")), true);
    assert_eq!(
        f.format_prefix("d/a.txt", 3, Some(ContextKind::Before)),
        vec![
            sp("d/a.txt", Style::Path),
            sp(":", Style::Plain),
            sp("3", Style::LineNumber),
            sp("-", Style::Plain),
        ]
    );
    assert_eq!(
        f.format_prefix("d/a.txt", 4, Some(ContextKind::After)),
        vec![
            sp("d/a.txt", Style::Path),
            sp(":", Style::Plain),
            sp("4", Style::LineNumber),
            sp("-", Style::Plain),
        ]
    );
}

#[test]
fn prefix_on_standard_input_never_shows_a_path() {
    let f = OutputFormatter::new(&config(None), true);
    assert!(!f.multi_file);
    assert_eq!(
        f.format_prefix("stdin", 1, None),
        vec![sp("1", Style::LineNumber), sp(":", Style::Plain)]
    );
}

#[test]
fn highlight_alternates_gaps_and_matches() {
    let mut spans = vec![sp("p", Style::LineNumber)];
    highlight(&vec!["a", "b", "c"], &vec!["1", "2"], &mut spans);
    assert_eq!(
        spans,
        vec![
            sp("p", Style::LineNumber),
            sp("a", Style::Plain),
            sp("1", Style::Match),
            sp("b", Style::Plain),
            sp("2", Style::Match),
            sp("c", Style::Plain),
        ]
    );
}

#[test]
fn highlight_appends_the_rest_of_the_longer_list() {
    let mut spans = Vec::new();
    highlight(&vec!["a"], &vec!["1", "2", "3"], &mut spans);
    assert_eq!(
        spans,
        vec![
            sp("a", Style::Plain),
            sp("1", Style::Match),
            sp("2", Style::Match),
            sp("3", Style::Match),
        ]
    );
    let mut spans = Vec::new();
    highlight(&vec!["a", "b", "c"], &vec![], &mut spans);
    assert_eq!(spans, vec![sp("a", Style::Plain), sp("b", Style::Plain), sp("c", Style::Plain)]);
    let mut spans = Vec::new();
    highlight(&vec![], &vec![], &mut spans);
    assert_eq!(spans, Vec::<Span>::new());
}

#[test]
fn standard_sink_marks_every_match_of_a_line() {
    let re = Regex::new("ab").unwrap();
    let mut sink = StandardSink::new(&config(None), &re, false);
    let mut out = Vec::new();
    let signal = sink.matched(&matched("f", 9, "xabyabab"), &mut out);
    assert_eq!(signal, ControlFlow::Continue(()));
    assert_eq!(
        out,
        vec![Output::Line(vec![
            sp("9", Style::LineNumber),
            sp(":", Style::Plain),
            sp("x", Style::Plain),
            sp("ab", Style::Match),
            sp("y", Style::Plain),
            sp("ab", Style::Match),
            sp("", Style::Plain),
            sp("ab", Style::Match),
            sp("", Style::Plain),
        ])]
    );
}

#[test]
fn standard_sink_shows_context_and_divider() {
    let re = Regex::new("ab").unwrap();
    let mut sink = StandardSink::new(&config(Some("d")), &re, true);
    let mut out = Vec::new();
    let line = ContextLine {
        path: "d/f".to_string(),
        line_number: 2,
        content: "ab".to_string(),
        kind: ContextKind::After,
    };
    assert_eq!(sink.context(&line, &mut out), ControlFlow::Continue(()));
    assert_eq!(sink.context_break(&mut out), ControlFlow::Continue(()));
    sink.finish(&mut out);
    assert_eq!(
        out,
        vec![
            Output::Line(vec![
                sp("d/f", Style::Path),
                sp(":", Style::Plain),
                sp("2", Style::LineNumber),
                sp("-", Style::Plain),
                sp("ab", Style::Plain),
            ]),
            Output::Line(vec![sp("--", Style::Divider)]),
        ]
    );
}

#[test]
fn files_with_matches_sink_signals_break() {
    let mut sink = FilesWithMatchesSink::new();
    let mut out = Vec::new();
    assert_eq!(sink.matched(&matched("b", 1, "x"), &mut out), ControlFlow::Break(()));
    assert_eq!(sink.matched(&matched("a", 1, "x"), &mut out), ControlFlow::Break(()));
    assert_eq!(sink.matched(&matched("b", 7, "x"), &mut out), ControlFlow::Break(()));
    assert_eq!(out, Vec::<Output>::new());
    sink.finish(&mut out);
    assert_eq!(
        out,
        vec![
            Output::Line(vec![sp("a", Style::Path)]),
            Output::Line(vec![sp("b", Style::Path)]),
        ]
    );
}

#[test]
fn files_without_match_sink_lists_the_rest() {
    let mut sink = FilesWithoutMatchSink::new(vec![
        "c".to_string(),
        "a".to_string(),
        "b".to_string(),
        "a".to_string(),
    ]);
    let mut out = Vec::new();
    assert_eq!(sink.matched(&matched("a", 1, "x"), &mut out), ControlFlow::Continue(()));
    assert_eq!(sink.matched(&matched("q", 1, "x"), &mut out), ControlFlow::Continue(()));
    sink.finish(&mut out);
    assert_eq!(
        out,
        vec![
            Output::Line(vec![sp("b", Style::Path)]),
            Output::Line(vec![sp("c", Style::Path)]),
        ]
    );
}

#[test]
fn count_sink_counts_per_path() {
    let mut sink = CountSink::new();
    let mut out = Vec::new();
    for path in ["b", "a", "b", "b"] {
        assert_eq!(sink.matched(&matched(path, 1, "x"), &mut out), ControlFlow::Continue(()));
    }
    assert_eq!(sink.paths.items, vec!["a", "b"]);
    assert_eq!(sink.counts, vec![1, 3]);
    sink.finish(&mut out);
    assert_eq!(
        out,
        vec![
            Output::Line(vec![sp("a", Style::Path), sp(":", Style::Plain), sp("1", Style::Plain)]),
            Output::Line(vec![sp("b", Style::Path), sp(":", Style::Plain), sp("3", Style::Plain)]),
            Output::Line(vec![sp("Total: 4", Style::Plain)]),
        ]
    );
}

#[test]
fn count_sink_stops_at_the_largest_count() {
    let mut sink = CountSink::new();
    let mut out = Vec::new();
    sink.matched(&matched("a", 1, "x"), &mut out);
    sink.matched(&matched("b", 1, "x"), &mut out);
    sink.counts[0] = u64::MAX;
    sink.matched(&matched("a", 2, "x"), &mut out);
    assert_eq!(sink.counts, vec![u64::MAX, 1]);
    sink.finish(&mut out);
    assert_eq!(
        out,
        vec![
            Output::Line(vec![
                sp("a", Style::Path),
                sp(":", Style::Plain),
                sp("18446744073709551615", Style::Plain),
            ]),
            Output::Line(vec![sp("b", Style::Path), sp(":", Style::Plain), sp("1", Style::Plain)]),
            Output::Line(vec![sp("Total: 18446744073709551615", Style::Plain)]),
        ]
    );
}

#[test]
fn finish_leaves_the_sink_as_it_was() {
    let mut count = CountSink::new();
    let mut json = JsonSink::new();
    let mut with = FilesWithMatchesSink::new();
    let mut without = FilesWithoutMatchSink::new(vec!["a".to_string(), "b".to_string()]);
    let mut unused = Vec::new();
    count.matched(&matched("a", 1, "x"), &mut unused);
    json.matched(&matched("a", 1, "x"), &mut unused);
    with.matched(&matched("a", 1, "x"), &mut unused);
    without.matched(&matched("a", 1, "x"), &mut unused);
    let mut sinks = vec![
        Sink::Count(count),
        Sink::Json(json),
        Sink::FilesWithMatches(with),
        Sink::FilesWithoutMatch(without),
    ];
    for sink in sinks.iter_mut() {
        let mut first = Vec::new();
        sink.finish(&mut first);
        let mut second = Vec::new();
        sink.finish(&mut second);
        assert_eq!(first.len(), 1);
        assert_eq!(first, second);
    }
}

#[test]
fn sinks_other_than_standard_ignore_context() {
    let line = ContextLine {
        path: "f".to_string(),
        line_number: 1,
        content: "c".to_string(),
        kind: ContextKind::Before,
    };
    let mut sinks = vec![
        Sink::Count(CountSink::new()),
        Sink::Json(JsonSink::new()),
        Sink::FilesWithMatches(FilesWithMatchesSink::new()),
        Sink::FilesWithoutMatch(FilesWithoutMatchSink::new(Vec::new())),
    ];
    for sink in sinks.iter_mut() {
        let mut out = Vec::new();
        assert_eq!(sink.context(&line, &mut out), ControlFlow::Continue(()));
        assert_eq!(sink.context_break(&mut out), ControlFlow::Continue(()));
        assert_eq!(out, Vec::<Output>::new());
    }
}

#[test]
fn builder_picks_the_matcher_from_the_flags() {
    let re = Regex::new("x").unwrap();
    let mut cfg = config(None);
    assert!(matches!(
        SearcherBuilder::new(&cfg, &re, false).build_matcher(),
        LineMatcher::Default(m) if !m.invert_match
    ));
    cfg.search.invert_match = true;
    assert!(matches!(
        SearcherBuilder::new(&cfg, &re, false).build_matcher(),
        LineMatcher::Default(m) if m.invert_match
    ));
    cfg.search.invert_match = false;
    cfg.search.only_matching = true;
    assert!(matches!(
        SearcherBuilder::new(&cfg, &re, false).build_matcher(),
        LineMatcher::OnlyMatching(_)
    ));
}

#[test]
fn builder_picks_the_sink_from_the_mode() {
    let re = Regex::new("x").unwrap();
    let cfg = config(None);
    let builder = SearcherBuilder::new(&cfg, &re, false);
    assert!(matches!(builder.build_sink(OutputMode::Standard, None), Sink::Standard(_)));
    assert!(matches!(builder.build_sink(OutputMode::Json, None), Sink::Json(_)));
    assert!(matches!(builder.build_sink(OutputMode::Count, None), Sink::Count(_)));
    assert!(matches!(
        builder.build_sink(OutputMode::FilesWithMatches, None),
        Sink::FilesWithMatches(_)
    ));
    let sink = builder.build_sink(OutputMode::FilesWithoutMatch, Some(vec!["a".to_string()]));
    match sink {
        Sink::FilesWithoutMatch(s) => assert_eq!(s.all_files.items, vec!["a"]),
        _ => panic!("wrong sink"),
    }
}

#[test]
fn line_matcher_classifies_like_its_kind() {
    let re = Regex::new("b+").unwrap();
    let cfg = config(None);
    let Searcher { matcher, .. } = SearcherBuilder::new(&cfg, &re, false).build(OutputMode::Count, None);
    assert_eq!(matcher.find("abba"), Some(MatchResult::Line("abba")));
    assert_eq!(matcher.find("aaaa"), None);
    let mut cfg = config(None);
    cfg.search.only_matching = true;
    let matcher = SearcherBuilder::new(&cfg, &re, false).build_matcher();
    assert_eq!(matcher.find("abbab"), Some(MatchResult::Content(vec!["bb", "b"])));
    assert_eq!(matcher.find("aaaa"), None);
}

#[test]
fn search_stops_scanning_a_file_after_break_without_changing_the_result() {
    let re = Regex::new("x").unwrap();
    let cfg = config(Some("d"));
    let mut searcher = SearcherBuilder::new(&cfg, &re, true).build(OutputMode::FilesWithMatches, None);
    let mut out = Vec::new();
    let lines: Vec<String> = vec!["x".to_string(), "x".to_string(), "y".to_string()];
    searcher.search_stream(&lines, "d/a", 1, 1, &mut out);
    searcher.search_stream(&lines, "d/b", 1, 1, &mut out);
    searcher.sink.finish(&mut out);
    assert_eq!(
        out,
        vec![
            Output::Line(vec![sp("d/a", Style::Path)]),
            Output::Line(vec![sp("d/b", Style::Path)]),
        ]
    );
}

#[test]
fn whole_line_is_reported_when_verdict_and_sense_differ() {
    assert_eq!(whole_line_if(true, false, "l"), Some(MatchResult::Line("l")));
    assert_eq!(whole_line_if(false, true, "l"), Some(MatchResult::Line("l")));
    assert_eq!(whole_line_if(true, true, "l"), None);
    assert_eq!(whole_line_if(false, false, "l"), None);
}

#[test]
fn fragments_are_reported_when_there_are_any() {
    assert_eq!(fragments_if_any(vec![]), None);
    assert_eq!(fragments_if_any(vec!["a", "b"]), Some(MatchResult::Content(vec!["a", "b"])));
    assert_eq!(fragments_if_any(vec![""]), Some(MatchResult::Content(vec![""])));
}
