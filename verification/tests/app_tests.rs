use minigrep::config::{Config, OutputMode, OutputModeArgs, OutputOption, SearchOption};
use minigrep::output::{Output, Span, Style};
use minigrep::run::{App, RunError, Sources};
use minigrep::search::{FileEntry, SearcherBuilder};
use regex::Regex;

fn config(path: Option<&str>) -> Config {
    Config {
        query: "x".to_string(),
        path: path.map(|p| p.to_string()),
        search: SearchOption { ignore_case: false, invert_match: false, only_matching: false },
        output: OutputOption {
            after_context: 0,
            before_context: 0,
            context: 0,
            line_number: false,
        },
        mode_args: OutputModeArgs {
            json: false,
            count: false,
            files_with_matches: false,
            files_without_match: false,
        },
    }
}

fn entry(path: &str, lines: &[&str]) -> FileEntry {
    FileEntry {
        path: path.to_string(),
        is_file: true,
        head: Some(lines.join("\n").into_bytes()),
        lines: Some(lines.iter().map(|l| l.to_string()).collect()),
    }
}

fn texts(out: &[Output]) -> Vec<String> {
    out.iter()
        .map(|o| match o {
            Output::Line(spans) => spans.iter().map(|s| s.text.as_str()).collect::<String>(),
            Output::Records(_) => String::from("<records>"),
        })
        .collect()
}

#[test]
fn execute_uses_the_pattern_it_is_given() {
    let cfg = config(None);
    let re = Regex::new("y").unwrap();
    let app = App::new(&cfg, &re, OutputMode::Standard);
    let sources = Sources {
        is_dir: false,
        entries: Vec::new(),
        all_files: Vec::new(),
        stdin: vec!["x".to_string(), "y".to_string()],
    };
    let mut out = Vec::new();
    assert!(app.execute(&sources, &mut out).is_ok());
    assert_eq!(
        out,
        vec![Output::Line(vec![
            Span { text: "2".to_string(), style: Style::LineNumber },
            Span { text: ":".to_string(), style: Style::Plain },
            Span { text: "".to_string(), style: Style::Plain },
            Span { text: "y".to_string(), style: Style::Match },
            Span { text: "".to_string(), style: Style::Plain },
        ])]
    );
}

#[test]
fn execute_searches_the_files_when_a_path_is_configured() {
    let cfg = config(Some("d"));
    let re = Regex::new("x").unwrap();
    let app = App::new(&cfg, &re, OutputMode::Count);
    let sources = Sources {
        is_dir: true,
        entries: vec![entry("d/a", &["x", "x"])],
        all_files: Vec::new(),
        stdin: vec!["x".to_string()],
    };
    let mut out = Vec::new();
    assert!(app.execute(&sources, &mut out).is_ok());
    assert_eq!(texts(&out), vec!["d/a:2"]);
}

#[test]
fn execute_refuses_files_without_match_on_stdin() {
    let cfg = config(None);
    let re = Regex::new("x").unwrap();
    let app = App::new(&cfg, &re, OutputMode::FilesWithoutMatch);
    let sources = Sources {
        is_dir: false,
        entries: Vec::new(),
        all_files: vec!["a".to_string()],
        stdin: vec!["x".to_string()],
    };
    let mut out = Vec::new();
    assert!(matches!(app.execute(&sources, &mut out), Err(RunError::StdinUnsupported)));
    assert_eq!(out, Vec::<Output>::new());
}

#[test]
fn execute_ends_the_sink_once_even_without_input() {
    let cfg = config(Some("d"));
    let re = Regex::new("x").unwrap();
    let app = App::new(&cfg, &re, OutputMode::Json);
    let sources =
        Sources { is_dir: true, entries: Vec::new(), all_files: Vec::new(), stdin: Vec::new() };
    let mut out = Vec::new();
    assert!(app.execute(&sources, &mut out).is_ok());
    assert_eq!(texts(&out), vec!["[]"]);
}

#[test]
fn search_path_goes_through_the_entries_in_the_order_given() {
    let cfg = config(Some("d"));
    let re = Regex::new("x").unwrap();
    let mut searcher = SearcherBuilder::new(&cfg, &re, true).build(OutputMode::Standard, None);
    let entries = vec![entry("d/b", &["x"]), entry("d/a", &["y", "xx"])];
    let mut out = Vec::new();
    searcher.search_path(&entries, 0, 0, &mut out);
    assert_eq!(texts(&out), vec!["d/b:1:x", "d/a:2:xx"]);
}

#[test]
fn search_reader_reports_under_the_name_of_the_stream() {
    let cfg = config(None);
    let re = Regex::new("x").unwrap();
    let mut searcher = SearcherBuilder::new(&cfg, &re, false).build(OutputMode::Count, None);
    let mut out = Vec::new();
    searcher.search_reader(&vec!["x".to_string()], 0, 0, &mut out);
    searcher.sink.finish(&mut out);
    assert_eq!(texts(&out), vec!["stdin:1"]);
}
