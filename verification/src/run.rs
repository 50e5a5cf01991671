//! A whole run: from the configuration and what was read of the target to
//! everything that is to be shown.

use vstd::prelude::*;
use vstd::string::StringExecFns;
use crate::config::{selected_mode, Config, OutputMode};
use crate::json_sink::copy_strings;
use crate::output::{output_views, Event, Output, OutputView};
use crate::pathset::string_views;
use crate::pattern::{compile_regex, regex_compiled, regex_error_message, regex_error_text};
use crate::search::{
    matcher_for, outcomes_of, sink_for, tree_events, FileEntry, SearcherBuilder,
};
use crate::stream::stream_events;

verus! {

/// Why a run did not start.
#[derive(Debug)]
pub enum RunError {
    /// The pattern is no valid regular expression.
    BadPattern(regex::Error),
    /// Files without a match were asked for, but the input is the standard
    /// input stream, where there are no files.
    StdinUnsupported,
}

/// The text that reports a refused combination of mode and target.
pub open spec fn stdin_unsupported_text() -> Seq<char> {
    "Error: --files-without-match is not supported for stdin."@
}

impl RunError {
    /// The text of the error, for the error stream.
    pub fn message(&self) -> (r: String)
        ensures
            r@ == match *self {
                RunError::BadPattern(e) => regex_error_message(e),
                RunError::StdinUnsupported => stdin_unsupported_text(),
            },
    {
        match self {
            RunError::BadPattern(e) => regex_error_text(e),
            RunError::StdinUnsupported => String::from_str(
                "Error: --files-without-match is not supported for stdin.",
            ),
        }
    }
}

/// What was read of the target before the run.
#[derive(Debug)]
pub struct Sources {
    /// Whether the configured path names a directory.
    pub is_dir: bool,
    /// The candidate files under the configured path, hidden entries left
    /// out, in the order in which they are to be searched.
    pub entries: Vec<FileEntry>,
    /// Every regular file under the configured path. Needed only where the
    /// files without a match are asked for.
    pub all_files: Vec<String>,
    /// The lines of the standard input stream. Used where no path is
    /// configured.
    pub stdin: Vec<String>,
}

/// Whether the run is refused: files without a match are asked for and no
/// path is configured.
pub open spec fn is_refused(config: Config, mode: OutputMode) -> bool {
    config.path is None && mode == OutputMode::FilesWithoutMatch
}

/// Everything the sink is told during a run.
pub open spec fn run_events(config: Config, re: &regex::Regex, sources: Sources) -> Seq<Event> {
    let window = config.effective_context();
    let matcher = matcher_for(config, re);
    if config.path is Some {
        tree_events(matcher, sources.entries@, window.1, window.0, sources.entries@.len())
    } else {
        stream_events(
            string_views(sources.stdin@),
            outcomes_of(matcher, string_views(sources.stdin@)),
            window.1,
            window.0,
            "stdin"@,
        )
    }
}

/// Everything a run shows: what the sink shows while it is told of the
/// lines, and then its report.
pub open spec fn run_output(config: Config, re: &regex::Regex, mode: OutputMode, sources: Sources)
    -> Seq<OutputView> {
    let start = sink_for(
        config,
        *re,
        sources.is_dir,
        mode,
        if mode == OutputMode::FilesWithoutMatch {
            string_views(sources.all_files@).to_set()
        } else {
            Set::<Seq<char>>::empty()
        },
    );
    let events = run_events(config, re, sources);
    start.shows_all(events) + start.after_all(events).report()
}

/// A run that is ready to go: the configuration, the compiled pattern and
/// the output mode.
pub struct App<'a> {
    pub config: &'a Config,
    pub re: &'a regex::Regex,
    pub output_mode: OutputMode,
}

impl<'a> App<'a> {
    /// A run on `config` with the compiled pattern `re` in the given mode.
    pub fn new(config: &'a Config, re: &'a regex::Regex, output_mode: OutputMode) -> (r: App<'a>)
        ensures
            r.config == config,
            r.re == re,
            r.output_mode == output_mode,
    {
        App { config, re, output_mode }
    }

    /// Runs the search over what was read of the target and ends the sink
    /// once, after the last source. The one run that is refused is the
    /// listing of files without a match on the standard input stream.
    pub fn execute(&self, sources: &Sources, out: &mut Vec<Output>) -> (r: Result<(), RunError>)
        ensures
            is_refused(*self.config, self.output_mode) ==> r is Err && r->Err_0 is StdinUnsupported
                && output_views(final(out)@) == output_views(old(out)@),
            !is_refused(*self.config, self.output_mode) ==> r is Ok && output_views(final(out)@)
                == output_views(old(out)@) + run_output(
                *self.config,
                self.re,
                self.output_mode,
                *sources,
            ),
    {
        let window = self.config.get_effective_context();
        let after_len = window.0;
        let before_len = window.1;
        let wants_rest = match self.output_mode {
            OutputMode::FilesWithoutMatch => true,
            _ => false,
        };
        match &self.config.path {
            Some(_) => {
                let all_files = if wants_rest {
                    Some(copy_strings(&sources.all_files))
                } else {
                    None
                };
                let mut searcher = SearcherBuilder::new(self.config, self.re, sources.is_dir).build(
                    self.output_mode,
                    all_files,
                );
                searcher.search_path(&sources.entries, before_len, after_len, out);
                searcher.sink.finish(out);
                Ok(())
            },
            None => {
                if wants_rest {
                    return Err(RunError::StdinUnsupported);
                }
                let mut searcher = SearcherBuilder::new(self.config, self.re, sources.is_dir).build(
                    self.output_mode,
                    None,
                );
                searcher.search_reader(&sources.stdin, before_len, after_len, out);
                searcher.sink.finish(out);
                Ok(())
            },
        }
    }
}

/// What `prepare` owes for a configuration: the error of the pattern where
/// it does not compile, else the refusal of the mode where it does not go
/// with the target, else the compiled pattern and the mode.
pub open spec fn prepared(config: Config, r: Result<(regex::Regex, OutputMode), RunError>) -> bool {
    match regex_compiled(config.query@, config.search.ignore_case) {
        None => r is Err && r->Err_0 is BadPattern,
        Some(re) => if is_refused(config, selected_mode(config.mode_args)) {
            r is Err && r->Err_0 is StdinUnsupported
        } else {
            r is Ok && r->Ok_0.0 == re && r->Ok_0.1 == selected_mode(config.mode_args)
        },
    }
}

/// Makes a run ready without reading anything: compiles the pattern, picks
/// the output mode and refuses the one combination of mode and target that
/// is not supported. A caller that reads the target only after this has
/// succeeded fails on a bad configuration before it has read a byte.
pub fn prepare(config: &Config) -> (r: Result<(regex::Regex, OutputMode), RunError>)
    ensures
        prepared(*config, r),
{
    let re = match compile_regex(config.query.as_str(), config.search.ignore_case) {
        Ok(re) => re,
        Err(e) => {
            return Err(RunError::BadPattern(e));
        },
    };
    let output_mode = match OutputMode::try_from(&config.mode_args) {
        Ok(mode) => mode,
        Err(_) => OutputMode::Standard,
    };
    match (&config.path, output_mode) {
        (None, OutputMode::FilesWithoutMatch) => Err(RunError::StdinUnsupported),
        _ => Ok((re, output_mode)),
    }
}

/// Runs the search that `config` describes over what was read of the
/// target. Fails, before anything is shown, where the pattern does not
/// compile or where the mode does not go with the target.
pub fn run(config: &Config, sources: &Sources, out: &mut Vec<Output>) -> (r: Result<(), RunError>)
    ensures
        match regex_compiled(config.query@, config.search.ignore_case) {
            None => r is Err && r->Err_0 is BadPattern && output_views(final(out)@)
                == output_views(old(out)@),
            Some(re) => if is_refused(*config, selected_mode(config.mode_args)) {
                r is Err && r->Err_0 is StdinUnsupported && output_views(final(out)@)
                    == output_views(old(out)@)
            } else {
                r is Ok && output_views(final(out)@) == output_views(old(out)@) + run_output(
                    *config,
                    &re,
                    selected_mode(config.mode_args),
                    *sources,
                )
            },
        },
{
    match prepare(config) {
        Ok(ready) => App::new(config, &ready.0, ready.1).execute(sources, out),
        Err(e) => Err(e),
    }
}

} // verus!
