//! Run configuration: the pattern, the target and the flags.

use vstd::prelude::*;

verus! {

/// The shape of the output. Exactly one is active during a run.
#[derive(Debug, Clone, Copy, PartialEq, Eq, Structural)]
pub enum OutputMode {
    Standard,
    Json,
    Count,
    FilesWithMatches,
    FilesWithoutMatch,
}

/// The four flags that select an output mode. At most one is expected to be
/// set; when several are, the first in declaration order wins.
#[derive(Debug, Clone)]
pub struct OutputModeArgs {
    pub json: bool,
    pub count: bool,
    pub files_with_matches: bool,
    pub files_without_match: bool,
}

/// The mode that a set of flags selects.
pub open spec fn selected_mode(args: OutputModeArgs) -> OutputMode {
    if args.json {
        OutputMode::Json
    } else if args.count {
        OutputMode::Count
    } else if args.files_with_matches {
        OutputMode::FilesWithMatches
    } else if args.files_without_match {
        OutputMode::FilesWithoutMatch
    } else {
        OutputMode::Standard
    }
}

impl OutputMode {
    /// Picks the output mode from the flags. Never fails: with no flag set
    /// the mode is `Standard`.
    pub fn try_from(args: &OutputModeArgs) -> (r: Result<OutputMode, &'static str>)
        ensures
            r == Ok::<OutputMode, &'static str>(selected_mode(*args)),
    {
        if args.json {
            Ok(OutputMode::Json)
        } else if args.count {
            Ok(OutputMode::Count)
        } else if args.files_with_matches {
            Ok(OutputMode::FilesWithMatches)
        } else if args.files_without_match {
            Ok(OutputMode::FilesWithoutMatch)
        } else {
            Ok(OutputMode::Standard)
        }
    }
}

/// How lines are matched.
#[derive(Debug, Clone)]
pub struct SearchOption {
    pub ignore_case: bool,
    pub invert_match: bool,
    pub only_matching: bool,
}

/// What is shown around a match.
#[derive(Debug, Clone)]
pub struct OutputOption {
    pub after_context: usize,
    pub before_context: usize,
    pub context: usize,
    pub line_number: bool,
}

/// Everything a run needs to know. `path` is `None` when the input is the
/// standard input stream.
#[derive(Debug, Clone)]
pub struct Config {
    pub query: String,
    pub path: Option<String>,
    pub search: SearchOption,
    pub output: OutputOption,
    pub mode_args: OutputModeArgs,
}

impl Config {
    /// The context window as `(after, before)`.
    pub open spec fn effective_context(&self) -> (usize, usize) {
        if self.output.context > 0 {
            (self.output.context, self.output.context)
        } else {
            (self.output.after_context, self.output.before_context)
        }
    }

    /// The trailing and leading context lengths, in that order. A positive
    /// symmetric `context` overrides both of the independent counts.
    pub fn get_effective_context(&self) -> (r: (usize, usize))
        ensures
            r == self.effective_context(),
    {
        if self.output.context > 0 {
            (self.output.context, self.output.context)
        } else {
            (self.output.after_context, self.output.before_context)
        }
    }
}

} // verus!
