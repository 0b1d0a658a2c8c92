//! The configuration of a run: bounds and output preferences, with their
//! defaults, and the reading of an ignore list.

use vstd::prelude::*;
use vstd::string::*;
use crate::loader::{default_loader_limits, LoaderLimits};
use crate::matcher::{default_matcher_limits, MatcherLimits};
use crate::text::{chars_of, lines_of, split_lines, trim, trimmed};

verus! {

/// The default output format.
pub const DEFAULT_FORMAT: &'static str = "text";

/// The bounds of a run.
#[derive(Debug, Clone, Copy)]
pub struct Limits {
    /// The most bytes that a scanned file may have.
    pub max_file_size: usize,
    /// The most bytes that a pattern library document may have.
    pub max_pattern_file_size: usize,
    /// The most patterns that a library may hold.
    pub max_patterns: usize,
    /// The most matches that one scan gives.
    pub max_matches: usize,
}

impl Default for Limits {
    fn default() -> (r: Limits)
        ensures
            r.max_file_size == 10485760,
            r.max_pattern_file_size == 1048576,
            r.max_patterns == 1000,
            r.max_matches == 10000,
    {
        Limits {
            max_file_size: 10485760,
            max_pattern_file_size: 1048576,
            max_patterns: 1000,
            max_matches: 10000,
        }
    }
}

/// The output preferences of a run.
#[derive(Debug, Clone)]
pub struct Output {
    /// The name of the format where the command line names none.
    pub default_format: String,
    /// Whether text reports show icons.
    pub show_icons: bool,
    /// Whether a critical or high match makes the run fail.
    pub fail_on_critical: bool,
}

impl Default for Output {
    fn default() -> (r: Output)
        ensures
            r.default_format@ == DEFAULT_FORMAT@,
            r.show_icons,
            r.fail_on_critical,
    {
        Output {
            default_format: String::from_str(DEFAULT_FORMAT),
            show_icons: true,
            fail_on_critical: true,
        }
    }
}

/// The configuration of a run.
#[derive(Debug, Clone)]
pub struct Config {
    pub limits: Limits,
    pub output: Output,
}

impl Default for Config {
    fn default() -> (r: Config)
        ensures
            r.limits.max_file_size == 10485760,
            r.limits.max_pattern_file_size == 1048576,
            r.limits.max_patterns == 1000,
            r.limits.max_matches == 10000,
            r.output.default_format@ == DEFAULT_FORMAT@,
            r.output.show_icons,
            r.output.fail_on_critical,
    {
        Config { limits: Limits::default(), output: Output::default() }
    }
}

impl Config {
    /// The bounds of the loader under this configuration: the configured
    /// size of a library document, and the defaults for the rest.
    pub fn loader_limits(&self) -> (r: LoaderLimits)
        ensures
            r.max_file_size == self.limits.max_pattern_file_size,
            r.max_lines == default_loader_limits().max_lines,
            r.max_libraries == default_loader_limits().max_libraries,
    {
        let defaults = LoaderLimits::default();
        LoaderLimits {
            max_file_size: self.limits.max_pattern_file_size as u64,
            max_lines: defaults.max_lines,
            max_libraries: defaults.max_libraries,
        }
    }

    /// The bounds of the matcher under this configuration: the configured
    /// numbers of patterns and matches and size of a file, and the default
    /// for the length of an expression.
    pub fn matcher_limits(&self) -> (r: MatcherLimits)
        ensures
            r.max_patterns == self.limits.max_patterns,
            r.max_matches == self.limits.max_matches,
            r.max_file_size == self.limits.max_file_size,
            r.max_regex_length == default_matcher_limits().max_regex_length,
    {
        let defaults = MatcherLimits::default();
        MatcherLimits {
            max_patterns: self.limits.max_patterns,
            max_regex_length: defaults.max_regex_length,
            max_matches: self.limits.max_matches,
            max_file_size: self.limits.max_file_size as u64,
        }
    }
}

/// Whether a line of an ignore list counts: trimmed, it is not empty and
/// does not start with `#`.
pub open spec fn is_ignore_entry(line: Seq<char>) -> bool {
    trim(line).len() > 0 && trim(line)[0] != '#'
}

/// The entries among the first `n` lines, each trimmed.
pub open spec fn ignore_entries_upto(lines: Seq<Seq<char>>, n: int) -> Seq<Seq<char>>
    decreases n,
{
    if n <= 0 {
        Seq::empty()
    } else if is_ignore_entry(lines[n - 1]) {
        ignore_entries_upto(lines, n - 1).push(trim(lines[n - 1]))
    } else {
        ignore_entries_upto(lines, n - 1)
    }
}

/// The entries of an ignore list: one pattern for each line, blank lines
/// and `#` comments left out.
pub open spec fn ignore_entries(content: Seq<char>) -> Seq<Seq<char>> {
    let lines = split_lines(content);
    ignore_entries_upto(lines, lines.len() as int)
}

/// Reads the entries of an ignore list.
pub fn parse_ignore_patterns(content: &str) -> (r: Vec<String>)
    ensures
        r.deep_view() == ignore_entries(content@),
{
    let lines = lines_of(content);
    let ghost spec_lines = lines.deep_view();
    let mut out: Vec<String> = Vec::new();
    let mut i: usize = 0;
    while i < lines.len()
        invariant
            spec_lines == lines.deep_view(),
            i <= lines.len(),
            out.deep_view() == ignore_entries_upto(spec_lines, i as int),
        decreases lines.len() - i,
    {
        assert(spec_lines[i as int] == lines[i as int]@);
        let entry = trimmed(lines[i].as_str());
        let chars = chars_of(entry.as_str());
        if chars.len() > 0 && chars[0] != '#' {
            let ghost before = out.deep_view();
            out.push(entry);
            assert(out.deep_view() =~= before.push(trim(spec_lines[i as int])));
        }
        i += 1;
    }
    out
}

} // verus!
