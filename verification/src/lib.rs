//! Static analysis of arithmetic-circuit sources: a line-by-line pattern
//! matcher and a two-pass semantic analyzer that weighs its findings.

pub mod checks;
pub mod collect;
pub mod config;
pub mod context;
pub mod engine;
pub mod grammar;
pub mod guards;
pub mod lexer;
pub mod loader;
pub mod matcher;
pub mod output;
pub mod sarif;
pub mod scanner;
pub mod semantic;
pub mod template;
pub mod text;
pub mod textset;
pub mod types;

pub use config::{Config, Limits, Output};
pub use loader::{
    load_pattern_libraries, load_pattern_libraries_with_limits, LoaderError, LoaderLimits,
};
pub use matcher::{MatcherError, MatcherLimits, PatternMatcher};
pub use output::{severity_icon, JsonOutput, OutputFormat, OutputFormatter, Report, Summary};
pub use scanner::Scanner;
pub use types::{
    Invariant, InvariantType, MatchLocation, Oracle, Pattern, PatternKind, PatternLibrary,
    PatternMatch, Severity,
};
