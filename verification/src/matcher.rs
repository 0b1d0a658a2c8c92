//! The syntactic pattern matcher: a validated library, compiled once, that
//! scans a text line by line.
//!
//! Matches come in scan order: line by line, for each line pattern by
//! pattern in library order, and for one pattern on one line from left to
//! right.  A scan never gives more than `max_matches` matches.

use vstd::prelude::*;
use vstd::string::*;
use crate::checks::FindingView;
use crate::context::contexts_of;
use crate::engine::{
    compile, compile_fancy, error_text, fancy_compiles, fancy_error_text, fancy_find_all,
    fancy_source, find_all, find_all_fancy, regex_compiles, regex_find_all, regex_source,
};
use crate::grammar::Grammar;
use crate::semantic::{
    calibrate_pattern_matches_with, calibrated_all, dedup_and_filter_pattern_matches_with,
    lemma_survivors_len, scan_findings, survivors, two_pass_scan_with,
};
use crate::text::{
    decimal, decimal_digits, decimal_u64, find_bytes, first_occurrence, lines_of, lower_ascii,
    lowered, same_text, split_lines,
};
use crate::types::{
    id_taken, id_used, ids_distinct, MatchLocation, MatchLocationView, Pattern, PatternKind, PatternLibrary,
    PatternMatch, PatternMatchView, PatternView, Severity,
};

verus! {

/// The bounds that a matcher keeps.
#[derive(Debug, Clone, Copy)]
pub struct MatcherLimits {
    /// The most patterns that a library may hold.
    pub max_patterns: usize,
    /// The most bytes that the text of an expression may have.
    pub max_regex_length: usize,
    /// The most matches that one scan gives.
    pub max_matches: usize,
    /// The most bytes that a scanned file may have.
    pub max_file_size: u64,
}

/// The default bounds: a thousand patterns, two hundred bytes for an
/// expression, ten thousand matches, ten mebibytes for a file.
pub open spec fn default_matcher_limits() -> MatcherLimits {
    MatcherLimits {
        max_patterns: 1000,
        max_regex_length: 200,
        max_matches: 10_000,
        max_file_size: 10485760,
    }
}

impl Default for MatcherLimits {
    fn default() -> (r: MatcherLimits)
        ensures
            r == default_matcher_limits(),
    {
        MatcherLimits {
            max_patterns: 1000,
            max_regex_length: 200,
            max_matches: 10_000,
            max_file_size: 10 * 1024 * 1024,
        }
    }
}

/// Why a library is refused, or a file.
#[derive(Debug)]
#[allow(inconsistent_fields)]
pub enum MatcherError {
    TooManyPatterns { count: usize, max: usize },
    DuplicateId { id: String },
    AstUnsupported { id: String },
    RegexTooLong { id: String, length: usize, max: usize },
    FancyRegexTooLong { id: String, length: usize, max: usize },
    /// The plain engine refuses the expression; `detail` is its message.
    InvalidRegex { id: String, detail: String },
    /// The backtracking engine refuses the expression; `detail` is its
    /// message.
    InvalidFancyRegex { id: String, detail: String },
    FileTooLarge { size: u64, max: u64 },
}

/// The model of a `MatcherError`: the error without the engine's own words.
#[allow(inconsistent_fields)]
pub enum Fault {
    TooManyPatterns { count: int, max: int },
    DuplicateId { id: Seq<char> },
    AstUnsupported { id: Seq<char> },
    RegexTooLong { id: Seq<char>, length: int, max: int },
    FancyRegexTooLong { id: Seq<char>, length: int, max: int },
    InvalidRegex { id: Seq<char> },
    InvalidFancyRegex { id: Seq<char> },
    FileTooLarge { size: int, max: int },
}

impl View for MatcherError {
    type V = Fault;

    open spec fn view(&self) -> Fault {
        match self {
            MatcherError::TooManyPatterns { count, max } => Fault::TooManyPatterns {
                count: *count as int,
                max: *max as int,
            },
            MatcherError::DuplicateId { id } => Fault::DuplicateId { id: id@ },
            MatcherError::AstUnsupported { id } => Fault::AstUnsupported { id: id@ },
            MatcherError::RegexTooLong { id, length, max } => Fault::RegexTooLong {
                id: id@,
                length: *length as int,
                max: *max as int,
            },
            MatcherError::FancyRegexTooLong { id, length, max } => Fault::FancyRegexTooLong {
                id: id@,
                length: *length as int,
                max: *max as int,
            },
            MatcherError::InvalidRegex { id, detail } => Fault::InvalidRegex { id: id@ },
            MatcherError::InvalidFancyRegex { id, detail } => Fault::InvalidFancyRegex { id: id@ },
            MatcherError::FileTooLarge { size, max } => Fault::FileTooLarge {
                size: *size as int,
                max: *max as int,
            },
        }
    }
}

impl MatcherError {
    /// The error in words.  Where an engine refuses an expression, its own
    /// words follow the id.
    pub open spec fn spec_message(&self) -> Seq<char> {
        match self {
            MatcherError::TooManyPatterns { count, max } => "Too many patterns: "@ + decimal_digits(
                *count as nat,
            ) + " (max "@ + decimal_digits(*max as nat) + ")"@,
            MatcherError::DuplicateId { id } => "Duplicate pattern id detected: "@ + id@,
            MatcherError::AstUnsupported { id } => "Pattern '"@ + id@
                + "' uses kind=ast, which is not implemented yet"@,
            MatcherError::RegexTooLong { id, length, max } => "Regex pattern too complex in "@ + id@
                + ": "@ + decimal_digits(*length as nat) + " chars (max "@ + decimal_digits(
                *max as nat,
            ) + ")"@,
            MatcherError::FancyRegexTooLong { id, length, max } =>
                "Fancy-regex pattern too complex in "@ + id@ + ": "@ + decimal_digits(
                    *length as nat,
                ) + " chars (max "@ + decimal_digits(*max as nat) + ")"@,
            MatcherError::InvalidRegex { id, detail } => "Invalid regex in pattern "@ + id@ + ": "@
                + detail@,
            MatcherError::InvalidFancyRegex { id, detail } => "Invalid fancy-regex in pattern "@
                + id@ + ": "@ + detail@,
            MatcherError::FileTooLarge { size, max } => "File too large: "@ + decimal_digits(
                *size as nat,
            ) + " bytes (max "@ + decimal_digits(*max as nat) + ")"@,
        }
    }

    /// The error in words.
    pub fn message(&self) -> (r: String)
        ensures
            r@ == self.spec_message(),
    {
        match self {
            MatcherError::TooManyPatterns { count, max } => {
                let mut s = String::from_str("Too many patterns: ");
                s.append(decimal(*count).as_str());
                s.append(" (max ");
                s.append(decimal(*max).as_str());
                s.append(")");
                s
            },
            MatcherError::DuplicateId { id } => {
                let mut s = String::from_str("Duplicate pattern id detected: ");
                s.append(id.as_str());
                s
            },
            MatcherError::AstUnsupported { id } => {
                let mut s = String::from_str("Pattern '");
                s.append(id.as_str());
                s.append("' uses kind=ast, which is not implemented yet");
                s
            },
            MatcherError::RegexTooLong { id, length, max } => {
                let mut s = String::from_str("Regex pattern too complex in ");
                s.append(id.as_str());
                s.append(": ");
                s.append(decimal(*length).as_str());
                s.append(" chars (max ");
                s.append(decimal(*max).as_str());
                s.append(")");
                s
            },
            MatcherError::FancyRegexTooLong { id, length, max } => {
                let mut s = String::from_str("Fancy-regex pattern too complex in ");
                s.append(id.as_str());
                s.append(": ");
                s.append(decimal(*length).as_str());
                s.append(" chars (max ");
                s.append(decimal(*max).as_str());
                s.append(")");
                s
            },
            MatcherError::InvalidRegex { id, detail } => {
                let mut s = String::from_str("Invalid regex in pattern ");
                s.append(id.as_str());
                s.append(": ");
                s.append(detail.as_str());
                s
            },
            MatcherError::InvalidFancyRegex { id, detail } => {
                let mut s = String::from_str("Invalid fancy-regex in pattern ");
                s.append(id.as_str());
                s.append(": ");
                s.append(detail.as_str());
                s
            },
            MatcherError::FileTooLarge { size, max } => {
                let mut s = String::from_str("File too large: ");
                s.append(decimal_u64(*size).as_str());
                s.append(" bytes (max ");
                s.append(decimal_u64(*max).as_str());
                s.append(")");
                s
            },
        }
    }
}

/// The length of a text in bytes, in UTF-8.
pub open spec fn byte_len(s: Seq<char>) -> int {
    vstd::utf8::encode_utf8(s).len() as int
}

/// What is wrong with pattern `i`, the checks taken in order: its id is
/// taken; its kind is the reserved one; its expression is too long; its
/// expression does not compile.
pub open spec fn pattern_fault(patterns: Seq<PatternView>, i: int, limits: MatcherLimits) -> Option<
    Fault,
> {
    let p = patterns[i];
    if id_taken(patterns, i) {
        Some(Fault::DuplicateId { id: p.id })
    } else {
        match p.kind {
            PatternKind::Ast => Some(Fault::AstUnsupported { id: p.id }),
            PatternKind::Regex => if byte_len(p.pattern) > limits.max_regex_length {
                Some(
                    Fault::RegexTooLong {
                        id: p.id,
                        length: byte_len(p.pattern),
                        max: limits.max_regex_length as int,
                    },
                )
            } else if !regex_compiles(p.pattern) {
                Some(Fault::InvalidRegex { id: p.id })
            } else {
                None
            },
            PatternKind::FancyRegex => if byte_len(p.pattern) > limits.max_regex_length {
                Some(
                    Fault::FancyRegexTooLong {
                        id: p.id,
                        length: byte_len(p.pattern),
                        max: limits.max_regex_length as int,
                    },
                )
            } else if !fancy_compiles(p.pattern) {
                Some(Fault::InvalidFancyRegex { id: p.id })
            } else {
                None
            },
            PatternKind::Literal => None,
        }
    }
}

/// The fault of the first faulty pattern from index `from` on.
pub open spec fn first_fault(patterns: Seq<PatternView>, from: int, limits: MatcherLimits) -> Option<
    Fault,
>
    decreases patterns.len() - from,
{
    if from < 0 || from >= patterns.len() {
        None
    } else {
        match pattern_fault(patterns, from, limits) {
            Some(fault) => Some(fault),
            None => first_fault(patterns, from + 1, limits),
        }
    }
}

/// Why a matcher refuses a library, if it does: the library holds too many
/// patterns, or else the first faulty pattern decides.
pub open spec fn library_fault(patterns: Seq<PatternView>, limits: MatcherLimits) -> Option<Fault> {
    if patterns.len() > limits.max_patterns {
        Some(
            Fault::TooManyPatterns { count: patterns.len() as int, max: limits.max_patterns as int },
        )
    } else {
        first_fault(patterns, 0, limits)
    }
}

/// A library without fault has pairwise distinct ids and no reserved kind.
pub proof fn lemma_accepted_library(patterns: Seq<PatternView>, limits: MatcherLimits)
    requires
        library_fault(patterns, limits) is None,
    ensures
        ids_distinct(patterns),
        patterns.len() <= limits.max_patterns,
        forall|i: int| 0 <= i < patterns.len() ==> (#[trigger] patterns[i]).kind != PatternKind::Ast,
        forall|i: int|
            0 <= i < patterns.len() && (#[trigger] patterns[i]).kind == PatternKind::Regex
                ==> regex_compiles(patterns[i].pattern),
{
    assert forall|i: int| 0 <= i < patterns.len() implies pattern_fault(patterns, i, limits)
        is None by {
        lemma_no_fault_from(patterns, 0, i, limits);
    }
    assert forall|i: int, j: int| 0 <= i < j < patterns.len() implies (#[trigger] patterns[i]).id != (
    #[trigger] patterns[j]).id by {
        assert(pattern_fault(patterns, j, limits) is None);
        if patterns[i].id == patterns[j].id {
            assert(id_taken(patterns, j));
        }
    }
    assert forall|i: int| 0 <= i < patterns.len() implies (#[trigger] patterns[i]).kind
        != PatternKind::Ast by {
        assert(pattern_fault(patterns, i, limits) is None);
    }
    assert forall|i: int|
        0 <= i < patterns.len() && (#[trigger] patterns[i]).kind
            == PatternKind::Regex implies regex_compiles(patterns[i].pattern) by {
        assert(pattern_fault(patterns, i, limits) is None);
    }
}

/// Where no pattern from `from` on is faulty, pattern `i` is not.
pub proof fn lemma_no_fault_from(patterns: Seq<PatternView>, from: int, i: int, limits: MatcherLimits)
    requires
        0 <= from <= i < patterns.len(),
        first_fault(patterns, from, limits) is None,
    ensures
        pattern_fault(patterns, i, limits) is None,
    decreases i - from,
{
    if from < i {
        lemma_no_fault_from(patterns, from + 1, i, limits);
    }
}

/// The first `max` items of a sequence; all of it where it has no more.
pub open spec fn capped<T>(s: Seq<T>, max: int) -> Seq<T> {
    if s.len() <= max {
        s
    } else if max <= 0 {
        Seq::empty()
    } else {
        s.take(max)
    }
}

/// Capping a prefix before the rest is appended changes nothing.
pub proof fn lemma_capped_concat<T>(a: Seq<T>, b: Seq<T>, max: int)
    requires
        0 <= max,
    ensures
        capped(capped(a, max) + b, max) == capped(a + b, max),
{
    if a.len() <= max {
    } else {
        assert(capped(a, max) =~= a.take(max));
        assert((a.take(max) + b).take(max) =~= a.take(max));
        assert((a + b).take(max) =~= a.take(max));
        if max == 0 {
            assert(capped(a, max) + b =~= b);
        }
        assert(capped(capped(a, max) + b, max) =~= capped(a + b, max));
    }
}

/// Appending under the cap: a part within the cap, then the rest capped to
/// the room that is left.
pub proof fn lemma_capped_room<T>(a: Seq<T>, b: Seq<T>, max: int)
    requires
        a.len() <= max,
    ensures
        a + capped(b, max - a.len()) == capped(a + b, max),
{
    let room = max - a.len();
    if b.len() <= room {
    } else if room == 0 {
        assert(a + Seq::<T>::empty() =~= a);
        assert((a + b).take(max) =~= a);
        assert(capped(a + b, max) =~= a);
    } else {
        assert(a + b.take(room) =~= (a + b).take(max));
    }
}

/// The match that a pattern gives for a hit at byte offset `start` of line
/// `line_no`: the column is the offset plus one.
pub open spec fn hit_match(p: PatternView, line_no: int, start: int, text: Seq<char>) -> PatternMatchView {
    PatternMatchView {
        pattern_id: p.id,
        message: p.message,
        severity: p.effective_severity(),
        location: MatchLocationView { line: line_no, column: start + 1, matched_text: text },
    }
}

/// The matches for the hits of the plain engine.
pub open spec fn regex_hit_matches(p: PatternView, line_no: int, hits: Seq<(usize, Seq<char>)>) -> Seq<
    PatternMatchView,
> {
    Seq::new(hits.len(), |i: int| hit_match(p, line_no, hits[i].0 as int, hits[i].1))
}

/// The matches for the first `n` items of the backtracking engine; an item
/// that is an engine error gives none.
pub open spec fn fancy_hit_matches(
    p: PatternView,
    line_no: int,
    hits: Seq<Option<(usize, Seq<char>)>>,
    n: int,
) -> Seq<PatternMatchView>
    decreases n,
{
    if n <= 0 {
        Seq::empty()
    } else {
        match hits[n - 1] {
            Some(hit) => fancy_hit_matches(p, line_no, hits, n - 1).push(
                hit_match(p, line_no, hit.0 as int, hit.1),
            ),
            None => fancy_hit_matches(p, line_no, hits, n - 1),
        }
    }
}

/// The byte offsets at which a literal is found from `cursor` on, by a
/// forward cursor that moves past each hit.  An empty literal is found
/// nowhere.
#[verifier::opaque]
pub open spec fn literal_offsets(hay: Seq<u8>, needle: Seq<u8>, cursor: int) -> Seq<int>
    decreases hay.len() - cursor,
{
    if needle.len() == 0 || cursor < 0 || cursor >= hay.len() {
        Seq::empty()
    } else {
        match first_occurrence(hay, needle, cursor) {
            Some(at) => if cursor <= at && at + needle.len() <= hay.len() {
                seq![at] + literal_offsets(hay, needle, at + needle.len())
            } else {
                Seq::empty()
            },
            None => Seq::empty(),
        }
    }
}

/// The matches for the offsets at which a literal was found.
pub open spec fn literal_hit_matches(p: PatternView, line_no: int, offsets: Seq<int>) -> Seq<
    PatternMatchView,
> {
    Seq::new(offsets.len(), |i: int| hit_match(p, line_no, offsets[i], p.pattern))
}

/// All the matches of one pattern on one line, from left to right.
pub open spec fn pattern_line_matches(p: PatternView, line_no: int, line: Seq<char>) -> Seq<
    PatternMatchView,
> {
    match p.kind {
        PatternKind::Regex => regex_hit_matches(p, line_no, regex_find_all(p.pattern, line)),
        PatternKind::FancyRegex => {
            let hits = fancy_find_all(p.pattern, line);
            fancy_hit_matches(p, line_no, hits, hits.len() as int)
        },
        PatternKind::Literal => literal_hit_matches(
            p,
            line_no,
            literal_offsets(vstd::utf8::encode_utf8(line), vstd::utf8::encode_utf8(p.pattern), 0),
        ),
        PatternKind::Ast => Seq::empty(),
    }
}

/// The matches of the first `k` patterns on one line.
pub open spec fn line_matches_upto(
    patterns: Seq<PatternView>,
    k: int,
    line_no: int,
    line: Seq<char>,
) -> Seq<PatternMatchView>
    decreases k,
{
    if k <= 0 {
        Seq::empty()
    } else {
        line_matches_upto(patterns, k - 1, line_no, line) + pattern_line_matches(
            patterns[k - 1],
            line_no,
            line,
        )
    }
}

/// The matches of all patterns on one line, in library order.
pub open spec fn line_matches(patterns: Seq<PatternView>, line_no: int, line: Seq<char>) -> Seq<
    PatternMatchView,
> {
    line_matches_upto(patterns, patterns.len() as int, line_no, line)
}

/// The matches on the first `n` lines.
pub open spec fn text_matches_upto(patterns: Seq<PatternView>, lines: Seq<Seq<char>>, n: int) -> Seq<
    PatternMatchView,
>
    decreases n,
{
    if n <= 0 {
        Seq::empty()
    } else {
        text_matches_upto(patterns, lines, n - 1) + line_matches(patterns, n, lines[n - 1])
    }
}

/// All the matches of the patterns in a text, in scan order, without a cap.
pub open spec fn syntactic_matches(patterns: Seq<PatternView>, text: Seq<char>) -> Seq<
    PatternMatchView,
> {
    let lines = split_lines(text);
    text_matches_upto(patterns, lines, lines.len() as int)
}

/// The severity that a word names, whatever its case; `Info` for any other
/// word.
pub open spec fn decoded_severity(word: Seq<char>) -> Severity {
    let w = lower_ascii(word);
    if w == "critical"@ {
        Severity::Critical
    } else if w == "high"@ {
        Severity::High
    } else if w == "medium"@ {
        Severity::Medium
    } else if w == "low"@ {
        Severity::Low
    } else {
        Severity::Info
    }
}

/// Reads the severity that a word names.
pub fn semantic_severity(severity: &str) -> (r: Severity)
    ensures
        r == decoded_severity(severity@),
{
    let w = lowered(severity);
    if same_text(w.as_str(), "critical") {
        Severity::Critical
    } else if same_text(w.as_str(), "high") {
        Severity::High
    } else if same_text(w.as_str(), "medium") {
        Severity::Medium
    } else if same_text(w.as_str(), "low") {
        Severity::Low
    } else {
        Severity::Info
    }
}

/// A finding of the semantic analysis as a match: at column 1 of its line,
/// with its signal as the matched text.
pub open spec fn finding_match(f: FindingView) -> PatternMatchView {
    PatternMatchView {
        pattern_id: f.finding_id,
        message: f.message,
        severity: decoded_severity(f.severity),
        location: MatchLocationView { line: f.line_no as int, column: 1, matched_text: f.signal },
    }
}

/// The findings of the semantic analysis as matches.
pub open spec fn finding_matches(findings: Seq<FindingView>) -> Seq<PatternMatchView> {
    Seq::new(findings.len(), |i: int| finding_match(findings[i]))
}

/// What a scan gives, by layers.  Without the semantic analysis: the
/// syntactic matches, capped.  With it: the syntactic matches followed by
/// the findings of the analysis, capped, then calibrated, then without
/// duplicates and without what a hard mitigation guard clears.
pub open spec fn scanned(
    patterns: Seq<PatternView>,
    max_matches: usize,
    semantic: bool,
    text: Seq<char>,
) -> Seq<PatternMatchView> {
    let layer_a = syntactic_matches(patterns, text);
    if semantic {
        let all = capped(layer_a + finding_matches(scan_findings(text)), max_matches as int);
        let contexts = contexts_of(text);
        survivors(calibrated_all(all, contexts), contexts)
    } else {
        capped(layer_a, max_matches as int)
    }
}

/// A scan never gives more matches than the cap.
pub proof fn lemma_scan_capped(
    patterns: Seq<PatternView>,
    max_matches: usize,
    semantic: bool,
    text: Seq<char>,
)
    ensures
        scanned(patterns, max_matches, semantic, text).len() <= max_matches,
{
    if semantic {
        let layer_a = syntactic_matches(patterns, text);
        let all = capped(layer_a + finding_matches(scan_findings(text)), max_matches as int);
        let contexts = contexts_of(text);
        lemma_survivors_len(calibrated_all(all, contexts), all.len() as int, contexts);
    }
}

/// A scan is a function of the patterns, the cap, the mode and the text:
/// two scans of the same text by the same matcher give the same matches in
/// the same order.
pub proof fn lemma_scan_deterministic(
    patterns: Seq<PatternView>,
    max_matches: usize,
    semantic: bool,
    text: Seq<char>,
    first: Seq<PatternMatchView>,
    second: Seq<PatternMatchView>,
)
    requires
        first == scanned(patterns, max_matches, semantic, text),
        second == scanned(patterns, max_matches, semantic, text),
    ensures
        first == second,
{
}

/// Builds the match of a pattern for a hit.
pub fn match_of_hit(p: &Pattern, line_no: usize, start: usize, text: String) -> (r: PatternMatch)
    requires
        start < usize::MAX,
    ensures
        r.deep_view() == hit_match(p.deep_view(), line_no as int, start as int, text@),
{
    PatternMatch {
        pattern_id: p.id.clone(),
        message: p.message.clone(),
        severity: match p.severity {
            Some(s) => s,
            None => Severity::Info,
        },
        location: MatchLocation { line: line_no, column: start + 1, matched_text: text },
    }
}

/// Builds the matches for the hits of the plain engine, at most `room`.
pub fn matches_of_hits(p: &Pattern, line_no: usize, hits: &Vec<(usize, String)>, room: usize) -> (r:
    Vec<PatternMatch>)
    requires
        forall|i: int| 0 <= i < hits.len() ==> (#[trigger] hits[i]).0 < usize::MAX,
    ensures
        r.deep_view() == capped(
            regex_hit_matches(p.deep_view(), line_no as int, hits.deep_view()),
            room as int,
        ),
{
    let ghost all = regex_hit_matches(p.deep_view(), line_no as int, hits.deep_view());
    let mut out: Vec<PatternMatch> = Vec::new();
    let mut i: usize = 0;
    while i < hits.len() && i < room
        invariant
            i <= hits.len(),
            i <= room,
            all == regex_hit_matches(p.deep_view(), line_no as int, hits.deep_view()),
            forall|k: int| 0 <= k < hits.len() ==> (#[trigger] hits[k]).0 < usize::MAX,
            out.len() == i,
            forall|k: int| 0 <= k < i ==> (#[trigger] out[k]).deep_view() == all[k],
        decreases hits.len() - i,
    {
        assert(hits.deep_view()[i as int] == (hits[i as int].0, hits[i as int].1@));
        out.push(match_of_hit(p, line_no, hits[i].0, hits[i].1.clone()));
        i += 1;
    }
    assert(out.deep_view() =~= capped(all, room as int));
    out
}

/// Builds the matches for the items of the backtracking engine, at most
/// `room`.
pub fn matches_of_fancy_hits(
    p: &Pattern,
    line_no: usize,
    hits: &Vec<Option<(usize, String)>>,
    room: usize,
) -> (r: Vec<PatternMatch>)
    requires
        forall|i: int|
            0 <= i < hits.len() ==> ((#[trigger] hits[i]) matches Some(hit) ==> hit.0 < usize::MAX),
    ensures
        r.deep_view() == capped(
            fancy_hit_matches(p.deep_view(), line_no as int, hits.deep_view(), hits.len() as int),
            room as int,
        ),
{
    let ghost spec_hits = hits.deep_view();
    let ghost pv = p.deep_view();
    let mut out: Vec<PatternMatch> = Vec::new();
    let mut i: usize = 0;
    while i < hits.len()
        invariant
            i <= hits.len(),
            spec_hits == hits.deep_view(),
            pv == p.deep_view(),
            forall|k: int|
                0 <= k < hits.len() ==> ((#[trigger] hits[k]) matches Some(hit) ==> hit.0
                    < usize::MAX),
            out.deep_view() == capped(
                fancy_hit_matches(pv, line_no as int, spec_hits, i as int),
                room as int,
            ),
        decreases hits.len() - i,
    {
        let ghost sofar = fancy_hit_matches(pv, line_no as int, spec_hits, i as int);
        match &hits[i] {
            Some(hit) => {
                assert(spec_hits[i as int] == Some((hit.0, hit.1@)));
                if out.len() < room {
                    let ghost before = out.deep_view();
                    out.push(match_of_hit(p, line_no, hit.0, hit.1.clone()));
                    proof {
                        let m = hit_match(pv, line_no as int, hit.0 as int, hit.1@);
                        assert(before == sofar);
                        assert(out.deep_view() =~= sofar.push(m));
                    }
                } else {
                    proof {
                        let m = hit_match(pv, line_no as int, hit.0 as int, hit.1@);
                        assert(sofar.len() >= room);
                        assert(capped(sofar.push(m), room as int) =~= capped(sofar, room as int));
                    }
                }
            },
            None => {
                assert(spec_hits[i as int] is None);
            },
        }
        i += 1;
    }
    out
}

/// Offsets as integers.
pub open spec fn offsets_view(offsets: Seq<usize>) -> Seq<int> {
    Seq::new(offsets.len(), |i: int| offsets[i] as int)
}

/// The cursor moves past a hit.
pub proof fn lemma_literal_hit(hay: Seq<u8>, needle: Seq<u8>, cursor: int, at: int)
    requires
        needle.len() > 0,
        0 <= cursor < hay.len(),
        first_occurrence(hay, needle, cursor) == Some(at),
        cursor <= at,
        at + needle.len() <= hay.len(),
    ensures
        literal_offsets(hay, needle, cursor) == seq![at] + literal_offsets(
            hay,
            needle,
            at + needle.len(),
        ),
{
    reveal(literal_offsets);
}

/// Where nothing more is found, the cursor stops.
pub proof fn lemma_literal_end(hay: Seq<u8>, needle: Seq<u8>, cursor: int)
    requires
        cursor >= hay.len() || first_occurrence(hay, needle, cursor) is None,
    ensures
        literal_offsets(hay, needle, cursor) == Seq::<int>::empty(),
{
    reveal(literal_offsets);
}

/// Finds the offsets of a literal in a line by a forward cursor, at most
/// `room` of them.
pub fn find_literal_offsets(hay: &[u8], needle: &[u8], room: usize) -> (r: Vec<usize>)
    ensures
        offsets_view(r@) == capped(literal_offsets(hay@, needle@, 0), room as int),
        forall|i: int| 0 <= i < r.len() ==> (#[trigger] r[i]) < usize::MAX,
{
    let ghost total = literal_offsets(hay@, needle@, 0);
    let mut out: Vec<usize> = Vec::new();
    if needle.len() == 0 {
        proof {
            reveal(literal_offsets);
        }
        assert(offsets_view(out@) =~= capped(total, room as int));
        return out;
    }
    let mut cursor: usize = 0;
    assert(offsets_view(out@) + total =~= total);
    while cursor < hay.len() && out.len() < room
        invariant
            needle@.len() > 0,
            cursor <= hay@.len(),
            offsets_view(out@) + literal_offsets(hay@, needle@, cursor as int) == total,
            out.len() <= room,
            forall|i: int| 0 <= i < out.len() ==> (#[trigger] out[i]) < usize::MAX,
        decreases hay@.len() - cursor,
    {
        let ghost done = offsets_view(out@);
        let found = find_bytes(hay, needle, cursor);
        match found {
            Some(at) => {
                out.push(at);
                proof {
                    lemma_literal_hit(hay@, needle@, cursor as int, at as int);
                    let rest = literal_offsets(hay@, needle@, at + needle@.len());
                    assert(offsets_view(out@) =~= done.push(at as int));
                    assert(done + (seq![at as int] + rest) =~= done.push(at as int) + rest);
                }
                cursor = at + needle.len();
            },
            None => {
                proof {
                    lemma_literal_end(hay@, needle@, cursor as int);
                    lemma_literal_end(hay@, needle@, hay@.len() as int);
                }
                cursor = hay.len();
            },
        }
    }
    proof {
        let done = offsets_view(out@);
        let rest = literal_offsets(hay@, needle@, cursor as int);
        if cursor >= hay.len() {
            lemma_literal_end(hay@, needle@, cursor as int);
            assert(done + Seq::<int>::empty() =~= done);
        } else {
            assert((done + rest).take(room as int) =~= done);
        }
    }
    out
}

/// Builds the matches of a literal pattern for the offsets at which it was
/// found.
pub fn matches_of_offsets(p: &Pattern, line_no: usize, offsets: &Vec<usize>) -> (r: Vec<PatternMatch>)
    requires
        forall|i: int| 0 <= i < offsets.len() ==> (#[trigger] offsets[i]) < usize::MAX,
    ensures
        r.deep_view() == literal_hit_matches(
            p.deep_view(),
            line_no as int,
            offsets_view(offsets@),
        ),
{
    let ghost all = literal_hit_matches(
        p.deep_view(),
        line_no as int,
        offsets_view(offsets@),
    );
    let mut out: Vec<PatternMatch> = Vec::new();
    let mut i: usize = 0;
    while i < offsets.len()
        invariant
            i <= offsets.len(),
            all == literal_hit_matches(
                p.deep_view(),
                line_no as int,
                offsets_view(offsets@),
            ),
            forall|k: int| 0 <= k < offsets.len() ==> (#[trigger] offsets[k]) < usize::MAX,
            out.len() == i,
            forall|k: int| 0 <= k < i ==> (#[trigger] out[k]).deep_view() == all[k],
        decreases offsets.len() - i,
    {
        out.push(match_of_hit(p, line_no, offsets[i], p.pattern.clone()));
        i += 1;
    }
    assert(out.deep_view() =~= all);
    out
}

/// Finds a literal in a line by a forward cursor and builds the matches, at
/// most `room`.
pub fn literal_matches(p: &Pattern, line_no: usize, line: &str, room: usize) -> (r: Vec<PatternMatch>)
    ensures
        r.deep_view() == capped(
            literal_hit_matches(
                p.deep_view(),
                line_no as int,
                literal_offsets(
                    vstd::utf8::encode_utf8(line@),
                    vstd::utf8::encode_utf8(p.pattern@),
                    0,
                ),
            ),
            room as int,
        ),
{
    let hay = line.as_bytes();
    let needle = p.pattern.as_str().as_bytes();
    let offsets = find_literal_offsets(hay, needle, room);
    let found = matches_of_offsets(p, line_no, &offsets);
    proof {
        let total = literal_offsets(hay@, needle@, 0);
        let all = literal_hit_matches(p.deep_view(), line_no as int, total);
        assert(found.deep_view() =~= capped(all, room as int));
    }
    found
}

/// A validated library with its expressions compiled: the matcher.  It is
/// built once and never changes; one matcher serves any number of scans.
pub struct PatternMatcher {
    patterns: Vec<Pattern>,
    /// For each pattern of kind `Regex`, at its index, its compiled form.
    compiled_regex: Vec<Option<regex::Regex>>,
    /// For each pattern of kind `FancyRegex`, at its index, its compiled
    /// form.
    compiled_fancy_regex: Vec<Option<fancy_regex::Regex>>,
    /// The fixed shapes of the semantic analysis.
    grammar: Grammar,
    limits: MatcherLimits,
    semantic_enabled: bool,
}

/// Whether the two caches hold, for the first `n` patterns, the compiled
/// form of every expression.
pub open spec fn caches_cover(
    patterns: Seq<Pattern>,
    plain: Seq<Option<regex::Regex>>,
    fancy: Seq<Option<fancy_regex::Regex>>,
    n: int,
) -> bool {
    &&& forall|i: int|
        0 <= i < n && (#[trigger] patterns[i]).kind == PatternKind::Regex ==> plain[i] is Some
            && regex_source(plain[i]->0) == patterns[i].pattern@
    &&& forall|i: int|
        0 <= i < n && (#[trigger] patterns[i]).kind == PatternKind::FancyRegex ==> fancy[i] is Some
            && fancy_source(fancy[i]->0) == patterns[i].pattern@
}

impl PatternMatcher {
    #[verifier::type_invariant]
    spec fn well_formed(self) -> bool {
        &&& self.compiled_regex.len() == self.patterns.len()
        &&& self.compiled_fancy_regex.len() == self.patterns.len()
        &&& caches_cover(
            self.patterns@,
            self.compiled_regex@,
            self.compiled_fancy_regex@,
            self.patterns.len() as int,
        )
        &&& library_fault(self.patterns.deep_view(), self.limits) is None
    }

    /// The patterns of the matcher, in library order.
    pub closed spec fn patterns(&self) -> Seq<PatternView> {
        self.patterns.deep_view()
    }

    /// The bounds that the matcher keeps.
    pub closed spec fn limits(&self) -> MatcherLimits {
        self.limits
    }

    /// Whether scans run the semantic analysis.
    pub closed spec fn semantic(&self) -> bool {
        self.semantic_enabled
    }

    /// Builds a matcher with the default bounds.
    pub fn new(library: PatternLibrary) -> (r: Result<PatternMatcher, MatcherError>)
        ensures
            match r {
                Ok(m) => library_fault(library.deep_view().patterns, default_matcher_limits())
                    is None && m.patterns() == library.deep_view().patterns && m.limits()
                    == default_matcher_limits() && !m.semantic() && ids_distinct(m.patterns()),
                Err(e) => library_fault(library.deep_view().patterns, default_matcher_limits())
                    == Some(e@),
            },
    {
        let limits = MatcherLimits::default();
        PatternMatcher::new_with_limits(library, limits)
    }

    /// Validates a library and compiles its expressions.  The library is
    /// accepted exactly if it has no fault; a refusal names the first
    /// fault.  The ids of an accepted library are pairwise distinct.
    #[verifier::loop_isolation(false)]
    pub fn new_with_limits(library: PatternLibrary, limits: MatcherLimits) -> (r: Result<
        PatternMatcher,
        MatcherError,
    >)
        ensures
            match r {
                Ok(m) => library_fault(library.deep_view().patterns, limits) is None
                    && m.patterns() == library.deep_view().patterns && m.limits() == limits
                    && !m.semantic() && ids_distinct(m.patterns()),
                Err(e) => library_fault(library.deep_view().patterns, limits) == Some(e@),
            },
    {
        let patterns = library.patterns;
        let ghost pv = patterns.deep_view();
        if patterns.len() > limits.max_patterns {
            return Err(
                MatcherError::TooManyPatterns { count: patterns.len(), max: limits.max_patterns },
            );
        }
        let mut compiled_regex: Vec<Option<regex::Regex>> = Vec::new();
        let mut compiled_fancy_regex: Vec<Option<fancy_regex::Regex>> = Vec::new();
        let mut i: usize = 0;
        while i < patterns.len()
            invariant
                pv == patterns.deep_view(),
                patterns.len() <= limits.max_patterns,
                i <= patterns.len(),
                compiled_regex.len() == i,
                compiled_fancy_regex.len() == i,
                caches_cover(patterns@, compiled_regex@, compiled_fancy_regex@, i as int),
                first_fault(pv, 0, limits) == first_fault(pv, i as int, limits),
            decreases patterns.len() - i,
        {
            let pattern = &patterns[i];
            assert(pv[i as int] == pattern.deep_view());
            if id_used(&patterns, i) {
                return Err(MatcherError::DuplicateId { id: pattern.id.clone() });
            }
            let ghost plain_before = compiled_regex@;
            let ghost fancy_before = compiled_fancy_regex@;
            match pattern.kind {
                PatternKind::Ast => {
                    return Err(MatcherError::AstUnsupported { id: pattern.id.clone() });
                },
                PatternKind::Regex => {
                    let length = pattern.pattern.as_str().as_bytes().len();
                    if length > limits.max_regex_length {
                        return Err(
                            MatcherError::RegexTooLong {
                                id: pattern.id.clone(),
                                length,
                                max: limits.max_regex_length,
                            },
                        );
                    }
                    match compile(pattern.pattern.as_str()) {
                        Ok(re) => {
                            compiled_regex.push(Some(re));
                            compiled_fancy_regex.push(None);
                        },
                        Err(e) => {
                            return Err(
                                MatcherError::InvalidRegex {
                                    id: pattern.id.clone(),
                                    detail: error_text(&e),
                                },
                            );
                        },
                    }
                },
                PatternKind::FancyRegex => {
                    let length = pattern.pattern.as_str().as_bytes().len();
                    if length > limits.max_regex_length {
                        return Err(
                            MatcherError::FancyRegexTooLong {
                                id: pattern.id.clone(),
                                length,
                                max: limits.max_regex_length,
                            },
                        );
                    }
                    match compile_fancy(pattern.pattern.as_str()) {
                        Ok(re) => {
                            compiled_regex.push(None);
                            compiled_fancy_regex.push(Some(re));
                        },
                        Err(e) => {
                            return Err(
                                MatcherError::InvalidFancyRegex {
                                    id: pattern.id.clone(),
                                    detail: fancy_error_text(&e),
                                },
                            );
                        },
                    }
                },
                PatternKind::Literal => {
                    compiled_regex.push(None);
                    compiled_fancy_regex.push(None);
                },
            }
            proof {
                assert(pattern_fault(pv, i as int, limits) is None);
                assert forall|k: int|
                    0 <= k < i implies compiled_regex@[k] == plain_before[k]
                    && compiled_fancy_regex@[k] == fancy_before[k] by {}
            }
            i += 1;
        }
        proof {
            lemma_accepted_library(pv, limits);
        }
        Ok(
            PatternMatcher {
                patterns,
                compiled_regex,
                compiled_fancy_regex,
                grammar: Grammar::new(),
                limits,
                semantic_enabled: false,
            },
        )
    }

    /// Turns the semantic analysis on or off for the scans of this matcher.
    pub fn with_semantic(self, enabled: bool) -> (r: PatternMatcher)
        ensures
            r.patterns() == self.patterns(),
            r.limits() == self.limits(),
            r.semantic() == enabled,
    {
        proof {
            use_type_invariant(&self);
        }
        PatternMatcher {
            patterns: self.patterns,
            compiled_regex: self.compiled_regex,
            compiled_fancy_regex: self.compiled_fancy_regex,
            grammar: self.grammar,
            limits: self.limits,
            semantic_enabled: enabled,
        }
    }

    /// The matches of pattern `k` on one line, at most `room`.
    fn scan_pattern(&self, k: usize, line_no: usize, line: &str, room: usize) -> (r: Vec<PatternMatch>)
        requires
            k < self.patterns().len(),
        ensures
            r.deep_view() == capped(
                pattern_line_matches(self.patterns()[k as int], line_no as int, line@),
                room as int,
            ),
    {
        proof {
            use_type_invariant(self);
        }
        let pattern = &self.patterns[k];
        assert(self.patterns()[k as int] == pattern.deep_view());
        match pattern.kind {
            PatternKind::Regex => {
                match &self.compiled_regex[k] {
                    Some(re) => {
                        let hits = find_all(re, line);
                        matches_of_hits(pattern, line_no, &hits, room)
                    },
                    None => Vec::new(),
                }
            },
            PatternKind::FancyRegex => {
                match &self.compiled_fancy_regex[k] {
                    Some(re) => {
                        let hits = find_all_fancy(re, line);
                        matches_of_fancy_hits(pattern, line_no, &hits, room)
                    },
                    None => Vec::new(),
                }
            },
            PatternKind::Literal => literal_matches(pattern, line_no, line, room),
            PatternKind::Ast => Vec::new(),
        }
    }

    /// The matches of all patterns on one line, at most `room`.
    fn scan_line(&self, line_no: usize, line: &str, room: usize) -> (r: Vec<PatternMatch>)
        ensures
            r.deep_view() == capped(line_matches(self.patterns(), line_no as int, line@), room as int),
    {
        proof {
            use_type_invariant(self);
        }
        let ghost pv = self.patterns();
        let n = self.patterns.len();
        let mut out: Vec<PatternMatch> = Vec::new();
        let mut k: usize = 0;
        while k < n && out.len() < room
            invariant
                pv == self.patterns(),
                n == pv.len(),
                k <= n,
                out.len() <= room,
                out.deep_view() == capped(
                    line_matches_upto(pv, k as int, line_no as int, line@),
                    room as int,
                ),
            decreases n - k,
        {
            let ghost sofar = line_matches_upto(pv, k as int, line_no as int, line@);
            let ghost more = pattern_line_matches(pv[k as int], line_no as int, line@);
            let ghost before = out.deep_view();
            let mut found = self.scan_pattern(k, line_no, line, room - out.len());
            out.append(&mut found);
            proof {
                assert(out.deep_view() =~= before + capped(more, room - before.len()));
                lemma_capped_room(before, more, room as int);
                lemma_capped_concat(sofar, more, room as int);
            }
            k += 1;
        }
        proof {
            lemma_line_cap(pv, k as int, n as int, line_no as int, line@, room as int);
        }
        out
    }

    /// Scans a text for the patterns of the matcher and, where the semantic
    /// analysis is on, weighs the matches against it.
    pub fn scan_text(&self, text: &str) -> (r: Vec<PatternMatch>)
        ensures
            r.deep_view() == scanned(
                self.patterns(),
                self.limits().max_matches,
                self.semantic(),
                text@,
            ),
            r.len() <= self.limits().max_matches,
    {
        proof {
            use_type_invariant(self);
        }
        let ghost pv = self.patterns();
        let max = self.limits.max_matches;
        let lines = lines_of(text);
        let ghost spec_lines = lines.deep_view();
        let mut matches: Vec<PatternMatch> = Vec::new();
        let mut i: usize = 0;
        while i < lines.len() && matches.len() < max
            invariant
                pv == self.patterns(),
                spec_lines == lines.deep_view(),
                i <= lines.len(),
                matches.len() <= max,
                matches.deep_view() == capped(text_matches_upto(pv, spec_lines, i as int), max as int),
            decreases lines.len() - i,
        {
            let ghost sofar = text_matches_upto(pv, spec_lines, i as int);
            let ghost more = line_matches(pv, i + 1, spec_lines[i as int]);
            let ghost before = matches.deep_view();
            let mut found = self.scan_line(i + 1, lines[i].as_str(), max - matches.len());
            matches.append(&mut found);
            proof {
                assert(matches.deep_view() =~= before + capped(more, max - before.len()));
                lemma_capped_room(before, more, max as int);
                lemma_capped_concat(sofar, more, max as int);
            }
            i += 1;
        }
        proof {
            lemma_text_cap(pv, spec_lines, i as int, lines.len() as int, max as int);
            lemma_scan_capped(pv, max, self.semantic_enabled, text@);
        }
        if self.semantic_enabled {
            let ghost layer_a = syntactic_matches(pv, text@);
            let findings = two_pass_scan_with(&self.grammar, text);
            let ghost fs = findings.deep_view();
            let ghost extra = finding_matches(fs);
            let ghost base = matches.deep_view();
            let mut k: usize = 0;
            while k < findings.len() && matches.len() < max
                invariant
                    fs == findings.deep_view(),
                    extra == finding_matches(fs),
                    base == capped(layer_a, max as int),
                    k <= findings.len(),
                    matches.len() <= max,
                    matches.deep_view() == capped(base + extra.take(k as int), max as int),
                decreases findings.len() - k,
            {
                let f = &findings[k];
                assert(fs[k as int] == f.deep_view());
                let ghost before = matches.deep_view();
                matches.push(
                    PatternMatch {
                        pattern_id: f.finding_id.clone(),
                        message: f.message.clone(),
                        severity: semantic_severity(f.severity.as_str()),
                        location: MatchLocation {
                            line: f.line_no,
                            column: 1,
                            matched_text: f.signal.clone(),
                        },
                    },
                );
                proof {
                    assert(before =~= base + extra.take(k as int));
                    assert(matches.deep_view() =~= before.push(extra[k as int]));
                    assert(base + extra.take(k + 1) =~= (base + extra.take(k as int)).push(
                        extra[k as int],
                    ));
                }
                k += 1;
            }
            proof {
                let sofar = base + extra.take(k as int);
                if k < findings.len() {
                    assert(sofar.len() >= max);
                    assert((base + extra).take(max as int) =~= sofar.take(max as int));
                } else {
                    assert(extra.take(k as int) =~= extra);
                }
                assert(matches.deep_view() =~= capped(base + extra, max as int));
                lemma_capped_concat(layer_a, extra, max as int);
            }
            calibrate_pattern_matches_with(&self.grammar, text, &mut matches);
            dedup_and_filter_pattern_matches_with(&self.grammar, text, &mut matches);
        }
        matches
    }

    /// Whether a file of the given size may be scanned: it may exactly if it
    /// has no more bytes than the bound.
    pub fn check_file_size(&self, size: u64) -> (r: Result<(), MatcherError>)
        ensures
            match r {
                Ok(_) => size <= self.limits().max_file_size,
                Err(e) => size > self.limits().max_file_size && e@ == (Fault::FileTooLarge {
                    size: size as int,
                    max: self.limits().max_file_size as int,
                }),
            },
    {
        if size > self.limits.max_file_size {
            Err(MatcherError::FileTooLarge { size, max: self.limits.max_file_size })
        } else {
            Ok(())
        }
    }
}

/// Once the cap is reached within a line, further patterns add nothing.
pub proof fn lemma_line_cap(
    patterns: Seq<PatternView>,
    k: int,
    n: int,
    line_no: int,
    line: Seq<char>,
    max: int,
)
    requires
        0 <= k <= n,
        0 <= max,
        k == n || line_matches_upto(patterns, k, line_no, line).len() >= max,
    ensures
        capped(line_matches_upto(patterns, n, line_no, line), max) == capped(
            line_matches_upto(patterns, k, line_no, line),
            max,
        ),
    decreases n - k,
{
    if k < n {
        lemma_line_cap(patterns, k, n - 1, line_no, line, max);
        let a = line_matches_upto(patterns, n - 1, line_no, line);
        let b = pattern_line_matches(patterns[n - 1], line_no, line);
        lemma_capped_concat(a, b, max);
        let c = capped(line_matches_upto(patterns, k, line_no, line), max);
        assert(c.len() == max);
        assert(capped(c + b, max) =~= c);
    }
}

/// Once the cap is reached, further lines add nothing.
pub proof fn lemma_text_cap(
    patterns: Seq<PatternView>,
    lines: Seq<Seq<char>>,
    i: int,
    n: int,
    max: int,
)
    requires
        0 <= i <= n,
        0 <= max,
        i == n || text_matches_upto(patterns, lines, i).len() >= max,
    ensures
        capped(text_matches_upto(patterns, lines, n), max) == capped(
            text_matches_upto(patterns, lines, i),
            max,
        ),
    decreases n - i,
{
    if i < n {
        lemma_text_cap(patterns, lines, i, n - 1, max);
        let a = text_matches_upto(patterns, lines, n - 1);
        let b = line_matches(patterns, n, lines[n - 1]);
        lemma_capped_concat(a, b, max);
        let c = capped(text_matches_upto(patterns, lines, i), max);
        assert(c.len() == max);
        assert(capped(c + b, max) =~= c);
    }
}

} // verus!
