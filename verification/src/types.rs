//! The pattern domain model: patterns, libraries, matches and severities.
//!
//! Each type that holds text has a mathematical model, reached with
//! `deep_view()`, in which a text is a sequence of characters and a number is
//! an integer.  The contracts of the library speak of those models.

use vstd::prelude::*;
use crate::text::same_text;

verus! {

/// How serious a finding is.  The order is `Critical` > `High` > `Medium` >
/// `Low` > `Info`.
#[derive(Debug, Clone, Copy, PartialEq, Eq, Structural, Hash)]
pub enum Severity {
    Critical,
    High,
    Medium,
    Low,
    Info,
}

impl Severity {
    /// The place of a severity in the order, 0 for the most serious.
    pub open spec fn spec_rank(self) -> nat {
        match self {
            Severity::Critical => 0,
            Severity::High => 1,
            Severity::Medium => 2,
            Severity::Low => 3,
            Severity::Info => 4,
        }
    }

    /// The place of a severity in the order, 0 for the most serious.
    pub fn rank(&self) -> (r: u8)
        ensures
            r == self.spec_rank(),
    {
        match self {
            Severity::Critical => 0,
            Severity::High => 1,
            Severity::Medium => 2,
            Severity::Low => 3,
            Severity::Info => 4,
        }
    }

    /// Whether `self` is at least as serious as `other`.
    pub fn at_least(&self, other: &Severity) -> (b: bool)
        ensures
            b == (self.spec_rank() <= other.spec_rank()),
    {
        self.rank() <= other.rank()
    }

    /// The lowercase name under which a severity is written in documents.
    pub open spec fn spec_name(self) -> Seq<char> {
        match self {
            Severity::Critical => "critical"@,
            Severity::High => "high"@,
            Severity::Medium => "medium"@,
            Severity::Low => "low"@,
            Severity::Info => "info"@,
        }
    }

    /// The lowercase name under which a severity is written in documents.
    pub fn name(&self) -> (r: &'static str)
        ensures
            r@ == self.spec_name(),
    {
        match self {
            Severity::Critical => "critical",
            Severity::High => "high",
            Severity::Medium => "medium",
            Severity::Low => "low",
            Severity::Info => "info",
        }
    }

    /// The capitalised label shown in text reports.
    pub open spec fn spec_label(self) -> Seq<char> {
        match self {
            Severity::Critical => "Critical"@,
            Severity::High => "High"@,
            Severity::Medium => "Medium"@,
            Severity::Low => "Low"@,
            Severity::Info => "Info"@,
        }
    }

    /// The capitalised label shown in text reports.
    pub fn label(&self) -> (r: &'static str)
        ensures
            r@ == self.spec_label(),
    {
        match self {
            Severity::Critical => "Critical",
            Severity::High => "High",
            Severity::Medium => "Medium",
            Severity::Low => "Low",
            Severity::Info => "Info",
        }
    }
}

/// How the text of a pattern is to be read.
#[derive(Debug, Clone, Copy, PartialEq, Eq, Structural, Hash)]
pub enum PatternKind {
    /// An expression for the plain engine.
    Regex,
    /// An expression for the backtracking engine (lookaround, backreferences).
    FancyRegex,
    /// A text to be found as it stands.
    Literal,
    /// Reserved; a matcher refuses a library that holds one.
    Ast,
}

/// A single pattern definition.
#[derive(Debug, Clone)]
pub struct Pattern {
    pub id: String,
    pub kind: PatternKind,
    pub pattern: String,
    pub message: String,
    pub severity: Option<Severity>,
}

/// The model of a `Pattern`.
pub struct PatternView {
    pub id: Seq<char>,
    pub kind: PatternKind,
    pub pattern: Seq<char>,
    pub message: Seq<char>,
    pub severity: Option<Severity>,
}

impl DeepView for Pattern {
    type V = PatternView;

    open spec fn deep_view(&self) -> PatternView {
        PatternView {
            id: self.id@,
            kind: self.kind,
            pattern: self.pattern@,
            message: self.message@,
            severity: self.severity,
        }
    }
}

impl Pattern {
    /// A copy of the pattern.
    pub fn duplicate(&self) -> (r: Pattern)
        ensures
            r.deep_view() == self.deep_view(),
    {
        Pattern {
            id: self.id.clone(),
            kind: self.kind,
            pattern: self.pattern.clone(),
            message: self.message.clone(),
            severity: self.severity,
        }
    }
}

impl PatternView {
    /// The severity of the matches that the pattern gives: its own, or
    /// `Info` where it names none.
    pub open spec fn effective_severity(self) -> Severity {
        match self.severity {
            Some(s) => s,
            None => Severity::Info,
        }
    }
}

/// The sort of relation an invariant declares.
#[derive(Debug, Clone, Copy, PartialEq, Eq, Structural, Hash)]
pub enum InvariantType {
    Constraint,
    Metamorphic,
    Differential,
}

/// What an invariant expects of its relation.
#[derive(Debug, Clone, Copy, PartialEq, Eq, Structural, Hash)]
pub enum Oracle {
    MustHold,
    MustFail,
    ShouldHold,
}

/// A declared invariant.  The library carries invariants and never evaluates
/// them.
#[derive(Debug, Clone)]
pub struct Invariant {
    pub name: String,
    pub invariant_type: InvariantType,
    pub relation: String,
    pub oracle: Oracle,
    pub severity: Severity,
    pub description: String,
}

/// The model of an `Invariant`.
pub struct InvariantView {
    pub name: Seq<char>,
    pub invariant_type: InvariantType,
    pub relation: Seq<char>,
    pub oracle: Oracle,
    pub severity: Severity,
    pub description: Seq<char>,
}

impl DeepView for Invariant {
    type V = InvariantView;

    open spec fn deep_view(&self) -> InvariantView {
        InvariantView {
            name: self.name@,
            invariant_type: self.invariant_type,
            relation: self.relation@,
            oracle: self.oracle,
            severity: self.severity,
            description: self.description@,
        }
    }
}

impl Invariant {
    /// A copy of the invariant.
    pub fn duplicate(&self) -> (r: Invariant)
        ensures
            r.deep_view() == self.deep_view(),
    {
        Invariant {
            name: self.name.clone(),
            invariant_type: self.invariant_type,
            relation: self.relation.clone(),
            oracle: self.oracle,
            severity: self.severity,
            description: self.description.clone(),
        }
    }
}

/// A collection of patterns and invariants, each in the order of the
/// document.
#[derive(Debug, Clone)]
pub struct PatternLibrary {
    pub patterns: Vec<Pattern>,
    pub invariants: Vec<Invariant>,
}

/// The model of a `PatternLibrary`.
pub struct PatternLibraryView {
    pub patterns: Seq<PatternView>,
    pub invariants: Seq<InvariantView>,
}

impl DeepView for PatternLibrary {
    type V = PatternLibraryView;

    open spec fn deep_view(&self) -> PatternLibraryView {
        PatternLibraryView {
            patterns: self.patterns.deep_view(),
            invariants: self.invariants.deep_view(),
        }
    }
}

/// Whether no id occurs twice among the patterns.
pub open spec fn ids_distinct(patterns: Seq<PatternView>) -> bool {
    forall|i: int, j: int|
        0 <= i < j < patterns.len() ==> (#[trigger] patterns[i]).id != (#[trigger] patterns[j]).id
}

/// Whether an earlier pattern has the id of pattern `i`.
pub open spec fn id_taken(patterns: Seq<PatternView>, i: int) -> bool {
    exists|j: int| 0 <= j < i && (#[trigger] patterns[j]).id == patterns[i].id
}

/// Whether an earlier pattern has the id of pattern `i`.
#[verifier::loop_isolation(false)]
pub fn id_used(patterns: &Vec<Pattern>, i: usize) -> (b: bool)
    requires
        i < patterns.len(),
    ensures
        b == id_taken(patterns.deep_view(), i as int),
{
    let ghost pv = patterns.deep_view();
    assert(pv[i as int] == patterns[i as int].deep_view());
    let mut j: usize = 0;
    while j < i
        invariant
            j <= i,
            forall|k: int| 0 <= k < j ==> (#[trigger] pv[k]).id != pv[i as int].id,
        decreases i - j,
    {
        assert(pv[j as int] == patterns[j as int].deep_view());
        if same_text(patterns[j].id.as_str(), patterns[i].id.as_str()) {
            return true;
        }
        j += 1;
    }
    false
}

/// The id of the first pattern from index `from` on whose id an earlier
/// pattern has.
pub open spec fn first_duplicate(patterns: Seq<PatternView>, from: int) -> Option<Seq<char>>
    decreases patterns.len() - from,
{
    if from < 0 || from >= patterns.len() {
        None
    } else if id_taken(patterns, from) {
        Some(patterns[from].id)
    } else {
        first_duplicate(patterns, from + 1)
    }
}

/// Where no pattern repeats an earlier id, the ids are pairwise distinct.
pub proof fn lemma_no_duplicate(patterns: Seq<PatternView>, from: int)
    requires
        0 <= from <= patterns.len(),
        first_duplicate(patterns, from) is None,
    ensures
        forall|i: int| from <= i < patterns.len() ==> !id_taken(patterns, i),
        from == 0 ==> ids_distinct(patterns),
    decreases patterns.len() - from,
{
    if from < patterns.len() {
        lemma_no_duplicate(patterns, from + 1);
    }
    if from == 0 {
        assert forall|i: int, j: int| 0 <= i < j < patterns.len() implies (#[trigger] patterns[i]).id != (
        #[trigger] patterns[j]).id by {
            assert(!id_taken(patterns, j));
        }
    }
}

/// Where a match was found.  Lines and columns count from 1; a column is a
/// byte offset in the line plus one.
#[derive(Debug, Clone)]
pub struct MatchLocation {
    pub line: usize,
    pub column: usize,
    pub matched_text: String,
}

/// The model of a `MatchLocation`.
pub struct MatchLocationView {
    pub line: int,
    pub column: int,
    pub matched_text: Seq<char>,
}

impl DeepView for MatchLocation {
    type V = MatchLocationView;

    open spec fn deep_view(&self) -> MatchLocationView {
        MatchLocationView {
            line: self.line as int,
            column: self.column as int,
            matched_text: self.matched_text@,
        }
    }
}

/// A single reportable item.
#[derive(Debug, Clone)]
pub struct PatternMatch {
    pub pattern_id: String,
    pub message: String,
    pub severity: Severity,
    pub location: MatchLocation,
}

/// The model of a `PatternMatch`.
pub struct PatternMatchView {
    pub pattern_id: Seq<char>,
    pub message: Seq<char>,
    pub severity: Severity,
    pub location: MatchLocationView,
}

impl DeepView for PatternMatch {
    type V = PatternMatchView;

    open spec fn deep_view(&self) -> PatternMatchView {
        PatternMatchView {
            pattern_id: self.pattern_id@,
            message: self.message@,
            severity: self.severity,
            location: self.location.deep_view(),
        }
    }
}

impl PatternMatch {
    /// A copy of the match.
    pub fn duplicate(&self) -> (r: PatternMatch)
        ensures
            r.deep_view() == self.deep_view(),
    {
        PatternMatch {
            pattern_id: self.pattern_id.clone(),
            message: self.message.clone(),
            severity: self.severity,
            location: MatchLocation {
                line: self.location.line,
                column: self.location.column,
                matched_text: self.location.matched_text.clone(),
            },
        }
    }
}

/// A copy of a list of matches.
pub fn duplicate_matches(matches: &Vec<PatternMatch>) -> (r: Vec<PatternMatch>)
    ensures
        r.deep_view() == matches.deep_view(),
{
    let mut out: Vec<PatternMatch> = Vec::new();
    let mut i: usize = 0;
    while i < matches.len()
        invariant
            i <= matches.len(),
            out.len() == i,
            forall|k: int| 0 <= k < i ==> (#[trigger] out[k]).deep_view() == matches[k].deep_view(),
        decreases matches.len() - i,
    {
        out.push(matches[i].duplicate());
        i += 1;
    }
    assert(out.deep_view() =~= matches.deep_view());
    out
}

} // verus!
