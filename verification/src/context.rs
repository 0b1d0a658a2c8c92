//! What the semantic analysis knows of each template when it judges the
//! matches of the pattern matcher.

use vstd::prelude::*;
use crate::checks::{collect_constrained_signals, constrained_of};
use crate::collect::{
    assignments_of, collect_assignments, collect_constraint_signal_usage,
    collect_locally_constrained_signals, collect_non_taut_constraint_lines, constraint_lines_of,
    locally_constrained_of, usage_of,
};
use crate::engine::captured;
use crate::grammar::{Grammar, UNCONSTRAINED};
use crate::guards::{collect_hard_mitigated_signals, hard_mitigated_of};
use crate::lexer::{
    code_of, normalize_signal, normalized, strip_comment, strip_comments_preserve_lines,
    without_comments,
};
use crate::template::{split_into_templates, templates_of};
use crate::text::same_text;
use crate::textset::TextSet;
use crate::types::{PatternMatch, PatternMatchView};

verus! {

/// The id of the pattern that reports every `<--`.
pub const UNCONSTRAINED_ID: &'static str = "unconstrained_assignment";

/// The id of the pattern that reports a signal declared and assigned with
/// `<--` in one statement.
pub const HEURISTIC_ID: &'static str = "signal_without_constraint";

/// What is known of one template.
#[derive(Debug)]
pub struct TemplateConstraintContext {
    /// The number of the first line of the template.
    pub start_line: usize,
    /// The number of its last line.
    pub end_line: usize,
    /// The signals that the template constrains or mentions in a constraint.
    pub constrained_signals: TextSet,
    /// The signals constrained within the window after their `<--`.
    pub locally_constrained_signals: TextSet,
    /// The signals whose `<--` a known idiom proves safe.
    pub hard_mitigated_signals: TextSet,
}

/// The model of a `TemplateConstraintContext`.
pub struct ContextView {
    pub start_line: usize,
    pub end_line: usize,
    pub constrained_signals: Set<Seq<char>>,
    pub locally_constrained_signals: Set<Seq<char>>,
    pub hard_mitigated_signals: Set<Seq<char>>,
}

impl DeepView for TemplateConstraintContext {
    type V = ContextView;

    open spec fn deep_view(&self) -> ContextView {
        ContextView {
            start_line: self.start_line,
            end_line: self.end_line,
            constrained_signals: self.constrained_signals@,
            locally_constrained_signals: self.locally_constrained_signals@,
            hard_mitigated_signals: self.hard_mitigated_signals@,
        }
    }
}

impl ContextView {
    /// Whether a line lies in the template.
    pub open spec fn covers(self, line: int) -> bool {
        self.start_line <= line <= self.end_line
    }
}

/// What is known of a template with at least one line.
pub open spec fn context_of(lines: Seq<(usize, Seq<char>)>) -> ContextView {
    let assignments = assignments_of(lines);
    ContextView {
        start_line: lines[0].0,
        end_line: lines.last().0,
        constrained_signals: constrained_of(assignments).union(usage_of(lines)),
        locally_constrained_signals: locally_constrained_of(lines),
        hard_mitigated_signals: hard_mitigated_of(lines, assignments, constraint_lines_of(lines)),
    }
}

/// The contexts of the first `n` templates; a template without lines has
/// none.
pub open spec fn contexts_upto(templates: Seq<Seq<(usize, Seq<char>)>>, n: int) -> Seq<ContextView>
    decreases n,
{
    if n <= 0 {
        Seq::empty()
    } else if templates[n - 1].len() == 0 {
        contexts_upto(templates, n - 1)
    } else {
        contexts_upto(templates, n - 1).push(context_of(templates[n - 1]))
    }
}

/// The contexts of the templates of a source text, comments aside, in
/// order.
pub open spec fn contexts_of(source: Seq<char>) -> Seq<ContextView> {
    let templates = templates_of(without_comments(source));
    contexts_upto(templates, templates.len() as int)
}

/// Computes what is known of each template of a source text.
pub fn collect_template_constraint_context(grammar: &Grammar, source: &str) -> (r: Vec<
    TemplateConstraintContext,
>)
    ensures
        r.deep_view() == contexts_of(source@),
{
    let stripped = strip_comments_preserve_lines(source);
    let templates = split_into_templates(grammar, stripped.as_str());
    let ghost spec_templates = templates.deep_view();
    let mut contexts: Vec<TemplateConstraintContext> = Vec::new();
    let mut i: usize = 0;
    while i < templates.len()
        invariant
            spec_templates == templates.deep_view(),
            i <= templates.len(),
            contexts.deep_view() == contexts_upto(spec_templates, i as int),
        decreases templates.len() - i,
    {
        let lines = &templates[i].lines;
        assert(spec_templates[i as int] == lines.deep_view());
        if lines.len() > 0 {
            let ghost spec_lines = lines.deep_view();
            assert(spec_lines[0] == (lines[0].0, lines[0].1@));
            assert(spec_lines.last() == (lines[lines.len() - 1].0, lines[lines.len() - 1].1@));
            let start_line = lines[0].0;
            let end_line = lines[lines.len() - 1].0;
            let assignments = collect_assignments(grammar, lines);
            let mut constrained_signals = collect_constrained_signals(&assignments);
            let usage = collect_constraint_signal_usage(grammar, lines);
            constrained_signals.extend(&usage);
            let locally_constrained_signals = collect_locally_constrained_signals(grammar, lines);
            let constraint_lines = collect_non_taut_constraint_lines(grammar, lines);
            let hard_mitigated_signals = collect_hard_mitigated_signals(
                grammar,
                lines,
                &assignments,
                &constraint_lines,
            );
            let ghost before = contexts.deep_view();
            let context = TemplateConstraintContext {
                start_line,
                end_line,
                constrained_signals,
                locally_constrained_signals,
                hard_mitigated_signals,
            };
            assert(context.deep_view() == context_of(spec_lines));
            contexts.push(context);
            assert(contexts.deep_view() =~= before.push(context_of(spec_lines)));
        }
        i += 1;
    }
    contexts
}

/// The first context from index `from` on whose template holds the line.
pub open spec fn context_from(contexts: Seq<ContextView>, line: int, from: int) -> Option<
    ContextView,
>
    decreases contexts.len() - from,
{
    if from < 0 || from >= contexts.len() {
        None
    } else if contexts[from].covers(line) {
        Some(contexts[from])
    } else {
        context_from(contexts, line, from + 1)
    }
}

/// The context of the template that holds the line.
pub open spec fn context_for(contexts: Seq<ContextView>, line: int) -> Option<ContextView> {
    context_from(contexts, line, 0)
}

/// Finds the context of the template that holds the line.
#[verifier::loop_isolation(false)]
pub fn find_template_context(contexts: &Vec<TemplateConstraintContext>, line_no: usize) -> (r:
    Option<&TemplateConstraintContext>)
    ensures
        r.deep_view() == context_for(contexts.deep_view(), line_no as int),
{
    let ghost spec_contexts = contexts.deep_view();
    let mut i: usize = 0;
    while i < contexts.len()
        invariant
            i <= contexts.len(),
            context_for(spec_contexts, line_no as int) == context_from(
                spec_contexts,
                line_no as int,
                i as int,
            ),
        decreases contexts.len() - i,
    {
        assert(spec_contexts[i as int] == contexts[i as int].deep_view());
        if line_no >= contexts[i].start_line && line_no <= contexts[i].end_line {
            return Some(&contexts[i]);
        }
        i += 1;
    }
    None
}

/// The signal that a matched text assigns with `<--`, without its indices.
pub open spec fn extracted_signal(matched_text: Seq<char>) -> Option<Seq<char>> {
    match captured(UNCONSTRAINED@, code_of(matched_text), 1) {
        Some(raw) => Some(normalized(raw)),
        None => None,
    }
}

/// Reads the signal that a matched text assigns with `<--`.
pub fn extract_unconstrained_signal(grammar: &Grammar, matched_text: &str) -> (r: Option<String>)
    ensures
        r.deep_view() == extracted_signal(matched_text@),
{
    let code = strip_comment(matched_text);
    match grammar.unconstrained().capture(code.as_str(), 1) {
        Some(raw) => Some(normalize_signal(raw.as_str())),
        None => None,
    }
}

/// Whether an id is one of the two that the semantic analysis judges.
pub open spec fn is_judged_id(id: Seq<char>) -> bool {
    id == UNCONSTRAINED_ID@ || id == HEURISTIC_ID@
}

/// The signal that a match is about, where the semantic analysis judges
/// the match: its id is one of the two, and its text assigns a signal.
pub open spec fn judged_signal(m: PatternMatchView) -> Option<Seq<char>> {
    if is_judged_id(m.pattern_id) {
        extracted_signal(m.location.matched_text)
    } else {
        None
    }
}

/// Reads the signal that a match is about, where the semantic analysis
/// judges the match.
pub fn signal_of_match(grammar: &Grammar, m: &PatternMatch) -> (r: Option<String>)
    ensures
        r.deep_view() == judged_signal(m.deep_view()),
{
    if same_text(m.pattern_id.as_str(), UNCONSTRAINED_ID) || same_text(
        m.pattern_id.as_str(),
        HEURISTIC_ID,
    ) {
        extract_unconstrained_signal(grammar, m.location.matched_text.as_str())
    } else {
        None
    }
}

/// Whether a match is hard-mitigated, given the signal it is about: the
/// template that holds its line counts the signal among its hard-mitigated
/// ones.
pub open spec fn mitigated_in(
    signal: Option<Seq<char>>,
    line: int,
    contexts: Seq<ContextView>,
) -> bool {
    match signal {
        Some(s) => match context_for(contexts, line) {
            Some(ctx) => ctx.hard_mitigated_signals.contains(s),
            None => false,
        },
        None => false,
    }
}

/// Whether a match is hard-mitigated.
pub open spec fn is_hard_mitigated(m: PatternMatchView, contexts: Seq<ContextView>) -> bool {
    mitigated_in(judged_signal(m), m.location.line, contexts)
}

/// Whether a match is hard-mitigated, given the signal it is about.
pub fn is_mitigated_signal(
    signal: &Option<String>,
    line: usize,
    contexts: &Vec<TemplateConstraintContext>,
) -> (b: bool)
    ensures
        b == mitigated_in(signal.deep_view(), line as int, contexts.deep_view()),
{
    match signal {
        Some(s) => match find_template_context(contexts, line) {
            Some(ctx) => ctx.hard_mitigated_signals.contains(s.as_str()),
            None => false,
        },
        None => false,
    }
}

/// Whether a match is hard-mitigated.
pub fn is_hard_mitigated_pattern_match(
    grammar: &Grammar,
    m: &PatternMatch,
    contexts: &Vec<TemplateConstraintContext>,
) -> (b: bool)
    ensures
        b == is_hard_mitigated(m.deep_view(), contexts.deep_view()),
{
    let signal = signal_of_match(grammar, m);
    is_mitigated_signal(&signal, m.location.line, contexts)
}

} // verus!
