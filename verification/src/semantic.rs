//! The two-pass semantic analysis of a circuit source, and the passes that
//! weigh the matches of the pattern matcher against it.

use vstd::prelude::*;
use vstd::string::*;
use crate::checks::{
    append_findings, scan_template, template_findings, FindingView,
};
use crate::context::{
    collect_template_constraint_context, context_for, contexts_of, find_template_context,
    is_hard_mitigated, is_mitigated_signal, judged_signal, signal_of_match,
    ContextView, TemplateConstraintContext, HEURISTIC_ID, UNCONSTRAINED_ID,
};
use crate::grammar::Grammar;
use crate::lexer::{strip_comments_preserve_lines, without_comments};
use crate::template::{split_into_templates, templates_of};
use crate::text::{decimal, decimal_digits, same_text, unicode_uppercase, uppercased};
use crate::types::{MatchLocation, PatternMatch, PatternMatchView};

pub use crate::checks::SemanticFinding;
pub use crate::collect::{AssignKind, SignalAssignment};

verus! {

pub const UA_HEAD: &'static str =
    "Unconstrained assignment operator (<--) detected; semantic context shows '";

pub const UA_LOCAL_TAIL: &'static str =
    "' is constrained shortly after assignment in the same template (likely witness-hint pattern). Keep under manual review.";

pub const SWC_HEAD: &'static str =
    "Signal assigned without immediate constraint; semantic context shows '";

pub const SWC_LOCAL_TAIL: &'static str =
    "' is constrained shortly after assignment in the same template (likely witness-hint pattern).";

pub const REVIEW_TAIL: &'static str =
    "' participates in constraints in the same template. Manual review required.";

pub const NO_ISSUES: &'static str = "[semantic] No issues found.\n";

pub const REPORT_HEAD: &'static str = "[semantic][";

pub const REPORT_LINE: &'static str = "][line ";

pub const REPORT_ID: &'static str = "] ";

pub const REPORT_ARROW: &'static str = "\n  \u{2192} ";

pub const REPORT_END: &'static str = "\n";

/// The findings of the first `n` templates.
pub open spec fn findings_upto(templates: Seq<Seq<(usize, Seq<char>)>>, n: int) -> Seq<FindingView>
    decreases n,
{
    if n <= 0 {
        Seq::empty()
    } else {
        findings_upto(templates, n - 1) + template_findings(templates[n - 1])
    }
}

/// The findings of a source text: comments are taken out, the text is split
/// into its templates, and each template gives its findings from its own
/// lines alone, in template order.
pub open spec fn scan_findings(source: Seq<char>) -> Seq<FindingView> {
    let templates = templates_of(without_comments(source));
    findings_upto(templates, templates.len() as int)
}

/// Templates are judged one by one: the findings of templates side by side
/// are the findings of each, so that nothing in one template reaches the
/// findings of another.
pub proof fn lemma_templates_isolated(
    a: Seq<Seq<(usize, Seq<char>)>>,
    b: Seq<Seq<(usize, Seq<char>)>>,
)
    ensures
        findings_upto(a + b, (a + b).len() as int) == findings_upto(a, a.len() as int)
            + findings_upto(b, b.len() as int),
    decreases b.len(),
{
    let fa = findings_upto(a, a.len() as int);
    if b.len() == 0 {
        assert(a + b =~= a);
        assert(fa + Seq::<FindingView>::empty() =~= fa);
    } else {
        let front = b.drop_last();
        lemma_templates_isolated(a, front);
        lemma_findings_prefix(a + b, a + front, (a + front).len() as int);
        lemma_findings_prefix(b, front, front.len() as int);
        assert((a + b)[(a + b).len() - 1] == b.last());
        let fb = findings_upto(front, front.len() as int);
        assert((fa + fb) + template_findings(b.last()) =~= fa + (fb + template_findings(b.last())));
    }
}

/// The findings of the first `n` templates do not depend on what follows.
pub proof fn lemma_findings_prefix(
    long: Seq<Seq<(usize, Seq<char>)>>,
    short: Seq<Seq<(usize, Seq<char>)>>,
    n: int,
)
    requires
        0 <= n <= short.len() <= long.len(),
        forall|i: int| 0 <= i < short.len() ==> short[i] == long[i],
    ensures
        findings_upto(long, n) == findings_upto(short, n),
    decreases n,
{
    if n > 0 {
        lemma_findings_prefix(long, short, n - 1);
    }
}

/// Runs the two-pass semantic scan on the source of one file.
pub fn two_pass_scan(source: &str) -> (r: Vec<SemanticFinding>)
    ensures
        r.deep_view() == scan_findings(source@),
{
    let grammar = Grammar::new();
    two_pass_scan_with(&grammar, source)
}

/// Runs the two-pass semantic scan with shapes that are compiled already.
pub fn two_pass_scan_with(grammar: &Grammar, source: &str) -> (r: Vec<SemanticFinding>)
    ensures
        r.deep_view() == scan_findings(source@),
{
    let stripped = strip_comments_preserve_lines(source);
    let templates = split_into_templates(grammar, stripped.as_str());
    let ghost spec_templates = templates.deep_view();
    let mut findings: Vec<SemanticFinding> = Vec::new();
    let mut i: usize = 0;
    while i < templates.len()
        invariant
            spec_templates == templates.deep_view(),
            i <= templates.len(),
            findings.deep_view() == findings_upto(spec_templates, i as int),
        decreases templates.len() - i,
    {
        assert(spec_templates[i as int] == templates[i as int].lines.deep_view());
        let found = scan_template(grammar, &templates[i].lines);
        append_findings(&mut findings, found);
        i += 1;
    }
    findings
}

/// The message that calibration gives a match about a signal: that the
/// signal takes part in constraints of its template, or, where it is
/// constrained shortly after its assignment, that this looks like a witness
/// hint.
pub open spec fn calibrated_message(id: Seq<char>, signal: Seq<char>, locally: bool) -> Seq<char> {
    if id == UNCONSTRAINED_ID@ {
        UA_HEAD@ + signal + (if locally {
            UA_LOCAL_TAIL@
        } else {
            REVIEW_TAIL@
        })
    } else {
        SWC_HEAD@ + signal + (if locally {
            SWC_LOCAL_TAIL@
        } else {
            REVIEW_TAIL@
        })
    }
}

/// A match after calibration, given the signal it is about.  The message
/// changes where the template that holds the line constrains the signal;
/// nothing else ever changes.
pub open spec fn calibrated_with(
    m: PatternMatchView,
    signal: Option<Seq<char>>,
    contexts: Seq<ContextView>,
) -> PatternMatchView {
    match signal {
        Some(s) => match context_for(contexts, m.location.line) {
            Some(ctx) => if ctx.constrained_signals.contains(s) {
                PatternMatchView {
                    message: calibrated_message(
                        m.pattern_id,
                        s,
                        ctx.locally_constrained_signals.contains(s),
                    ),
                    ..m
                }
            } else {
                m
            },
            None => m,
        },
        None => m,
    }
}

/// A match after calibration.
pub open spec fn calibrated(m: PatternMatchView, contexts: Seq<ContextView>) -> PatternMatchView {
    calibrated_with(m, judged_signal(m), contexts)
}

/// A list of matches after calibration.
pub open spec fn calibrated_all(matches: Seq<PatternMatchView>, contexts: Seq<ContextView>) -> Seq<
    PatternMatchView,
> {
    Seq::new(matches.len(), |i: int| calibrated(matches[i], contexts))
}

/// Calibrates one match, given the signal it is about.
pub fn calibrate_match(
    m: &PatternMatch,
    signal: &Option<String>,
    contexts: &Vec<TemplateConstraintContext>,
) -> (r: PatternMatch)
    ensures
        r.deep_view() == calibrated_with(m.deep_view(), signal.deep_view(), contexts.deep_view()),
{
    match signal {
        Some(s) => match find_template_context(contexts, m.location.line) {
            Some(ctx) => {
                if ctx.constrained_signals.contains(s.as_str()) {
                    let locally = ctx.locally_constrained_signals.contains(s.as_str());
                    let mut message;
                    if same_text(m.pattern_id.as_str(), UNCONSTRAINED_ID) {
                        message = String::from_str(UA_HEAD);
                        message.append(s.as_str());
                        if locally {
                            message.append(UA_LOCAL_TAIL);
                        } else {
                            message.append(REVIEW_TAIL);
                        }
                    } else {
                        message = String::from_str(SWC_HEAD);
                        message.append(s.as_str());
                        if locally {
                            message.append(SWC_LOCAL_TAIL);
                        } else {
                            message.append(REVIEW_TAIL);
                        }
                    }
                    PatternMatch {
                        pattern_id: m.pattern_id.clone(),
                        message,
                        severity: m.severity,
                        location: MatchLocation {
                            line: m.location.line,
                            column: m.location.column,
                            matched_text: m.location.matched_text.clone(),
                        },
                    }
                } else {
                    m.duplicate()
                }
            },
            None => m.duplicate(),
        },
        None => m.duplicate(),
    }
}

/// Enriches the messages of syntax-level matches with what the templates
/// say of their signals.  Severities, ids and locations stay as they are.
pub fn calibrate_pattern_matches(source: &str, matches: &mut Vec<PatternMatch>)
    ensures
        final(matches).deep_view() == calibrated_all(old(matches).deep_view(), contexts_of(source@)),
{
    if matches.len() == 0 {
        assert(matches.deep_view() =~= calibrated_all(matches.deep_view(), contexts_of(source@)));
        return ;
    }
    let grammar = Grammar::new();
    calibrate_pattern_matches_with(&grammar, source, matches);
}

/// Calibrates with shapes that are compiled already.
pub fn calibrate_pattern_matches_with(
    grammar: &Grammar,
    source: &str,
    matches: &mut Vec<PatternMatch>,
)
    ensures
        final(matches).deep_view() == calibrated_all(old(matches).deep_view(), contexts_of(source@)),
{
    let ghost before = matches.deep_view();
    if matches.len() == 0 {
        assert(matches.deep_view() =~= calibrated_all(before, contexts_of(source@)));
        return ;
    }
    let contexts = collect_template_constraint_context(grammar, source);
    let mut out: Vec<PatternMatch> = Vec::new();
    let mut i: usize = 0;
    while i < matches.len()
        invariant
            before == matches.deep_view(),
            contexts.deep_view() == contexts_of(source@),
            i <= matches.len(),
            out.len() == i,
            forall|k: int|
                0 <= k < i ==> (#[trigger] out[k]).deep_view() == calibrated(
                    before[k],
                    contexts_of(source@),
                ),
        decreases matches.len() - i,
    {
        let m = &matches[i];
        assert(before[i as int] == m.deep_view());
        let signal = signal_of_match(grammar, m);
        let calibrated_match = calibrate_match(m, &signal, &contexts);
        out.push(calibrated_match);
        i += 1;
    }
    assert(out.deep_view() =~= calibrated_all(before, contexts_of(source@)));
    *matches = out;
}

/// Whether two matches have the same fingerprint: id, line, column and
/// matched text.
pub open spec fn same_key(a: PatternMatchView, b: PatternMatchView) -> bool {
    a.pattern_id == b.pattern_id && a.location.line == b.location.line && a.location.column
        == b.location.column && a.location.matched_text == b.location.matched_text
}

/// Whether an earlier match of the list has the fingerprint of match `i`.
pub open spec fn seen_before(matches: Seq<PatternMatchView>, i: int) -> bool {
    exists|j: int| 0 <= j < i && same_key(#[trigger] matches[j], matches[i])
}

/// Whether a match reports, as an unconstrained assignment, the signal on
/// the line.
pub open spec fn reports_unconstrained(m: PatternMatchView, line: int, signal: Seq<char>) -> bool {
    m.pattern_id == UNCONSTRAINED_ID@ && m.location.line == line && judged_signal(m) == Some(
        signal,
    )
}

/// Whether match `i` is a heuristic match that an unconstrained-assignment
/// match of the list makes redundant: both are about the same signal on the
/// same line.
pub open spec fn is_shadowed(matches: Seq<PatternMatchView>, i: int) -> bool {
    matches[i].pattern_id == HEURISTIC_ID@ && match judged_signal(matches[i]) {
        Some(signal) => exists|j: int|
            0 <= j < matches.len() && reports_unconstrained(
                #[trigger] matches[j],
                matches[i].location.line,
                signal,
            ),
        None => false,
    }
}

/// Whether match `i` stays: it is no exact duplicate of an earlier match,
/// it is not shadowed, and it is not hard-mitigated.
pub open spec fn survives(
    matches: Seq<PatternMatchView>,
    i: int,
    contexts: Seq<ContextView>,
) -> bool {
    !seen_before(matches, i) && !is_shadowed(matches, i) && !is_hard_mitigated(
        matches[i],
        contexts,
    )
}

/// Of the first `n` matches, those that stay.
pub open spec fn survivors_upto(
    matches: Seq<PatternMatchView>,
    n: int,
    contexts: Seq<ContextView>,
) -> Seq<PatternMatchView>
    decreases n,
{
    if n <= 0 {
        Seq::empty()
    } else if survives(matches, n - 1, contexts) {
        survivors_upto(matches, n - 1, contexts).push(matches[n - 1])
    } else {
        survivors_upto(matches, n - 1, contexts)
    }
}

/// The matches that stay, in their order.
pub open spec fn survivors(matches: Seq<PatternMatchView>, contexts: Seq<ContextView>) -> Seq<
    PatternMatchView,
> {
    survivors_upto(matches, matches.len() as int, contexts)
}

/// Whether two matches have the same fingerprint.
pub fn keys_agree(a: &PatternMatch, b: &PatternMatch) -> (r: bool)
    ensures
        r == same_key(a.deep_view(), b.deep_view()),
{
    a.location.line == b.location.line && a.location.column == b.location.column && same_text(
        a.pattern_id.as_str(),
        b.pattern_id.as_str(),
    ) && same_text(a.location.matched_text.as_str(), b.location.matched_text.as_str())
}

/// The signals that the matches are about, one entry for each match.
pub fn signals_of_matches(grammar: &Grammar, matches: &Vec<PatternMatch>) -> (r: Vec<
    Option<String>,
>)
    ensures
        r.len() == matches.len(),
        forall|i: int|
            0 <= i < r.len() ==> (#[trigger] r[i]).deep_view() == judged_signal(
                matches[i].deep_view(),
            ),
{
    let mut out: Vec<Option<String>> = Vec::new();
    let mut i: usize = 0;
    while i < matches.len()
        invariant
            i <= matches.len(),
            out.len() == i,
            forall|k: int|
                0 <= k < i ==> (#[trigger] out[k]).deep_view() == judged_signal(
                    matches[k].deep_view(),
                ),
        decreases matches.len() - i,
    {
        out.push(signal_of_match(grammar, &matches[i]));
        i += 1;
    }
    out
}

/// Whether an earlier match has the fingerprint of match `i`.
#[verifier::loop_isolation(false)]
pub fn was_seen(matches: &Vec<PatternMatch>, i: usize) -> (b: bool)
    requires
        i < matches.len(),
    ensures
        b == seen_before(matches.deep_view(), i as int),
{
    let ghost ms = matches.deep_view();
    assert(ms[i as int] == matches[i as int].deep_view());
    let mut j: usize = 0;
    while j < i
        invariant
            j <= i,
            forall|k: int| 0 <= k < j ==> !same_key(#[trigger] ms[k], ms[i as int]),
        decreases i - j,
    {
        assert(ms[j as int] == matches[j as int].deep_view());
        if keys_agree(&matches[j], &matches[i]) {
            return true;
        }
        j += 1;
    }
    false
}

/// Whether match `i` is shadowed, given the signals that the matches are
/// about.
#[verifier::loop_isolation(false)]
pub fn shadowed(matches: &Vec<PatternMatch>, signals: &Vec<Option<String>>, i: usize) -> (b: bool)
    requires
        i < matches.len(),
        signals.len() == matches.len(),
        forall|k: int|
            0 <= k < signals.len() ==> (#[trigger] signals[k]).deep_view() == judged_signal(
                matches[k].deep_view(),
            ),
    ensures
        b == is_shadowed(matches.deep_view(), i as int),
{
    let ghost ms = matches.deep_view();
    assert(ms[i as int] == matches[i as int].deep_view());
    if !same_text(matches[i].pattern_id.as_str(), HEURISTIC_ID) {
        return false;
    }
    let signal = match &signals[i] {
        Some(s) => s,
        None => {
            return false;
        },
    };
    let line = matches[i].location.line;
    let mut j: usize = 0;
    while j < matches.len()
        invariant
            j <= matches.len(),
            forall|k: int|
                0 <= k < j ==> !reports_unconstrained(#[trigger] ms[k], line as int, signal@),
        decreases matches.len() - j,
    {
        assert(ms[j as int] == matches[j as int].deep_view());
        if matches[j].location.line == line && same_text(
            matches[j].pattern_id.as_str(),
            UNCONSTRAINED_ID,
        ) {
            match &signals[j] {
                Some(other) => {
                    if same_text(other.as_str(), signal.as_str()) {
                        assert(reports_unconstrained(ms[j as int], line as int, signal@));
                        return true;
                    }
                },
                None => {},
            }
        }
        j += 1;
    }
    false
}

/// Removes exact duplicates, heuristic matches that an
/// unconstrained-assignment match on the same line and signal makes
/// redundant, and matches that a hard mitigation guard clears.  What stays
/// keeps its order; of equal matches the first stays.
pub fn dedup_and_filter_pattern_matches(source: &str, matches: &mut Vec<PatternMatch>)
    ensures
        final(matches).deep_view() == survivors(old(matches).deep_view(), contexts_of(source@)),
{
    if matches.len() == 0 {
        return ;
    }
    let grammar = Grammar::new();
    dedup_and_filter_pattern_matches_with(&grammar, source, matches);
}

/// Filters with shapes that are compiled already.
pub fn dedup_and_filter_pattern_matches_with(
    grammar: &Grammar,
    source: &str,
    matches: &mut Vec<PatternMatch>,
)
    ensures
        final(matches).deep_view() == survivors(old(matches).deep_view(), contexts_of(source@)),
{
    let ghost before = matches.deep_view();
    if matches.len() == 0 {
        return ;
    }
    let contexts = collect_template_constraint_context(grammar, source);
    let signals = signals_of_matches(grammar, matches);
    let mut out: Vec<PatternMatch> = Vec::new();
    let mut i: usize = 0;
    while i < matches.len()
        invariant
            before == matches.deep_view(),
            contexts.deep_view() == contexts_of(source@),
            signals.len() == matches.len(),
            forall|k: int|
                0 <= k < signals.len() ==> (#[trigger] signals[k]).deep_view() == judged_signal(
                    matches[k].deep_view(),
                ),
            i <= matches.len(),
            out.deep_view() == survivors_upto(before, i as int, contexts_of(source@)),
        decreases matches.len() - i,
    {
        let m = &matches[i];
        assert(before[i as int] == m.deep_view());
        if !was_seen(matches, i) && !shadowed(matches, &signals, i) && !is_mitigated_signal(
            &signals[i],
            m.location.line,
            &contexts,
        ) {
            let ghost kept = out.deep_view();
            out.push(m.duplicate());
            assert(out.deep_view() =~= kept.push(before[i as int]));
        }
        i += 1;
    }
    *matches = out;
}

/// Calibration looks only at what it leaves unchanged: the id, the line and
/// the matched text.  So a calibrated match is calibrated to itself.
pub proof fn lemma_calibrated_fixed(m: PatternMatchView, contexts: Seq<ContextView>)
    ensures
        calibrated(calibrated(m, contexts), contexts) == calibrated(m, contexts),
        calibrated(m, contexts).pattern_id == m.pattern_id,
        calibrated(m, contexts).severity == m.severity,
        calibrated(m, contexts).location == m.location,
{
    let c = calibrated(m, contexts);
    assert(judged_signal(c) == judged_signal(m));
}

/// Calibrating twice equals calibrating once.
pub proof fn lemma_calibration_idempotent(
    matches: Seq<PatternMatchView>,
    contexts: Seq<ContextView>,
)
    ensures
        calibrated_all(calibrated_all(matches, contexts), contexts) == calibrated_all(
            matches,
            contexts,
        ),
{
    let once = calibrated_all(matches, contexts);
    let twice = calibrated_all(once, contexts);
    assert forall|i: int| 0 <= i < once.len() implies twice[i] == once[i] by {
        lemma_calibrated_fixed(matches[i], contexts);
    }
    assert(twice =~= once);
}

/// Whether a match is one of the first `n` matches and stays.
pub open spec fn stays_among(
    matches: Seq<PatternMatchView>,
    n: int,
    contexts: Seq<ContextView>,
    x: PatternMatchView,
) -> bool {
    exists|i: int| 0 <= i < n && i < matches.len() && #[trigger] matches[i] == x && survives(
        matches,
        i,
        contexts,
    )
}

/// Every survivor is a match that stays.
pub proof fn lemma_survivors_members(
    matches: Seq<PatternMatchView>,
    n: int,
    contexts: Seq<ContextView>,
)
    requires
        0 <= n <= matches.len(),
    ensures
        forall|k: int|
            0 <= k < survivors_upto(matches, n, contexts).len() ==> stays_among(
                matches,
                n,
                contexts,
                #[trigger] survivors_upto(matches, n, contexts)[k],
            ),
    decreases n,
{
    if n > 0 {
        lemma_survivors_members(matches, n - 1, contexts);
        let before = survivors_upto(matches, n - 1, contexts);
        let now = survivors_upto(matches, n, contexts);
        assert forall|k: int| 0 <= k < now.len() implies stays_among(
            matches,
            n,
            contexts,
            #[trigger] now[k],
        ) by {
            if k < before.len() {
                assert(now[k] == before[k]);
                assert(stays_among(matches, n - 1, contexts, before[k]));
                let i = choose|i: int|
                    0 <= i < n - 1 && i < matches.len() && #[trigger] matches[i] == before[k]
                        && survives(matches, i, contexts);
                assert(matches[i] == now[k]);
            } else {
                assert(now[k] == matches[n - 1]);
            }
        }
    }
}

/// No two survivors have the same fingerprint.
pub proof fn lemma_survivors_distinct(
    matches: Seq<PatternMatchView>,
    n: int,
    contexts: Seq<ContextView>,
)
    requires
        0 <= n <= matches.len(),
    ensures
        forall|a: int, b: int|
            0 <= a < b < survivors_upto(matches, n, contexts).len() ==> !same_key(
                #[trigger] survivors_upto(matches, n, contexts)[a],
                #[trigger] survivors_upto(matches, n, contexts)[b],
            ),
    decreases n,
{
    if n > 0 {
        lemma_survivors_distinct(matches, n - 1, contexts);
        lemma_survivors_members(matches, n - 1, contexts);
        let before = survivors_upto(matches, n - 1, contexts);
        let now = survivors_upto(matches, n, contexts);
        assert forall|a: int, b: int| 0 <= a < b < now.len() implies !same_key(
            #[trigger] now[a],
            #[trigger] now[b],
        ) by {
            if b < before.len() {
                assert(now[a] == before[a] && now[b] == before[b]);
            } else {
                assert(now[b] == matches[n - 1]);
                assert(now[a] == before[a]);
                assert(stays_among(matches, n - 1, contexts, before[a]));
                let i = choose|i: int|
                    0 <= i < n - 1 && i < matches.len() && #[trigger] matches[i] == before[a]
                        && survives(matches, i, contexts);
                assert(survives(matches, n - 1, contexts));
                if same_key(now[a], now[b]) {
                    assert(same_key(matches[i], matches[n - 1]));
                    assert(seen_before(matches, n - 1));
                }
            }
        }
    }
}

/// Where every match of a list stays, the list is its own list of survivors.
pub proof fn lemma_survivors_fixed(
    matches: Seq<PatternMatchView>,
    n: int,
    contexts: Seq<ContextView>,
)
    requires
        0 <= n <= matches.len(),
        forall|k: int| 0 <= k < matches.len() ==> survives(matches, k, contexts),
    ensures
        survivors_upto(matches, n, contexts) == matches.take(n),
    decreases n,
{
    if n > 0 {
        lemma_survivors_fixed(matches, n - 1, contexts);
        assert(matches.take(n - 1).push(matches[n - 1]) =~= matches.take(n));
    } else {
        assert(matches.take(0) =~= Seq::<PatternMatchView>::empty());
    }
}

/// Running the duplicate and mitigation filter twice equals running it once.
pub proof fn lemma_dedup_idempotent(matches: Seq<PatternMatchView>, contexts: Seq<ContextView>)
    ensures
        survivors(survivors(matches, contexts), contexts) == survivors(matches, contexts),
{
    let n = matches.len() as int;
    let kept = survivors(matches, contexts);
    lemma_survivors_members(matches, n, contexts);
    lemma_survivors_distinct(matches, n, contexts);
    assert forall|k: int| 0 <= k < kept.len() implies survives(kept, k, contexts) by {
        assert(stays_among(matches, n, contexts, kept[k]));
        let i = choose|i: int|
            0 <= i < n && i < matches.len() && #[trigger] matches[i] == kept[k] && survives(
                matches,
                i,
                contexts,
            );
        if seen_before(kept, k) {
            let j = choose|j: int| 0 <= j < k && same_key(#[trigger] kept[j], kept[k]);
            assert(!same_key(kept[j], kept[k]));
        }
        if is_shadowed(kept, k) {
            let signal = judged_signal(kept[k])->0;
            let j = choose|j: int|
                0 <= j < kept.len() && reports_unconstrained(
                    #[trigger] kept[j],
                    kept[k].location.line,
                    signal,
                );
            assert(stays_among(matches, n, contexts, kept[j]));
            let ij = choose|ij: int|
                0 <= ij < n && ij < matches.len() && #[trigger] matches[ij] == kept[j] && survives(
                    matches,
                    ij,
                    contexts,
                );
            assert(reports_unconstrained(matches[ij], matches[i].location.line, signal));
            assert(is_shadowed(matches, i));
        }
    }
    lemma_survivors_fixed(kept, kept.len() as int, contexts);
    assert(kept.take(kept.len() as int) =~= kept);
}

/// The matches that stay are matches of the list, so there are no more of
/// them.
pub proof fn lemma_survivors_len(
    matches: Seq<PatternMatchView>,
    n: int,
    contexts: Seq<ContextView>,
)
    requires
        0 <= n <= matches.len(),
    ensures
        survivors_upto(matches, n, contexts).len() <= n,
    decreases n,
{
    if n > 0 {
        lemma_survivors_len(matches, n - 1, contexts);
    }
}

/// One finding as the report shows it.
pub open spec fn finding_text(f: FindingView) -> Seq<char> {
    REPORT_HEAD@ + unicode_uppercase(f.severity) + REPORT_LINE@ + decimal_digits(f.line_no as nat)
        + REPORT_ID@ + f.finding_id + REPORT_ARROW@ + f.message + REPORT_END@
}

/// The first `n` findings as the report shows them.
pub open spec fn report_upto(findings: Seq<FindingView>, n: int) -> Seq<char>
    decreases n,
{
    if n <= 0 {
        Seq::empty()
    } else {
        report_upto(findings, n - 1) + finding_text(findings[n - 1])
    }
}

/// The report of a list of findings.
pub open spec fn report_of(findings: Seq<FindingView>) -> Seq<char> {
    if findings.len() == 0 {
        NO_ISSUES@
    } else {
        report_upto(findings, findings.len() as int)
    }
}

/// Formats the findings as a report, one entry each, or says that there are
/// none.
pub fn format_findings(findings: &Vec<SemanticFinding>) -> (r: String)
    ensures
        r@ == report_of(findings.deep_view()),
{
    if findings.len() == 0 {
        return String::from_str(NO_ISSUES);
    }
    let ghost fs = findings.deep_view();
    let mut out = String::new();
    let mut i: usize = 0;
    while i < findings.len()
        invariant
            fs == findings.deep_view(),
            i <= findings.len(),
            out@ == report_upto(fs, i as int),
        decreases findings.len() - i,
    {
        let f = &findings[i];
        assert(fs[i as int] == f.deep_view());
        let ghost before = out@;
        let severity = uppercased(f.severity.as_str());
        let number = decimal(f.line_no);
        let mut entry = String::from_str(REPORT_HEAD);
        entry.append(severity.as_str());
        entry.append(REPORT_LINE);
        entry.append(number.as_str());
        entry.append(REPORT_ID);
        entry.append(f.finding_id.as_str());
        entry.append(REPORT_ARROW);
        entry.append(f.message.as_str());
        entry.append(REPORT_END);
        out.append(entry.as_str());
        i += 1;
    }
    out
}

} // verus!
