//! Second pass of the semantic analysis: the findings that one template
//! gives on its own.

use vstd::prelude::*;
use vstd::string::*;
use crate::collect::{
    collect_assignments, collect_constraint_signal_usage,
    collect_port_wirings, assignments_of, usage_of, wirings_of, AssignKind, AssignmentView,
    PortWiring, PortWiringView, SignalAssignment,
};
use crate::engine::{captured, pattern_groups};
use crate::grammar::{Grammar, SELF_EQ, VAR_DECL};
use crate::lexer::{code_of, strip_comment};
use crate::text::{decimal, decimal_digits, same_text};
use crate::textset::TextSet;

verus! {

/// The id of the finding for a `<--` that nothing constrains.
pub const ORPHAN_ID: &'static str = "orphaned_unconstrained_assignment";

/// The id of the finding for a signal wired to several component ports.
pub const ALIASING_ID: &'static str = "component_input_aliasing";

/// The id of the finding for a constraint `x === x`.
pub const SELF_EQUALITY_ID: &'static str = "self_equality_constraint";

/// The id of the finding for a `===` on a `var`.
pub const VAR_CONSTRAINT_ID: &'static str = "constraint_on_var";

pub const SEVERITY_CRITICAL: &'static str = "critical";

pub const SEVERITY_MEDIUM: &'static str = "medium";

pub const ORPHAN_HEAD: &'static str = "CRITICAL: signal '";

pub const ORPHAN_MID: &'static str = "' assigned with <-- (unconstrained witness hint) on line ";

pub const ORPHAN_TAIL: &'static str =
    " but no corresponding <== or === found in this template. The prover can set this to any value without the verifier detecting it.";

pub const ALIASING_HEAD: &'static str = "MEDIUM: signal '";

pub const ALIASING_MID: &'static str = "' wired to multiple component ports: ";

pub const ALIASING_TAIL: &'static str =
    ". Shared signals can reduce circuit degrees of freedom \u{2014} verify this aliasing is intentional and constraints still bind all paths.";

pub const TAUTOLOGY_HEAD: &'static str = "MEDIUM: tautological constraint '";

pub const TAUTOLOGY_EQ: &'static str = " === ";

pub const TAUTOLOGY_MID: &'static str = "' on line ";

pub const TAUTOLOGY_TAIL: &'static str =
    " \u{2014} this constraint is always satisfied and does nothing. Likely a copy-paste error; verify the RHS is the intended expected value or witness signal.";

pub const VAR_HEAD: &'static str = "MEDIUM: '";

pub const VAR_TAIL: &'static str =
    " is declared as `var` (compile-time value), not a `signal`. Applying === to a var produces a trivially satisfied constraint that the verifier cannot meaningfully enforce at runtime.";

/// One finding of the semantic analysis.
#[derive(Debug, Clone)]
pub struct SemanticFinding {
    pub line_no: usize,
    pub signal: String,
    pub finding_id: String,
    pub message: String,
    pub severity: String,
}

/// The model of a `SemanticFinding`.
pub struct FindingView {
    pub line_no: usize,
    pub signal: Seq<char>,
    pub finding_id: Seq<char>,
    pub message: Seq<char>,
    pub severity: Seq<char>,
}

impl DeepView for SemanticFinding {
    type V = FindingView;

    open spec fn deep_view(&self) -> FindingView {
        FindingView {
            line_no: self.line_no,
            signal: self.signal@,
            finding_id: self.finding_id@,
            message: self.message@,
            severity: self.severity@,
        }
    }
}

/// Moves the items of `more` to the end of `out`.
pub fn append_findings(out: &mut Vec<SemanticFinding>, more: Vec<SemanticFinding>)
    ensures
        final(out).deep_view() == old(out).deep_view() + more.deep_view(),
{
    let mut more = more;
    let ghost added = more.deep_view();
    let ghost before = out.deep_view();
    out.append(&mut more);
    assert(out.deep_view() =~= before + added);
}

/// The signals that the first `n` bindings constrain.
pub open spec fn constrained_upto(assignments: Seq<AssignmentView>, n: int) -> Set<Seq<char>>
    decreases n,
{
    if n <= 0 {
        Set::empty()
    } else if assignments[n - 1].constrains() {
        constrained_upto(assignments, n - 1).insert(assignments[n - 1].signal)
    } else {
        constrained_upto(assignments, n - 1)
    }
}

/// The signals that a template binds with `<==` or with a `===` that is no
/// tautology.
pub open spec fn constrained_of(assignments: Seq<AssignmentView>) -> Set<Seq<char>> {
    constrained_upto(assignments, assignments.len() as int)
}

/// Collects the signals that a template binds with `<==` or with a `===`
/// that is no tautology.
pub fn collect_constrained_signals(assignments: &Vec<SignalAssignment>) -> (r: TextSet)
    ensures
        r@ == constrained_of(assignments.deep_view()),
{
    let ghost spec_assignments = assignments.deep_view();
    let mut out = TextSet::new();
    let mut i: usize = 0;
    while i < assignments.len()
        invariant
            spec_assignments == assignments.deep_view(),
            i <= assignments.len(),
            out@ == constrained_upto(spec_assignments, i as int),
        decreases assignments.len() - i,
    {
        let a = &assignments[i];
        assert(spec_assignments[i as int] == a.deep_view());
        if a.kind == AssignKind::Constrained || (a.kind == AssignKind::Equality
            && !a.tautological_equality) {
            out.insert(a.signal.clone());
        }
        i += 1;
    }
    out
}

/// The message of an orphan finding.
pub open spec fn orphan_message(signal: Seq<char>, line_no: usize) -> Seq<char> {
    ORPHAN_HEAD@ + signal + ORPHAN_MID@ + decimal_digits(line_no as nat) + ORPHAN_TAIL@
}

/// The finding for a `<--` that nothing constrains.
pub open spec fn orphan_finding(a: AssignmentView) -> FindingView {
    FindingView {
        line_no: a.line_no,
        signal: a.signal,
        finding_id: ORPHAN_ID@,
        message: orphan_message(a.signal, a.line_no),
        severity: SEVERITY_CRITICAL@,
    }
}

/// Whether a binding is an orphan: a `<--` whose signal no binding of the
/// template constrains and no constraint of the template mentions.
pub open spec fn is_orphan(a: AssignmentView, constrained: Set<Seq<char>>, usage: Set<Seq<char>>) -> bool {
    a.kind == AssignKind::Unconstrained && !constrained.contains(a.signal) && !usage.contains(
        a.signal,
    )
}

/// The orphan findings of the first `n` bindings.
pub open spec fn orphans_upto(
    assignments: Seq<AssignmentView>,
    n: int,
    constrained: Set<Seq<char>>,
    usage: Set<Seq<char>>,
) -> Seq<FindingView>
    decreases n,
{
    if n <= 0 {
        Seq::empty()
    } else if is_orphan(assignments[n - 1], constrained, usage) {
        orphans_upto(assignments, n - 1, constrained, usage).push(orphan_finding(assignments[n - 1]))
    } else {
        orphans_upto(assignments, n - 1, constrained, usage)
    }
}

/// The orphan findings of a template, in the order of its bindings.
pub open spec fn orphans_of(assignments: Seq<AssignmentView>, usage: Set<Seq<char>>) -> Seq<
    FindingView,
> {
    orphans_upto(assignments, assignments.len() as int, constrained_of(assignments), usage)
}

/// A binding that constrains puts its signal among the constrained ones.
pub proof fn lemma_constrained_member(assignments: Seq<AssignmentView>, n: int, j: int)
    requires
        0 <= j < n <= assignments.len(),
        assignments[j].constrains(),
    ensures
        constrained_upto(assignments, n).contains(assignments[j].signal),
    decreases n,
{
    if j < n - 1 {
        lemma_constrained_member(assignments, n - 1, j);
    }
}

/// A `<--` is no orphan where a binding of the same template constrains a
/// signal of the same name.  Names are compared without their indices, so a
/// `<==` on `x[1]` rescues a `<--` on `x[0]`.
pub proof fn lemma_constrained_is_no_orphan(
    assignments: Seq<AssignmentView>,
    i: int,
    j: int,
    usage: Set<Seq<char>>,
)
    requires
        0 <= i < assignments.len(),
        0 <= j < assignments.len(),
        assignments[j].constrains(),
        assignments[j].signal == assignments[i].signal,
    ensures
        !is_orphan(assignments[i], constrained_of(assignments), usage),
{
    lemma_constrained_member(assignments, assignments.len() as int, j);
}

/// A `<--` is no orphan where a constraint of the same template mentions
/// its signal.
pub proof fn lemma_mentioned_is_no_orphan(
    a: AssignmentView,
    constrained: Set<Seq<char>>,
    usage: Set<Seq<char>>,
)
    requires
        usage.contains(a.signal),
    ensures
        !is_orphan(a, constrained, usage),
{
}

/// Reports every `<--` whose signal is constrained nowhere in its template.
pub fn check_orphaned_unconstrained(
    assignments: &Vec<SignalAssignment>,
    constrained_usage: &TextSet,
) -> (r: Vec<SemanticFinding>)
    ensures
        r.deep_view() == orphans_of(assignments.deep_view(), constrained_usage@),
{
    let ghost spec_assignments = assignments.deep_view();
    let constrained = collect_constrained_signals(assignments);
    let mut out: Vec<SemanticFinding> = Vec::new();
    let mut i: usize = 0;
    while i < assignments.len()
        invariant
            spec_assignments == assignments.deep_view(),
            constrained@ == constrained_of(spec_assignments),
            i <= assignments.len(),
            out.deep_view() == orphans_upto(
                spec_assignments,
                i as int,
                constrained@,
                constrained_usage@,
            ),
        decreases assignments.len() - i,
    {
        let a = &assignments[i];
        assert(spec_assignments[i as int] == a.deep_view());
        if a.kind == AssignKind::Unconstrained && !constrained.contains(a.signal.as_str())
            && !constrained_usage.contains(a.signal.as_str()) {
            let number = decimal(a.line_no);
            let mut message = String::from_str(ORPHAN_HEAD);
            message.append(a.signal.as_str());
            message.append(ORPHAN_MID);
            message.append(number.as_str());
            message.append(ORPHAN_TAIL);
            let ghost before = out.deep_view();
            out.push(
                SemanticFinding {
                    line_no: a.line_no,
                    signal: a.signal.clone(),
                    finding_id: String::from_str(ORPHAN_ID),
                    message,
                    severity: String::from_str(SEVERITY_CRITICAL),
                },
            );
            assert(out.deep_view() =~= before.push(orphan_finding(a.deep_view())));
        }
        i += 1;
    }
    out
}

/// The name of the port that a wiring feeds, `component.port`.
pub open spec fn port_name(w: PortWiringView) -> Seq<char> {
    w.component + "."@ + w.port
}

/// A port as the aliasing message lists it, `component.port (line N)`.
pub open spec fn port_entry(w: PortWiringView) -> Seq<char> {
    port_name(w) + " (line "@ + decimal_digits(w.line_no as nat) + ")"@
}

/// Whether one of the first `n` wirings feeds from the signal.
pub open spec fn wired_before(wirings: Seq<PortWiringView>, n: int, signal: Seq<char>) -> bool {
    exists|j: int| 0 <= j < n && j < wirings.len() && (#[trigger] wirings[j]).signal == signal
}

/// The ports that the first `n` wirings feed from the signal, as the
/// message lists them: in order, separated by `, `.
pub open spec fn port_list_upto(wirings: Seq<PortWiringView>, n: int, signal: Seq<char>) -> Seq<
    char,
>
    decreases n,
{
    if n <= 0 {
        Seq::empty()
    } else if wirings[n - 1].signal == signal {
        if wired_before(wirings, n - 1, signal) {
            port_list_upto(wirings, n - 1, signal) + ", "@ + port_entry(wirings[n - 1])
        } else {
            port_entry(wirings[n - 1])
        }
    } else {
        port_list_upto(wirings, n - 1, signal)
    }
}

/// Whether wiring `i` is the first that feeds from its signal, and a later
/// wiring feeds another port from the same signal.
pub open spec fn is_aliased_at(wirings: Seq<PortWiringView>, i: int) -> bool {
    !wired_before(wirings, i, wirings[i].signal) && exists|k: int|
        i < k < wirings.len() && (#[trigger] wirings[k]).signal == wirings[i].signal && port_name(
            wirings[k],
        ) != port_name(wirings[i])
}

/// The message of an aliasing finding.
pub open spec fn aliasing_message(wirings: Seq<PortWiringView>, signal: Seq<char>) -> Seq<char> {
    ALIASING_HEAD@ + signal + ALIASING_MID@ + port_list_upto(
        wirings,
        wirings.len() as int,
        signal,
    ) + ALIASING_TAIL@
}

/// The finding for the signal of wiring `i`.
pub open spec fn aliasing_finding(wirings: Seq<PortWiringView>, i: int) -> FindingView {
    FindingView {
        line_no: wirings[i].line_no,
        signal: wirings[i].signal,
        finding_id: ALIASING_ID@,
        message: aliasing_message(wirings, wirings[i].signal),
        severity: SEVERITY_MEDIUM@,
    }
}

/// The aliasing findings for the signals first wired among the first `n`
/// wirings.
pub open spec fn aliasing_upto(wirings: Seq<PortWiringView>, n: int) -> Seq<FindingView>
    decreases n,
{
    if n <= 0 {
        Seq::empty()
    } else if is_aliased_at(wirings, n - 1) {
        aliasing_upto(wirings, n - 1).push(aliasing_finding(wirings, n - 1))
    } else {
        aliasing_upto(wirings, n - 1)
    }
}

/// The aliasing findings of a template: one for each signal that is wired
/// to two or more distinct ports, at the line of its first wiring, in the
/// order of those first wirings.
pub open spec fn aliasing_of(wirings: Seq<PortWiringView>) -> Seq<FindingView> {
    aliasing_upto(wirings, wirings.len() as int)
}

/// The name of the port that a wiring feeds.
pub fn port_of(w: &PortWiring) -> (r: String)
    ensures
        r@ == port_name(w.deep_view()),
{
    let mut s = w.component.clone();
    s.append(".");
    s.append(w.port.as_str());
    s
}

/// The ports that the wirings feed from the signal, as the message lists
/// them.
pub fn port_list(wirings: &Vec<PortWiring>, signal: &str) -> (r: String)
    ensures
        r@ == port_list_upto(wirings.deep_view(), wirings.len() as int, signal@),
{
    let ghost ws = wirings.deep_view();
    let mut out = String::new();
    let mut any = false;
    let mut k: usize = 0;
    while k < wirings.len()
        invariant
            ws == wirings.deep_view(),
            k <= wirings.len(),
            any == wired_before(ws, k as int, signal@),
            out@ == port_list_upto(ws, k as int, signal@),
        decreases wirings.len() - k,
    {
        let w = &wirings[k];
        assert(ws[k as int] == w.deep_view());
        if same_text(w.signal.as_str(), signal) {
            let name = port_of(w);
            let number = decimal(w.line_no);
            let mut entry = name;
            entry.append(" (line ");
            entry.append(number.as_str());
            entry.append(")");
            if any {
                out.append(", ");
                out.append(entry.as_str());
            } else {
                out = entry;
            }
            any = true;
            assert(wired_before(ws, k + 1, signal@));
        } else {
            proof {
                if wired_before(ws, k + 1, signal@) {
                    let j = choose|j: int|
                        0 <= j < k + 1 && j < ws.len() && (#[trigger] ws[j]).signal == signal@;
                    assert(j < k);
                    assert(wired_before(ws, k as int, signal@));
                }
            }
        }
        k += 1;
    }
    out
}

/// Whether wiring `i` is the first of its signal and a later wiring feeds
/// another port from that signal.
#[verifier::loop_isolation(false)]
pub fn aliased_at(wirings: &Vec<PortWiring>, i: usize) -> (b: bool)
    requires
        i < wirings.len(),
    ensures
        b == is_aliased_at(wirings.deep_view(), i as int),
{
    let ghost ws = wirings.deep_view();
    let signal = wirings[i].signal.as_str();
    assert(ws[i as int] == wirings[i as int].deep_view());
    let mut j: usize = 0;
    while j < i
        invariant
            j <= i,
            forall|jj: int| 0 <= jj < j ==> (#[trigger] ws[jj]).signal != signal@,
        decreases i - j,
    {
        assert(ws[j as int] == wirings[j as int].deep_view());
        if same_text(wirings[j].signal.as_str(), signal) {
            assert(wired_before(ws, i as int, signal@));
            return false;
        }
        j += 1;
    }
    let first = port_of(&wirings[i]);
    let mut k: usize = i + 1;
    while k < wirings.len()
        invariant
            i < k <= wirings.len(),
            forall|kk: int|
                i < kk < k ==> !((#[trigger] ws[kk]).signal == signal@ && port_name(ws[kk])
                    != port_name(ws[i as int])),
        decreases wirings.len() - k,
    {
        assert(ws[k as int] == wirings[k as int].deep_view());
        if same_text(wirings[k].signal.as_str(), signal) {
            let other = port_of(&wirings[k]);
            if !same_text(other.as_str(), first.as_str()) {
                return true;
            }
        }
        k += 1;
    }
    false
}

/// Reports every signal that is wired to two or more distinct component
/// ports, once, at its first wiring, with the list of all its ports.
pub fn check_signal_aliasing(wirings: &Vec<PortWiring>) -> (r: Vec<SemanticFinding>)
    ensures
        r.deep_view() == aliasing_of(wirings.deep_view()),
{
    let ghost ws = wirings.deep_view();
    let mut out: Vec<SemanticFinding> = Vec::new();
    let mut i: usize = 0;
    while i < wirings.len()
        invariant
            ws == wirings.deep_view(),
            i <= wirings.len(),
            out.deep_view() == aliasing_upto(ws, i as int),
        decreases wirings.len() - i,
    {
        if aliased_at(wirings, i) {
            let w = &wirings[i];
            assert(ws[i as int] == w.deep_view());
            let list = port_list(wirings, w.signal.as_str());
            let mut message = String::from_str(ALIASING_HEAD);
            message.append(w.signal.as_str());
            message.append(ALIASING_MID);
            message.append(list.as_str());
            message.append(ALIASING_TAIL);
            let ghost before = out.deep_view();
            out.push(
                SemanticFinding {
                    line_no: w.line_no,
                    signal: w.signal.clone(),
                    finding_id: String::from_str(ALIASING_ID),
                    message,
                    severity: String::from_str(SEVERITY_MEDIUM),
                },
            );
            assert(out.deep_view() =~= before.push(aliasing_finding(ws, i as int)));
        }
        i += 1;
    }
    out
}

/// The variables that the first `n` lines declare with `var`.
pub open spec fn vars_upto(lines: Seq<(usize, Seq<char>)>, n: int) -> Set<Seq<char>>
    decreases n,
{
    if n <= 0 {
        Set::empty()
    } else {
        match captured(VAR_DECL@, code_of(lines[n - 1].1), 1) {
            Some(v) => vars_upto(lines, n - 1).insert(v),
            None => vars_upto(lines, n - 1),
        }
    }
}

/// The variables that a template declares with `var`, on any of its lines.
pub open spec fn vars_of(lines: Seq<(usize, Seq<char>)>) -> Set<Seq<char>> {
    vars_upto(lines, lines.len() as int)
}

/// The message of a tautology finding.
pub open spec fn tautology_message(lhs: Seq<char>, rhs: Seq<char>, line_no: usize) -> Seq<char> {
    TAUTOLOGY_HEAD@ + lhs + TAUTOLOGY_EQ@ + rhs + TAUTOLOGY_MID@ + decimal_digits(line_no as nat)
        + TAUTOLOGY_TAIL@
}

/// The message of a finding for a constraint on a `var`.
pub open spec fn var_message(lhs: Seq<char>, line_no: usize) -> Seq<char> {
    VAR_HEAD@ + lhs + TAUTOLOGY_MID@ + decimal_digits(line_no as nat) + VAR_TAIL@
}

/// The findings that an equality line `lhs === rhs ;` gives: one where both
/// sides are the same name, and one where the left side is a `var`.
pub open spec fn equality_findings(
    line_no: usize,
    lhs: Seq<char>,
    rhs: Seq<char>,
    lhs_is_var: bool,
) -> Seq<FindingView> {
    let first = if lhs == rhs {
        seq![
            FindingView {
                line_no,
                signal: lhs,
                finding_id: SELF_EQUALITY_ID@,
                message: tautology_message(lhs, rhs, line_no),
                severity: SEVERITY_MEDIUM@,
            },
        ]
    } else {
        Seq::empty()
    };
    let second = if lhs_is_var {
        seq![
            FindingView {
                line_no,
                signal: lhs,
                finding_id: VAR_CONSTRAINT_ID@,
                message: var_message(lhs, line_no),
                severity: SEVERITY_MEDIUM@,
            },
        ]
    } else {
        Seq::empty()
    };
    first + second
}

/// The equality findings of one line.
pub open spec fn line_equality_findings(line: (usize, Seq<char>), vars: Set<Seq<char>>) -> Seq<
    FindingView,
> {
    match pattern_groups(SELF_EQ@, code_of(line.1)) {
        Some(g) => if g.len() > 2 {
            equality_findings(line.0, g[1], g[2], vars.contains(g[1]))
        } else {
            Seq::empty()
        },
        None => Seq::empty(),
    }
}

/// The equality findings of the first `n` lines.
pub open spec fn equality_findings_upto(
    lines: Seq<(usize, Seq<char>)>,
    n: int,
    vars: Set<Seq<char>>,
) -> Seq<FindingView>
    decreases n,
{
    if n <= 0 {
        Seq::empty()
    } else {
        equality_findings_upto(lines, n - 1, vars) + line_equality_findings(lines[n - 1], vars)
    }
}

/// The equality findings of a template, in line order.
pub open spec fn equality_findings_of(lines: Seq<(usize, Seq<char>)>) -> Seq<FindingView> {
    equality_findings_upto(lines, lines.len() as int, vars_of(lines))
}

/// Builds the findings that an equality line `lhs === rhs ;` gives.
pub fn findings_of_equality(line_no: usize, lhs: &str, rhs: &str, lhs_is_var: bool) -> (r: Vec<
    SemanticFinding,
>)
    ensures
        r.deep_view() == equality_findings(line_no, lhs@, rhs@, lhs_is_var),
{
    let mut out: Vec<SemanticFinding> = Vec::new();
    let number = decimal(line_no);
    if same_text(lhs, rhs) {
        let mut message = String::from_str(TAUTOLOGY_HEAD);
        message.append(lhs);
        message.append(TAUTOLOGY_EQ);
        message.append(rhs);
        message.append(TAUTOLOGY_MID);
        message.append(number.as_str());
        message.append(TAUTOLOGY_TAIL);
        out.push(
            SemanticFinding {
                line_no,
                signal: String::from_str(lhs),
                finding_id: String::from_str(SELF_EQUALITY_ID),
                message,
                severity: String::from_str(SEVERITY_MEDIUM),
            },
        );
    }
    let ghost first = out.deep_view();
    if lhs_is_var {
        let mut message = String::from_str(VAR_HEAD);
        message.append(lhs);
        message.append(TAUTOLOGY_MID);
        message.append(number.as_str());
        message.append(VAR_TAIL);
        out.push(
            SemanticFinding {
                line_no,
                signal: String::from_str(lhs),
                finding_id: String::from_str(VAR_CONSTRAINT_ID),
                message,
                severity: String::from_str(SEVERITY_MEDIUM),
            },
        );
        assert(out.deep_view() =~= first + seq![out[out.len() - 1].deep_view()]);
    } else {
        assert(out.deep_view() =~= first + Seq::<FindingView>::empty());
    }
    assert(out.deep_view() =~= equality_findings(line_no, lhs@, rhs@, lhs_is_var));
    out
}

/// Reports every tautological `x === x`, and every `===` whose left side
/// was declared by a `var` statement anywhere in the template.
pub fn check_var_equality_constraint(grammar: &Grammar, lines: &Vec<(usize, String)>) -> (r: Vec<
    SemanticFinding,
>)
    ensures
        r.deep_view() == equality_findings_of(lines.deep_view()),
{
    let ghost spec_lines = lines.deep_view();
    let mut var_names = TextSet::new();
    let mut i: usize = 0;
    while i < lines.len()
        invariant
            spec_lines == lines.deep_view(),
            i <= lines.len(),
            var_names@ == vars_upto(spec_lines, i as int),
        decreases lines.len() - i,
    {
        assert(spec_lines[i as int] == (lines[i as int].0, lines[i as int].1@));
        let code = strip_comment(lines[i].1.as_str());
        match grammar.var_decl().capture(code.as_str(), 1) {
            Some(v) => {
                var_names.insert(v);
            },
            None => {},
        }
        i += 1;
    }
    let mut out: Vec<SemanticFinding> = Vec::new();
    let mut k: usize = 0;
    while k < lines.len()
        invariant
            spec_lines == lines.deep_view(),
            var_names@ == vars_of(spec_lines),
            k <= lines.len(),
            out.deep_view() == equality_findings_upto(spec_lines, k as int, var_names@),
        decreases lines.len() - k,
    {
        assert(spec_lines[k as int] == (lines[k as int].0, lines[k as int].1@));
        let code = strip_comment(lines[k].1.as_str());
        let ghost before = out.deep_view();
        match grammar.self_eq().groups(code.as_str()) {
            Some(g) => {
                if g.len() > 2 {
                    assert(g.deep_view()[1] == g[1]@);
                    assert(g.deep_view()[2] == g[2]@);
                    let lhs_is_var = var_names.contains(g[1].as_str());
                    let found = findings_of_equality(
                        lines[k].0,
                        g[1].as_str(),
                        g[2].as_str(),
                        lhs_is_var,
                    );
                    append_findings(&mut out, found);
                } else {
                    assert(out.deep_view() =~= before + Seq::<FindingView>::empty());
                }
            },
            None => {
                assert(out.deep_view() =~= before + Seq::<FindingView>::empty());
            },
        }
        k += 1;
    }
    out
}

/// The findings of one template: its orphans, then its aliased signals,
/// then its equality findings.
pub open spec fn template_findings(lines: Seq<(usize, Seq<char>)>) -> Seq<FindingView> {
    orphans_of(assignments_of(lines), usage_of(lines)) + aliasing_of(wirings_of(lines))
        + equality_findings_of(lines)
}

/// Runs the checks on one template.
pub fn scan_template(grammar: &Grammar, lines: &Vec<(usize, String)>) -> (r: Vec<SemanticFinding>)
    ensures
        r.deep_view() == template_findings(lines.deep_view()),
{
    let assignments = collect_assignments(grammar, lines);
    let constrained_usage = collect_constraint_signal_usage(grammar, lines);
    let port_wirings = collect_port_wirings(grammar, lines);
    let mut findings = check_orphaned_unconstrained(&assignments, &constrained_usage);
    let aliasing = check_signal_aliasing(&port_wirings);
    append_findings(&mut findings, aliasing);
    let equality = check_var_equality_constraint(grammar, lines);
    append_findings(&mut findings, equality);
    findings
}

} // verus!
