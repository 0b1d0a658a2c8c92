//! Hard mitigation: the evidence that a signal assigned with `<--` is safely
//! constrained afterwards.
//!
//! A signal is hard-mitigated if at least two anchored constraints refer to
//! it, or if one of the known safe idioms is recognised around its
//! assignment: bit decomposition, IsZero, quotient and remainder, modular
//! inverse.  A single local constraint is deliberately not enough.

use vstd::prelude::*;
use vstd::string::*;
use crate::collect::{
    mentions, word_pattern, word_shape, AssignKind, AssignmentView,
    ConstraintLine, ConstraintLineView, SignalAssignment, OP_CONSTRAINED, OP_EQUALITY,
};
use crate::engine::{capture, captured, escape, escaped, pattern_groups, Shape};
use crate::grammar::{
    Grammar, ISZERO_INV_EXPR, MODINV_K_EXPR, SIMPLE_QR_EXPR, VAR_MUTATION, ZERO_PRODUCT,
};
use crate::lexer::{
    before_char, code_of, compact, compact_line_for_match, normalize_signal, normalized,
    prefix_before, strip_comment, strip_indices, strip_spaces, unindexed, without_spaces,
};
use crate::text::{
    chars_of, contains_text, has_substring, lower_ascii, lowered, same_text, trim, trimmed,
};
use crate::textset::{lists, TextSet};

verus! {

/// What stands before the signal in the shape of its `<--` line.
pub const EXPR_HEAD: &'static str = r"^\s*";

/// What stands after the signal in the shape of its `<--` line; group 1 is
/// the assigned expression.
pub const EXPR_TAIL: &'static str = r"\s*(?:\[[^\]]+\])*\s*<--\s*(.+?)\s*;\s*$";

/// In compact form, `out<==-in*` before the inverse of an IsZero.
pub const ISZERO_OUT_HEAD: &'static str =
    r"^([A-Za-z_]\w*(?:\.[A-Za-z_]\w*)?)<==-([A-Za-z_]\w*(?:\.[A-Za-z_]\w*)?)\*";

/// In compact form, `+1;` after the inverse of an IsZero.
pub const ISZERO_OUT_TAIL: &'static str = r"\+1;$";

/// In compact form, `component.in<==` before a wired signal.
pub const IN_WIRING_HEAD: &'static str = r"^([A-Za-z_]\w*)\.in<==";

/// In compact form, the end of a wiring.
pub const IN_WIRING_TAIL: &'static str = r";$";

/// The signals that the first `n` bindings assign with `<--`.
pub open spec fn unconstrained_upto(assignments: Seq<AssignmentView>, n: int) -> Set<Seq<char>>
    decreases n,
{
    if n <= 0 {
        Set::empty()
    } else if assignments[n - 1].kind == AssignKind::Unconstrained {
        unconstrained_upto(assignments, n - 1).insert(assignments[n - 1].signal)
    } else {
        unconstrained_upto(assignments, n - 1)
    }
}

/// The signals that a template assigns with `<--`.
pub open spec fn unconstrained_signals(assignments: Seq<AssignmentView>) -> Set<Seq<char>> {
    unconstrained_upto(assignments, assignments.len() as int)
}

/// Collects the signals that a template assigns with `<--`.
pub fn collect_unconstrained_signals(assignments: &Vec<SignalAssignment>) -> (r: TextSet)
    ensures
        r@ == unconstrained_signals(assignments.deep_view()),
{
    let ghost spec_assignments = assignments.deep_view();
    let mut out = TextSet::new();
    let mut i: usize = 0;
    while i < assignments.len()
        invariant
            spec_assignments == assignments.deep_view(),
            i <= assignments.len(),
            out@ == unconstrained_upto(spec_assignments, i as int),
        decreases assignments.len() - i,
    {
        assert(spec_assignments[i as int] == assignments[i as int].deep_view());
        if assignments[i].kind == AssignKind::Unconstrained {
            out.insert(assignments[i].signal.clone());
        }
        i += 1;
    }
    out
}

/// Whether a constraint line ties a signal to something trustworthy: it
/// holds a number, or a token that is neither the signal nor another signal
/// assigned with `<--`.
pub open spec fn has_anchor(
    line: ConstraintLineView,
    signal: Seq<char>,
    unconstrained: Set<Seq<char>>,
) -> bool {
    line.has_numeric_literal || exists|t: Seq<char>|
        is_anchor_token(line.tokens, t, signal, unconstrained)
}

/// Whether a token of a constraint line anchors a signal: it is neither the
/// signal nor another signal assigned with `<--`.
pub open spec fn is_anchor_token(
    tokens: Set<Seq<char>>,
    t: Seq<char>,
    signal: Seq<char>,
    unconstrained: Set<Seq<char>>,
) -> bool {
    tokens.contains(t) && t != signal && !unconstrained.contains(t)
}

/// Whether a constraint line ties a signal to something trustworthy.
#[verifier::loop_isolation(false)]
pub fn constraint_has_anchor_for_signal(
    line: &ConstraintLine,
    signal: &str,
    unconstrained_signals: &TextSet,
) -> (b: bool)
    ensures
        b == has_anchor(line.deep_view(), signal@, unconstrained_signals@),
{
    if line.has_numeric_literal {
        return true;
    }
    let tokens = line.tokens.items();
    let mut i: usize = 0;
    while i < tokens.len()
        invariant
            i <= tokens.len(),
            lists(line.tokens@, tokens@),
            !line.has_numeric_literal,
            forall|k: int|
                0 <= k < i ==> (#[trigger] tokens[k])@ == signal@ || unconstrained_signals@.contains(
                    tokens[k]@,
                ),
        decreases tokens.len() - i,
    {
        if !same_text(tokens[i].as_str(), signal) && !unconstrained_signals.contains(
            tokens[i].as_str(),
        ) {
            assert(is_anchor_token(
                line.deep_view().tokens,
                tokens[i as int]@,
                signal@,
                unconstrained_signals@,
            ));
            return true;
        }
        i += 1;
    }
    proof {
        assert forall|t: Seq<char>|
            !is_anchor_token(line.tokens@, t, signal@, unconstrained_signals@) by {
            if line.tokens@.contains(t) {
                let k = choose|k: int| 0 <= k < tokens.len() && (#[trigger] tokens[k])@ == t;
                assert(tokens[k]@ == t);
            }
        }
    }
    false
}

/// The four spellings of the constraint that a signal is a bit.
pub open spec fn bit_forms(sig: Seq<char>) -> Seq<Seq<char>> {
    seq![
        sig + "*(1-"@ + sig + ")===0"@,
        "(1-"@ + sig + ")*"@ + sig + "===0"@,
        sig + "*("@ + sig + "-1)===0"@,
        "("@ + sig + "-1)*"@ + sig + "===0"@,
    ]
}

/// Whether a line of code says that the signal is a bit: one of
/// `s*(1-s)===0`, `(1-s)*s===0`, `s*(s-1)===0`, `(s-1)*s===0`, indices and
/// white space aside.
pub open spec fn is_binary_constraint(code: Seq<char>, signal: Seq<char>) -> bool {
    let text = without_spaces(unindexed(code));
    let forms = bit_forms(signal);
    exists|k: int| 0 <= k < 4 && has_substring(text, #[trigger] forms[k])
}

/// Whether a line of code says that the signal is a bit.
pub fn is_binary_constraint_for_signal(code: &str, signal: &str) -> (b: bool)
    ensures
        b == is_binary_constraint(code@, signal@),
{
    let no_indices = strip_indices(code);
    let text = strip_spaces(no_indices.as_str());
    let ghost forms = bit_forms(signal@);
    let mut v0 = String::from_str(signal);
    v0.append("*(1-");
    v0.append(signal);
    v0.append(")===0");
    let mut v1 = String::from_str("(1-");
    v1.append(signal);
    v1.append(")*");
    v1.append(signal);
    v1.append("===0");
    let mut v2 = String::from_str(signal);
    v2.append("*(");
    v2.append(signal);
    v2.append("-1)===0");
    let mut v3 = String::from_str("(");
    v3.append(signal);
    v3.append("-1)*");
    v3.append(signal);
    v3.append("===0");
    assert(v0@ == forms[0]);
    assert(v1@ == forms[1]);
    assert(v2@ == forms[2]);
    assert(v3@ == forms[3]);
    let b = contains_text(text.as_str(), v0.as_str()) || contains_text(text.as_str(), v1.as_str())
        || contains_text(text.as_str(), v2.as_str()) || contains_text(text.as_str(), v3.as_str());
    b
}

/// Whether a line wires the signal into what looks like a bit component: it
/// stands after the assignment, holds `<==`, mentions the signal, and its
/// lowercase text holds both `.in` and `bit`.
pub open spec fn is_bit_wiring(line: (usize, Seq<char>), signal: Seq<char>, assignment_line: usize) -> bool {
    let code = code_of(line.1);
    line.0 > assignment_line && has_substring(code, OP_CONSTRAINED@) && mentions(code, signal)
        && has_substring(lower_ascii(code), ".in"@) && has_substring(lower_ascii(code), "bit"@)
}

/// Whether some line wires the signal into a bit component.
pub open spec fn bit_wired(
    lines: Seq<(usize, Seq<char>)>,
    signal: Seq<char>,
    assignment_line: usize,
) -> bool {
    exists|i: int| 0 <= i < lines.len() && is_bit_wiring(#[trigger] lines[i], signal, assignment_line)
}

/// Whether some line wires the signal into a bit component.
pub fn has_bit_component_input_wiring(
    lines: &Vec<(usize, String)>,
    signal: &str,
    assignment_line: usize,
) -> (b: bool)
    ensures
        b == bit_wired(lines.deep_view(), signal@, assignment_line),
{
    let ghost spec_lines = lines.deep_view();
    let word = word_shape(signal);
    let mut i: usize = 0;
    while i < lines.len()
        invariant
            spec_lines == lines.deep_view(),
            word@ == word_pattern(signal@),
            i <= lines.len(),
            forall|k: int|
                0 <= k < i ==> !is_bit_wiring(#[trigger] spec_lines[k], signal@, assignment_line),
        decreases lines.len() - i,
    {
        assert(spec_lines[i as int] == (lines[i as int].0, lines[i as int].1@));
        if lines[i].0 > assignment_line {
            let code = strip_comment(lines[i].1.as_str());
            if contains_text(code.as_str(), OP_CONSTRAINED) && word.is_match(code.as_str()) {
                let lower = lowered(code.as_str());
                if contains_text(lower.as_str(), ".in") && contains_text(lower.as_str(), "bit") {
                    return true;
                }
            }
        }
        i += 1;
    }
    false
}

/// The variable that a line mutates in support of a signal: the line stands
/// after the assignment, holds no constraint operator, is a mutation, and
/// mentions the signal.
pub open spec fn supporting_var(
    line: (usize, Seq<char>),
    signal: Seq<char>,
    assignment_line: usize,
) -> Option<Seq<char>> {
    let code = code_of(line.1);
    if line.0 > assignment_line && !has_substring(code, OP_CONSTRAINED@) && !has_substring(
        code,
        OP_EQUALITY@,
    ) && mentions(code, signal) {
        captured(VAR_MUTATION@, code, 1)
    } else {
        None
    }
}

/// The supporting variables among the first `n` lines.
pub open spec fn supporting_upto(
    lines: Seq<(usize, Seq<char>)>,
    n: int,
    signal: Seq<char>,
    assignment_line: usize,
) -> Set<Seq<char>>
    decreases n,
{
    if n <= 0 {
        Set::empty()
    } else {
        match supporting_var(lines[n - 1], signal, assignment_line) {
            Some(v) => supporting_upto(lines, n - 1, signal, assignment_line).insert(v),
            None => supporting_upto(lines, n - 1, signal, assignment_line),
        }
    }
}

/// Whether a constraint line closes a recomposition through the variable:
/// it stands after the assignment, refers to the variable, and anchors it.
pub open spec fn closes_recomposition(
    line: ConstraintLineView,
    var: Seq<char>,
    assignment_line: usize,
    unconstrained: Set<Seq<char>>,
) -> bool {
    line.line_no > assignment_line && line.tokens.contains(var) && has_anchor(
        line,
        var,
        unconstrained,
    )
}

/// Whether the signal is recomposed through a variable: a variable is
/// mutated on a line that mentions the signal, and a later anchored
/// constraint refers to that variable.
pub open spec fn var_recomposed(
    lines: Seq<(usize, Seq<char>)>,
    signal: Seq<char>,
    assignment_line: usize,
    constraint_lines: Seq<ConstraintLineView>,
    unconstrained: Set<Seq<char>>,
) -> bool {
    let vars = supporting_upto(lines, lines.len() as int, signal, assignment_line);
    exists|j: int, v: Seq<char>|
        0 <= j < constraint_lines.len() && vars.contains(v) && #[trigger] closes_recomposition(
            constraint_lines[j],
            v,
            assignment_line,
            unconstrained,
        )
}

/// Whether the signal is recomposed through a variable.
#[verifier::loop_isolation(false)]
pub fn has_var_recomposition_proof(
    grammar: &Grammar,
    lines: &Vec<(usize, String)>,
    signal: &str,
    assignment_line: usize,
    constraint_lines: &Vec<ConstraintLine>,
    unconstrained_signals: &TextSet,
) -> (b: bool)
    ensures
        b == var_recomposed(
            lines.deep_view(),
            signal@,
            assignment_line,
            constraint_lines.deep_view(),
            unconstrained_signals@,
        ),
{
    let ghost spec_lines = lines.deep_view();
    let ghost spec_cls = constraint_lines.deep_view();
    let mut vars = TextSet::new();
    let word = word_shape(signal);
    let mut i: usize = 0;
    while i < lines.len()
        invariant
            spec_lines == lines.deep_view(),
            word@ == word_pattern(signal@),
            i <= lines.len(),
            vars@ == supporting_upto(spec_lines, i as int, signal@, assignment_line),
        decreases lines.len() - i,
    {
        assert(spec_lines[i as int] == (lines[i as int].0, lines[i as int].1@));
        if lines[i].0 > assignment_line {
            let code = strip_comment(lines[i].1.as_str());
            if !contains_text(code.as_str(), OP_CONSTRAINED) && !contains_text(
                code.as_str(),
                OP_EQUALITY,
            ) {
                match grammar.var_mutation().capture(code.as_str(), 1) {
                    Some(v) => {
                        if word.is_match(code.as_str()) {
                            vars.insert(v);
                        }
                    },
                    None => {},
                }
            }
        }
        i += 1;
    }
    if vars.is_empty() {
        return false;
    }
    let items = vars.items();
    let mut j: usize = 0;
    while j < constraint_lines.len()
        invariant
            spec_cls == constraint_lines.deep_view(),
            j <= constraint_lines.len(),
            lists(vars@, items@),
            forall|jj: int, v: Seq<char>|
                0 <= jj < j && vars@.contains(v) ==> !#[trigger] closes_recomposition(
                    spec_cls[jj],
                    v,
                    assignment_line,
                    unconstrained_signals@,
                ),
        decreases constraint_lines.len() - j,
    {
        let line = &constraint_lines[j];
        assert(spec_cls[j as int] == line.deep_view());
        if line.line_no > assignment_line {
            let mut k: usize = 0;
            while k < items.len()
                invariant
                    k <= items.len(),
                    lists(vars@, items@),
                    spec_cls == constraint_lines.deep_view(),
                    j < constraint_lines.len(),
                    spec_cls[j as int] == line.deep_view(),
                    line.line_no > assignment_line,
                    forall|kk: int|
                        0 <= kk < k ==> !closes_recomposition(
                            line.deep_view(),
                            (#[trigger] items[kk])@,
                            assignment_line,
                            unconstrained_signals@,
                        ),
                decreases items.len() - k,
            {
                if line.tokens.contains(items[k].as_str()) && constraint_has_anchor_for_signal(
                    line,
                    items[k].as_str(),
                    unconstrained_signals,
                ) {
                    assert(vars@.contains(items[k as int]@));
                    assert(closes_recomposition(
                        spec_cls[j as int],
                        items[k as int]@,
                        assignment_line,
                        unconstrained_signals@,
                    ));
                    return true;
                }
                k += 1;
            }
            proof {
                assert forall|v: Seq<char>| vars@.contains(v) implies !#[trigger] closes_recomposition(
                    spec_cls[j as int],
                    v,
                    assignment_line,
                    unconstrained_signals@,
                ) by {
                    let kk = choose|i: int| 0 <= i < items.len() && (#[trigger] items[i])@ == v;
                    assert(items[kk]@ == v);
                }
            }
        }
        j += 1;
    }
    false
}

/// The text of the first line from index `from` on that bears the number.
pub open spec fn line_numbered(lines: Seq<(usize, Seq<char>)>, number: usize, from: int) -> Option<
    Seq<char>,
>
    decreases lines.len() - from,
{
    if from < 0 || from >= lines.len() {
        None
    } else if lines[from].0 == number {
        Some(lines[from].1)
    } else {
        line_numbered(lines, number, from + 1)
    }
}

/// The shape of the line that assigns the signal with `<--`.
pub open spec fn assignment_pattern(signal: Seq<char>) -> Seq<char> {
    EXPR_HEAD@ + escaped(signal) + EXPR_TAIL@
}

/// The expression that a `<--` assigns: what stands between the operator
/// and the semicolon on the line of the assignment, trimmed.
pub open spec fn assigned_expr(
    lines: Seq<(usize, Seq<char>)>,
    line_no: usize,
    signal: Seq<char>,
) -> Option<Seq<char>> {
    match line_numbered(lines, line_no, 0) {
        Some(text) => match captured(assignment_pattern(signal), code_of(text), 1) {
            Some(expr) => Some(trim(expr)),
            None => None,
        },
        None => None,
    }
}

/// The expression that a `<--` assigns.
#[verifier::loop_isolation(false)]
pub fn unconstrained_assignment_expr(lines: &Vec<(usize, String)>, assignment: &SignalAssignment) -> (r:
    Option<String>)
    ensures
        r.deep_view() == assigned_expr(lines.deep_view(), assignment.line_no, assignment.signal@),
{
    let ghost spec_lines = lines.deep_view();
    let mut i: usize = 0;
    while i < lines.len()
        invariant
            spec_lines == lines.deep_view(),
            i <= lines.len(),
            line_numbered(spec_lines, assignment.line_no, 0) == line_numbered(
                spec_lines,
                assignment.line_no,
                i as int,
            ),
        decreases lines.len() - i,
    {
        assert(spec_lines[i as int] == (lines[i as int].0, lines[i as int].1@));
        if lines[i].0 == assignment.line_no {
            let code = strip_comment(lines[i].1.as_str());
            let quoted = escape(assignment.signal.as_str());
            let mut pattern = String::from_str(EXPR_HEAD);
            pattern.append(quoted.as_str());
            pattern.append(EXPR_TAIL);
            return match capture(pattern.as_str(), code.as_str(), 1) {
                Some(expr) => Some(trimmed(expr.as_str())),
                None => None,
            };
        }
        i += 1;
    }
    None
}

/// The length of the part before a character is at most that of the text.
pub proof fn lemma_before_char_len(s: Seq<char>, c: char)
    ensures
        before_char(s, c).len() <= s.len(),
        before_char(s, c).len() < s.len() ==> s[before_char(s, c).len() as int] == c,
        forall|i: int| 0 <= i < before_char(s, c).len() ==> before_char(s, c)[i] == s[i],
    decreases s.len(),
{
    if s.len() == 0 || s[0] == c {
    } else {
        lemma_before_char_len(s.skip(1), c);
        let rest = before_char(s.skip(1), c);
        assert forall|i: int| 0 <= i < before_char(s, c).len() implies before_char(s, c)[i]
            == s[i] by {
            if i > 0 {
                assert(before_char(s, c)[i] == rest[i - 1]);
                assert(s.skip(1)[i - 1] == s[i]);
            }
        }
        if rest.len() < s.skip(1).len() {
            assert(s.skip(1)[rest.len() as int] == s[rest.len() as int + 1]);
        }
    }
}

/// The component whose input port a signal names: `c` for `c.in`.  The name
/// is split at its first dot.
pub open spec fn input_component(signal: Seq<char>) -> Option<Seq<char>> {
    let component = before_char(signal, '.');
    if component.len() < signal.len() && signal.skip(component.len() as int + 1) == seq!['i', 'n'] {
        Some(component)
    } else {
        None
    }
}

/// The component whose input port a signal names.
pub fn component_from_signal_input(signal: &str) -> (r: Option<String>)
    ensures
        r.deep_view() == input_component(signal@),
{
    let component = prefix_before(signal, '.');
    let chars = chars_of(signal);
    let head = chars_of(component.as_str());
    proof {
        lemma_before_char_len(signal@, '.');
    }
    let n = chars.len();
    let h = head.len();
    if h < n && n - h == 3 && chars[h + 1] == 'i' && chars[h + 2] == 'n' {
        assert(signal@.skip(h + 1) =~= seq!['i', 'n']);
        Some(component)
    } else {
        proof {
            if h < n && signal@.skip(h + 1) == seq!['i', 'n'] {
                assert(signal@.skip(h + 1).len() == 2);
                assert(signal@.skip(h + 1)[0] == 'i');
                assert(signal@.skip(h + 1)[1] == 'n');
            }
        }
        None
    }
}

/// In compact form, the declaration of a bit-decomposing component.
pub open spec fn to_bits_declaration(component: Seq<char>) -> Seq<char> {
    "component"@ + component + "=to_bits_exact("@
}

/// Whether the template declares the component as `to_bits_exact(..)`.
pub open spec fn declares_to_bits(lines: Seq<(usize, Seq<char>)>, component: Seq<char>) -> bool {
    exists|i: int|
        0 <= i < lines.len() && has_substring(
            compact((#[trigger] lines[i]).1),
            to_bits_declaration(component),
        )
}

/// Whether the template declares the component as `to_bits_exact(..)`.
pub fn has_to_bits_component(lines: &Vec<(usize, String)>, component: &str) -> (b: bool)
    ensures
        b == declares_to_bits(lines.deep_view(), component@),
{
    let ghost spec_lines = lines.deep_view();
    let mut expected = String::from_str("component");
    expected.append(component);
    expected.append("=to_bits_exact(");
    let mut i: usize = 0;
    while i < lines.len()
        invariant
            spec_lines == lines.deep_view(),
            i <= lines.len(),
            expected@ == to_bits_declaration(component@),
            forall|k: int|
                0 <= k < i ==> !has_substring(
                    compact((#[trigger] spec_lines[k]).1),
                    to_bits_declaration(component@),
                ),
        decreases lines.len() - i,
    {
        assert(spec_lines[i as int] == (lines[i as int].0, lines[i as int].1@));
        let text = compact_line_for_match(lines[i].1.as_str());
        if contains_text(text.as_str(), expected.as_str()) {
            return true;
        }
        i += 1;
    }
    false
}

/// In compact form, the shape of the output line of an IsZero whose inverse
/// is the signal: `out<==-in*signal+1;`.
pub open spec fn iszero_out_pattern(signal: Seq<char>) -> Seq<char> {
    ISZERO_OUT_HEAD@ + escaped(signal) + ISZERO_OUT_TAIL@
}

/// The output of the IsZero, read from a line: the line stands after the
/// assignment, has the shape `out<==-in*signal+1;`, and its `in` is the
/// input of the hint.
pub open spec fn iszero_out_at(
    line: (usize, Seq<char>),
    assignment_line: usize,
    signal: Seq<char>,
    input: Seq<char>,
) -> Option<Seq<char>> {
    if line.0 > assignment_line {
        match pattern_groups(iszero_out_pattern(signal), compact(line.1)) {
            Some(g) => if g.len() > 2 && normalized(g[2]) == input {
                Some(normalized(g[1]))
            } else {
                None
            },
            None => None,
        }
    } else {
        None
    }
}

/// The output of the IsZero, read from the first line from `from` on that
/// gives one.
pub open spec fn iszero_out_from(
    lines: Seq<(usize, Seq<char>)>,
    from: int,
    assignment_line: usize,
    signal: Seq<char>,
    input: Seq<char>,
) -> Option<Seq<char>>
    decreases lines.len() - from,
{
    if from < 0 || from >= lines.len() {
        None
    } else {
        match iszero_out_at(lines[from], assignment_line, signal, input) {
            Some(out) => Some(out),
            None => iszero_out_from(lines, from + 1, assignment_line, signal, input),
        }
    }
}

/// Whether a line says that input times output is zero, in either order.
pub open spec fn is_zero_product(
    line: (usize, Seq<char>),
    assignment_line: usize,
    input: Seq<char>,
    out: Seq<char>,
) -> bool {
    line.0 > assignment_line && match pattern_groups(ZERO_PRODUCT@, compact(line.1)) {
        Some(g) => g.len() > 2 && ((normalized(g[1]) == input && normalized(g[2]) == out) || (
        normalized(g[1]) == out && normalized(g[2]) == input)),
        None => false,
    }
}

/// The input of an inverse hint `x != 0 ? 1/x : 0`, where both `x` agree.
pub open spec fn inverse_hint_input(expr: Seq<char>) -> Option<Seq<char>> {
    match pattern_groups(ISZERO_INV_EXPR@, expr) {
        Some(g) => if g.len() > 2 && normalized(g[1]) == normalized(g[2]) {
            Some(normalized(g[1]))
        } else {
            None
        },
        None => None,
    }
}

/// Whether the assignment is the inverse of a canonical IsZero: the hint is
/// `in != 0 ? 1/in : 0`, a later line is `out <== -in*signal + 1`, and a
/// later line is `in * out === 0`.
pub open spec fn iszero_guarded(
    lines: Seq<(usize, Seq<char>)>,
    line_no: usize,
    signal: Seq<char>,
) -> bool {
    match assigned_expr(lines, line_no, signal) {
        Some(expr) => match inverse_hint_input(expr) {
            Some(input) => match iszero_out_from(lines, 0, line_no, signal, input) {
                Some(out) => exists|i: int|
                    0 <= i < lines.len() && is_zero_product(#[trigger] lines[i], line_no, input, out),
                None => false,
            },
            None => false,
        },
        None => false,
    }
}

/// The input of an inverse hint.
pub fn inverse_hint(grammar: &Grammar, expr: &str) -> (r: Option<String>)
    ensures
        r.deep_view() == inverse_hint_input(expr@),
{
    match grammar.iszero_inv_expr().groups(expr) {
        Some(g) => {
            if g.len() > 2 {
                let lhs = normalize_signal(g[1].as_str());
                let rhs = normalize_signal(g[2].as_str());
                if same_text(lhs.as_str(), rhs.as_str()) {
                    Some(lhs)
                } else {
                    None
                }
            } else {
                None
            }
        },
        None => None,
    }
}

/// Whether the assignment is the inverse of a canonical IsZero.
#[verifier::loop_isolation(false)]
pub fn has_canonical_iszero_guard(
    grammar: &Grammar,
    lines: &Vec<(usize, String)>,
    assignment: &SignalAssignment,
) -> (b: bool)
    ensures
        b == iszero_guarded(lines.deep_view(), assignment.line_no, assignment.signal@),
{
    let ghost spec_lines = lines.deep_view();
    let expr = match unconstrained_assignment_expr(lines, assignment) {
        Some(e) => e,
        None => {
            return false;
        },
    };
    let input = match inverse_hint(grammar, expr.as_str()) {
        Some(x) => x,
        None => {
            return false;
        },
    };
    let quoted = escape(assignment.signal.as_str());
    let mut out_pattern = String::from_str(ISZERO_OUT_HEAD);
    out_pattern.append(quoted.as_str());
    out_pattern.append(ISZERO_OUT_TAIL);
    let out_shape = Shape::new(out_pattern.as_str());
    let mut out_var: Option<String> = None;
    let mut i: usize = 0;
    while i < lines.len() && out_var.is_none()
        invariant
            spec_lines == lines.deep_view(),
            i <= lines.len(),
            out_shape@ == iszero_out_pattern(assignment.signal@),
            out_var is None ==> iszero_out_from(
                spec_lines,
                0,
                assignment.line_no,
                assignment.signal@,
                input@,
            ) == iszero_out_from(
                spec_lines,
                i as int,
                assignment.line_no,
                assignment.signal@,
                input@,
            ),
            out_var is Some ==> iszero_out_from(
                spec_lines,
                0,
                assignment.line_no,
                assignment.signal@,
                input@,
            ) == out_var.deep_view(),
        decreases lines.len() - i + (if out_var is None { 1int } else { 0int }),
    {
        assert(spec_lines[i as int] == (lines[i as int].0, lines[i as int].1@));
        if lines[i].0 > assignment.line_no {
            let text = compact_line_for_match(lines[i].1.as_str());
            match out_shape.groups(text.as_str()) {
                Some(g) => {
                    if g.len() > 2 {
                        let in_var = normalize_signal(g[2].as_str());
                        if same_text(in_var.as_str(), input.as_str()) {
                            out_var = Some(normalize_signal(g[1].as_str()));
                        }
                    }
                },
                None => {},
            }
        }
        if out_var.is_none() {
            i += 1;
        }
    }
    let out = match out_var {
        Some(o) => o,
        None => {
            return false;
        },
    };
    let mut k: usize = 0;
    while k < lines.len()
        invariant
            spec_lines == lines.deep_view(),
            k <= lines.len(),
            forall|j: int|
                0 <= j < k ==> !is_zero_product(
                    #[trigger] spec_lines[j],
                    assignment.line_no,
                    input@,
                    out@,
                ),
        decreases lines.len() - k,
    {
        assert(spec_lines[k as int] == (lines[k as int].0, lines[k as int].1@));
        if lines[k].0 > assignment.line_no {
            let text = compact_line_for_match(lines[k].1.as_str());
            match grammar.zero_product().groups(text.as_str()) {
                Some(g) => {
                    if g.len() > 2 {
                        let a = normalize_signal(g[1].as_str());
                        let b = normalize_signal(g[2].as_str());
                        if (same_text(a.as_str(), input.as_str()) && same_text(
                            b.as_str(),
                            out.as_str(),
                        )) || (same_text(a.as_str(), out.as_str()) && same_text(
                            b.as_str(),
                            input.as_str(),
                        )) {
                            assert(is_zero_product(
                                spec_lines[k as int],
                                assignment.line_no,
                                input@,
                                out@,
                            ));
                            return true;
                        }
                    }
                },
                None => {},
            }
        }
        k += 1;
    }
    false
}

/// The parts of a quotient or remainder expression, from the groups that
/// its shape yields: the input without indices, the operator, the modulus.
pub open spec fn qr_parts(groups: Option<Seq<Seq<char>>>) -> Option<(Seq<char>, char, Seq<char>)> {
    match groups {
        Some(g) => if g.len() > 3 && g[2].len() > 0 {
            Some((normalized(g[1]), g[2][0], g[3]))
        } else {
            None
        },
        None => None,
    }
}

/// The parts of an expression `i \ m` or `i % m`.
pub open spec fn parsed_qr(expr: Seq<char>) -> Option<(Seq<char>, char, Seq<char>)> {
    qr_parts(pattern_groups(SIMPLE_QR_EXPR@, expr))
}

/// Builds the parts of a quotient or remainder expression from the groups
/// that its shape yields.
pub fn qr_from_groups(groups: &Option<Vec<String>>) -> (r: Option<(String, char, String)>)
    ensures
        r.deep_view() == qr_parts(groups.deep_view()),
{
    match groups {
        Some(g) => {
            if g.len() > 3 {
                assert(g.deep_view()[1] == g[1]@);
                assert(g.deep_view()[2] == g[2]@);
                assert(g.deep_view()[3] == g[3]@);
                let op = chars_of(g[2].as_str());
                if op.len() > 0 {
                    Some((normalize_signal(g[1].as_str()), op[0], g[3].clone()))
                } else {
                    None
                }
            } else {
                None
            }
        },
        None => None,
    }
}

/// Reads an expression `i \ m` or `i % m`.
pub fn parse_qr_expr(grammar: &Grammar, expr: &str) -> (r: Option<(String, char, String)>)
    ensures
        r.deep_view() == parsed_qr(expr@),
{
    let groups = grammar.simple_qr_expr().groups(expr);
    qr_from_groups(&groups)
}

/// Whether a binding is the other half of a quotient and remainder pair: a
/// `<--` on another line, of the same input by the same modulus, with the
/// other operator.
pub open spec fn is_counterpart(
    lines: Seq<(usize, Seq<char>)>,
    candidate: AssignmentView,
    line_no: usize,
    input: Seq<char>,
    op: char,
    modulus: Seq<char>,
) -> bool {
    candidate.kind == AssignKind::Unconstrained && candidate.line_no != line_no && match assigned_expr(
        lines,
        candidate.line_no,
        candidate.signal,
    ) {
        Some(expr) => match parsed_qr(expr) {
            Some(parts) => parts.0 == input && parts.2 == modulus && parts.1 != op,
            None => false,
        },
        None => false,
    }
}

/// The index of the first binding from `from` on that is the other half of
/// the pair.
pub open spec fn counterpart_from(
    lines: Seq<(usize, Seq<char>)>,
    assignments: Seq<AssignmentView>,
    from: int,
    line_no: usize,
    input: Seq<char>,
    op: char,
    modulus: Seq<char>,
) -> Option<int>
    decreases assignments.len() - from,
{
    if from < 0 || from >= assignments.len() {
        None
    } else if is_counterpart(lines, assignments[from], line_no, input, op, modulus) {
        Some(from)
    } else {
        counterpart_from(lines, assignments, from + 1, line_no, input, op, modulus)
    }
}

/// In compact form, the two spellings of the recomposition `q*m+r===i;`.
pub open spec fn qr_recomposition_forms(
    q: Seq<char>,
    r: Seq<char>,
    modulus: Seq<char>,
    input: Seq<char>,
) -> (Seq<char>, Seq<char>) {
    (
        q + "*"@ + modulus + "+"@ + r + "==="@ + input + ";"@,
        r + "+"@ + q + "*"@ + modulus + "==="@ + input + ";"@,
    )
}

/// Whether a line after `after` is one of the two expected texts, in
/// compact form.
pub open spec fn closes_with(
    line: (usize, Seq<char>),
    after: usize,
    forms: (Seq<char>, Seq<char>),
) -> bool {
    line.0 > after && (compact(line.1) == forms.0 || compact(line.1) == forms.1)
}

/// Whether some line after `after` is one of the two expected texts.
pub open spec fn closed_by(
    lines: Seq<(usize, Seq<char>)>,
    after: usize,
    forms: (Seq<char>, Seq<char>),
) -> bool {
    exists|i: int| 0 <= i < lines.len() && closes_with(#[trigger] lines[i], after, forms)
}

/// Whether some line after `after` is one of the two expected texts.
pub fn has_closing_line(lines: &Vec<(usize, String)>, after: usize, first: &str, second: &str) -> (b:
    bool)
    ensures
        b == closed_by(lines.deep_view(), after, (first@, second@)),
{
    let ghost spec_lines = lines.deep_view();
    let mut i: usize = 0;
    while i < lines.len()
        invariant
            spec_lines == lines.deep_view(),
            i <= lines.len(),
            forall|k: int| 0 <= k < i ==> !closes_with(#[trigger] spec_lines[k], after, (first@, second@)),
        decreases lines.len() - i,
    {
        assert(spec_lines[i as int] == (lines[i as int].0, lines[i as int].1@));
        if lines[i].0 > after {
            let text = compact_line_for_match(lines[i].1.as_str());
            if same_text(text.as_str(), first) || same_text(text.as_str(), second) {
                return true;
            }
        }
        i += 1;
    }
    false
}

/// What the quotient and remainder guard decides once the pair is known:
/// the quotient is the half with the operator `\`; both halves are input
/// ports of components declared as `to_bits_exact`; and a line after both
/// assignments recomposes the input, `q*m+r === i` or `r+q*m === i`.
pub open spec fn qr_pair_guarded(
    lines: Seq<(usize, Seq<char>)>,
    line_no: usize,
    signal: Seq<char>,
    op: char,
    other_line: usize,
    other_signal: Seq<char>,
    modulus: Seq<char>,
    input: Seq<char>,
) -> bool {
    let q = if op == '\\' {
        signal
    } else {
        other_signal
    };
    let r = if op == '\\' {
        other_signal
    } else {
        signal
    };
    let after = if line_no >= other_line {
        line_no
    } else {
        other_line
    };
    match (input_component(q), input_component(r)) {
        (Some(qc), Some(rc)) => declares_to_bits(lines, qc) && declares_to_bits(lines, rc)
            && closed_by(lines, after, qr_recomposition_forms(q, r, modulus, input)),
        _ => false,
    }
}

/// Whether the assignment is one half of a guarded quotient and remainder
/// pair: two `<--` of the template split an input `i` as `i \ m` and
/// `i % m` with the same `m`, and the pair is guarded.
pub open spec fn qr_guarded(
    lines: Seq<(usize, Seq<char>)>,
    assignments: Seq<AssignmentView>,
    line_no: usize,
    signal: Seq<char>,
) -> bool {
    match assigned_expr(lines, line_no, signal) {
        Some(expr) => match parsed_qr(expr) {
            Some(parts) => (parts.1 == '\\' || parts.1 == '%') && match counterpart_from(
                lines,
                assignments,
                0,
                line_no,
                parts.0,
                parts.1,
                parts.2,
            ) {
                Some(at) => qr_pair_guarded(
                    lines,
                    line_no,
                    signal,
                    parts.1,
                    assignments[at].line_no,
                    assignments[at].signal,
                    parts.2,
                    parts.0,
                ),
                None => false,
            },
            None => false,
        },
        None => false,
    }
}

/// Decides the quotient and remainder guard for a known pair.
pub fn qr_pair_guard(
    lines: &Vec<(usize, String)>,
    line_no: usize,
    signal: &str,
    op: char,
    other_line: usize,
    other_signal: &str,
    modulus: &str,
    input: &str,
) -> (b: bool)
    requires
        op == '\\' || op == '%',
    ensures
        b == qr_pair_guarded(
            lines.deep_view(),
            line_no,
            signal@,
            op,
            other_line,
            other_signal@,
            modulus@,
            input@,
        ),
{
    let q: &str = if op == '\\' {
        signal
    } else {
        other_signal
    };
    let r: &str = if op == '\\' {
        other_signal
    } else {
        signal
    };
    let qc = match component_from_signal_input(q) {
        Some(c) => c,
        None => {
            return false;
        },
    };
    let rc = match component_from_signal_input(r) {
        Some(c) => c,
        None => {
            return false;
        },
    };
    if !has_to_bits_component(lines, qc.as_str()) || !has_to_bits_component(lines, rc.as_str()) {
        return false;
    }
    let after = if line_no >= other_line {
        line_no
    } else {
        other_line
    };
    let mut a = String::from_str(q);
    a.append("*");
    a.append(modulus);
    a.append("+");
    a.append(r);
    a.append("===");
    a.append(input);
    a.append(";");
    let mut b = String::from_str(r);
    b.append("+");
    b.append(q);
    b.append("*");
    b.append(modulus);
    b.append("===");
    b.append(input);
    b.append(";");
    has_closing_line(lines, after, a.as_str(), b.as_str())
}

/// Whether the assignment is one half of a guarded quotient and remainder
/// pair.
#[verifier::loop_isolation(false)]
pub fn has_quotient_remainder_recomposition_guard(
    grammar: &Grammar,
    lines: &Vec<(usize, String)>,
    assignments: &Vec<SignalAssignment>,
    assignment: &SignalAssignment,
) -> (b: bool)
    ensures
        b == qr_guarded(
            lines.deep_view(),
            assignments.deep_view(),
            assignment.line_no,
            assignment.signal@,
        ),
{
    let ghost spec_lines = lines.deep_view();
    let ghost spec_assignments = assignments.deep_view();
    let expr = match unconstrained_assignment_expr(lines, assignment) {
        Some(e) => e,
        None => {
            return false;
        },
    };
    let (input, op, modulus) = match parse_qr_expr(grammar, expr.as_str()) {
        Some(parts) => parts,
        None => {
            return false;
        },
    };
    if op != '\\' && op != '%' {
        return false;
    }
    let mut i: usize = 0;
    while i < assignments.len()
        invariant
            spec_lines == lines.deep_view(),
            spec_assignments == assignments.deep_view(),
            i <= assignments.len(),
            op == '\\' || op == '%',
            counterpart_from(spec_lines, spec_assignments, 0, assignment.line_no, input@, op, modulus@)
                == counterpart_from(
                spec_lines,
                spec_assignments,
                i as int,
                assignment.line_no,
                input@,
                op,
                modulus@,
            ),
        decreases assignments.len() - i,
    {
        let candidate = &assignments[i];
        assert(spec_assignments[i as int] == candidate.deep_view());
        if candidate.kind == AssignKind::Unconstrained && candidate.line_no != assignment.line_no {
            match unconstrained_assignment_expr(lines, candidate) {
                Some(ce) => {
                    match parse_qr_expr(grammar, ce.as_str()) {
                        Some((c_input, c_op, c_modulus)) => {
                            if same_text(c_input.as_str(), input.as_str()) && same_text(
                                c_modulus.as_str(),
                                modulus.as_str(),
                            ) && c_op != op {
                                assert(is_counterpart(
                                    spec_lines,
                                    spec_assignments[i as int],
                                    assignment.line_no,
                                    input@,
                                    op,
                                    modulus@,
                                ));
                                return qr_pair_guard(
                                    lines,
                                    assignment.line_no,
                                    assignment.signal.as_str(),
                                    op,
                                    candidate.line_no,
                                    candidate.signal.as_str(),
                                    modulus.as_str(),
                                    input.as_str(),
                                );
                            }
                        },
                        None => {},
                    }
                },
                None => {},
            }
        }
        i += 1;
    }
    false
}

/// The parts of a modular-inverse hint `out * in \ m`: the two factors
/// without indices, and the modulus.
pub open spec fn inverse_quotient_parts(expr: Seq<char>) -> Option<
    (Seq<char>, Seq<char>, Seq<char>),
> {
    match pattern_groups(MODINV_K_EXPR@, expr) {
        Some(g) => if g.len() > 3 {
            Some((normalized(g[1]), normalized(g[2]), g[3]))
        } else {
            None
        },
        None => None,
    }
}

/// In compact form, the two spellings of `out*in - 1 === k*m;`.
pub open spec fn inverse_recomposition_forms(
    out: Seq<char>,
    input: Seq<char>,
    signal: Seq<char>,
    modulus: Seq<char>,
) -> (Seq<char>, Seq<char>) {
    (
        out + "*"@ + input + "-1==="@ + signal + "*"@ + modulus + ";"@,
        signal + "*"@ + modulus + "==="@ + out + "*"@ + input + "-1;"@,
    )
}

/// In compact form, the shape of the line that wires `out` into the input
/// of a component.
pub open spec fn in_wiring_pattern(out: Seq<char>) -> Seq<char> {
    IN_WIRING_HEAD@ + escaped(out) + IN_WIRING_TAIL@
}

/// Whether a line after the assignment wires `out` into the input of a
/// component that the template declares as `to_bits_exact`.
pub open spec fn wires_into_bits(
    lines: Seq<(usize, Seq<char>)>,
    line: (usize, Seq<char>),
    line_no: usize,
    out: Seq<char>,
) -> bool {
    line.0 > line_no && match captured(in_wiring_pattern(out), compact(line.1), 1) {
        Some(component) => declares_to_bits(lines, component),
        None => false,
    }
}

/// Whether the assignment is the quotient of a guarded modular inverse: the
/// hint is `out * in \ m`, a later line says `out*in - 1 === signal*m`, and
/// a later line wires `out` into a `to_bits_exact` component.
pub open spec fn inverse_quotient_guarded(
    lines: Seq<(usize, Seq<char>)>,
    line_no: usize,
    signal: Seq<char>,
) -> bool {
    match assigned_expr(lines, line_no, signal) {
        Some(expr) => match inverse_quotient_parts(expr) {
            Some(parts) => closed_by(
                lines,
                line_no,
                inverse_recomposition_forms(parts.0, parts.1, signal, parts.2),
            ) && exists|i: int|
                0 <= i < lines.len() && wires_into_bits(lines, #[trigger] lines[i], line_no, parts.0),
            None => false,
        },
        None => false,
    }
}

/// Reads a modular-inverse hint `out * in \ m`.
pub fn parse_inverse_quotient(grammar: &Grammar, expr: &str) -> (r: Option<
    (String, String, String),
>)
    ensures
        r.deep_view() == inverse_quotient_parts(expr@),
{
    match grammar.modinv_k_expr().groups(expr) {
        Some(g) => {
            if g.len() > 3 {
                assert(g.deep_view()[1] == g[1]@);
                assert(g.deep_view()[2] == g[2]@);
                assert(g.deep_view()[3] == g[3]@);
                Some(
                    (
                        normalize_signal(g[1].as_str()),
                        normalize_signal(g[2].as_str()),
                        g[3].clone(),
                    ),
                )
            } else {
                None
            }
        },
        None => None,
    }
}

/// Whether the assignment is the quotient of a guarded modular inverse.
#[verifier::loop_isolation(false)]
pub fn has_inverse_quotient_guard(
    grammar: &Grammar,
    lines: &Vec<(usize, String)>,
    assignment: &SignalAssignment,
) -> (b: bool)
    ensures
        b == inverse_quotient_guarded(lines.deep_view(), assignment.line_no, assignment.signal@),
{
    let ghost spec_lines = lines.deep_view();
    let expr = match unconstrained_assignment_expr(lines, assignment) {
        Some(e) => e,
        None => {
            return false;
        },
    };
    let (out_signal, input_signal, modulus) = match parse_inverse_quotient(
        grammar,
        expr.as_str(),
    ) {
        Some(parts) => parts,
        None => {
            return false;
        },
    };
    let mut expected = out_signal.clone();
    expected.append("*");
    expected.append(input_signal.as_str());
    expected.append("-1===");
    expected.append(assignment.signal.as_str());
    expected.append("*");
    expected.append(modulus.as_str());
    expected.append(";");
    let mut expected_rev = assignment.signal.clone();
    expected_rev.append("*");
    expected_rev.append(modulus.as_str());
    expected_rev.append("===");
    expected_rev.append(out_signal.as_str());
    expected_rev.append("*");
    expected_rev.append(input_signal.as_str());
    expected_rev.append("-1;");
    if !has_closing_line(lines, assignment.line_no, expected.as_str(), expected_rev.as_str()) {
        return false;
    }
    let quoted = escape(out_signal.as_str());
    let mut pattern = String::from_str(IN_WIRING_HEAD);
    pattern.append(quoted.as_str());
    pattern.append(IN_WIRING_TAIL);
    let wiring = Shape::new(pattern.as_str());
    let mut i: usize = 0;
    while i < lines.len()
        invariant
            spec_lines == lines.deep_view(),
            i <= lines.len(),
            wiring@ == in_wiring_pattern(out_signal@),
            forall|k: int|
                0 <= k < i ==> !wires_into_bits(
                    spec_lines,
                    #[trigger] spec_lines[k],
                    assignment.line_no,
                    out_signal@,
                ),
        decreases lines.len() - i,
    {
        assert(spec_lines[i as int] == (lines[i as int].0, lines[i as int].1@));
        if lines[i].0 > assignment.line_no {
            let text = compact_line_for_match(lines[i].1.as_str());
            match wiring.capture(text.as_str(), 1) {
                Some(component) => {
                    if has_to_bits_component(lines, component.as_str()) {
                        assert(wires_into_bits(
                            spec_lines,
                            spec_lines[i as int],
                            assignment.line_no,
                            out_signal@,
                        ));
                        return true;
                    }
                },
                None => {},
            }
        }
        i += 1;
    }
    false
}

/// Whether a constraint line is a signal constraint of an assignment: it
/// stands after it and its tokens hold the signal.
pub open spec fn is_signal_constraint(line: ConstraintLineView, line_no: usize, signal: Seq<char>) -> bool {
    line.line_no > line_no && line.tokens.contains(signal)
}

/// Whether a constraint line is an anchored constraint of an assignment: a
/// signal constraint that ties the signal to something trustworthy.
pub open spec fn is_anchored_constraint(
    line: ConstraintLineView,
    line_no: usize,
    signal: Seq<char>,
    unconstrained: Set<Seq<char>>,
) -> bool {
    is_signal_constraint(line, line_no, signal) && has_anchor(line, signal, unconstrained)
}

/// The number of anchored constraints among the first `n` constraint lines.
pub open spec fn anchored_upto(
    constraint_lines: Seq<ConstraintLineView>,
    n: int,
    line_no: usize,
    signal: Seq<char>,
    unconstrained: Set<Seq<char>>,
) -> nat
    decreases n,
{
    if n <= 0 {
        0
    } else if is_anchored_constraint(constraint_lines[n - 1], line_no, signal, unconstrained) {
        anchored_upto(constraint_lines, n - 1, line_no, signal, unconstrained) + 1
    } else {
        anchored_upto(constraint_lines, n - 1, line_no, signal, unconstrained)
    }
}

/// Whether some signal constraint says that the signal is a bit.
pub open spec fn has_binary_constraint(
    constraint_lines: Seq<ConstraintLineView>,
    line_no: usize,
    signal: Seq<char>,
) -> bool {
    exists|j: int|
        0 <= j < constraint_lines.len() && is_signal_constraint(
            #[trigger] constraint_lines[j],
            line_no,
            signal,
        ) && is_binary_constraint(constraint_lines[j].text, signal)
}

/// Whether some anchored constraint is structural: it holds `*`, `+` or `-`.
pub open spec fn has_structural_constraint(
    constraint_lines: Seq<ConstraintLineView>,
    line_no: usize,
    signal: Seq<char>,
    unconstrained: Set<Seq<char>>,
) -> bool {
    exists|j: int|
        0 <= j < constraint_lines.len() && is_anchored_constraint(
            #[trigger] constraint_lines[j],
            line_no,
            signal,
            unconstrained,
        ) && (constraint_lines[j].has_multiplication || constraint_lines[j].has_add_or_sub)
}

/// What the constraint lines say of an assignment.
pub struct ConstraintEvidence {
    /// The number of anchored constraints.
    pub anchored: usize,
    /// Whether a signal constraint says that the signal is a bit.
    pub binary: bool,
    /// Whether an anchored constraint is structural.
    pub structural: bool,
}

/// Weighs the constraint lines for an assignment.
pub fn constraint_evidence(
    constraint_lines: &Vec<ConstraintLine>,
    line_no: usize,
    signal: &str,
    unconstrained_signals: &TextSet,
) -> (r: ConstraintEvidence)
    ensures
        r.anchored == anchored_upto(
            constraint_lines.deep_view(),
            constraint_lines.len() as int,
            line_no,
            signal@,
            unconstrained_signals@,
        ),
        r.binary == has_binary_constraint(constraint_lines.deep_view(), line_no, signal@),
        r.structural == has_structural_constraint(
            constraint_lines.deep_view(),
            line_no,
            signal@,
            unconstrained_signals@,
        ),
{
    let ghost cls = constraint_lines.deep_view();
    let mut anchored: usize = 0;
    let mut binary = false;
    let mut structural = false;
    let mut j: usize = 0;
    while j < constraint_lines.len()
        invariant
            cls == constraint_lines.deep_view(),
            j <= constraint_lines.len(),
            anchored <= j,
            anchored == anchored_upto(cls, j as int, line_no, signal@, unconstrained_signals@),
            binary == exists|k: int|
                0 <= k < j && is_signal_constraint(#[trigger] cls[k], line_no, signal@)
                    && is_binary_constraint(cls[k].text, signal@),
            structural == exists|k: int|
                0 <= k < j && is_anchored_constraint(
                    #[trigger] cls[k],
                    line_no,
                    signal@,
                    unconstrained_signals@,
                ) && (cls[k].has_multiplication || cls[k].has_add_or_sub),
        decreases constraint_lines.len() - j,
    {
        let line = &constraint_lines[j];
        assert(cls[j as int] == line.deep_view());
        if line.line_no > line_no && line.tokens.contains(signal) {
            if is_binary_constraint_for_signal(line.text.as_str(), signal) {
                binary = true;
            }
            if constraint_has_anchor_for_signal(line, signal, unconstrained_signals) {
                anchored += 1;
                if line.has_multiplication || line.has_add_or_sub {
                    structural = true;
                }
            }
        }
        j += 1;
    }
    ConstraintEvidence { anchored, binary, structural }
}

/// Whether the evidence suffices: at least two anchored constraints; or a
/// bit constraint together with a recomposition through a variable; or a
/// wiring into a bit component together with a structural constraint; or
/// one of the three guards.
pub open spec fn evidence_suffices(
    anchored: nat,
    binary: bool,
    structural: bool,
    bit_wiring: bool,
    var_recomposition: bool,
    iszero: bool,
    quotient_remainder: bool,
    inverse_quotient: bool,
) -> bool {
    anchored >= 2 || (binary && var_recomposition) || (bit_wiring && structural) || iszero
        || quotient_remainder || inverse_quotient
}

/// Whether the evidence suffices.
pub fn decide_mitigation(
    anchored: usize,
    binary: bool,
    structural: bool,
    bit_wiring: bool,
    var_recomposition: bool,
    iszero: bool,
    quotient_remainder: bool,
    inverse_quotient: bool,
) -> (b: bool)
    ensures
        b == evidence_suffices(
            anchored as nat,
            binary,
            structural,
            bit_wiring,
            var_recomposition,
            iszero,
            quotient_remainder,
            inverse_quotient,
        ),
{
    anchored >= 2 || (binary && var_recomposition) || (bit_wiring && structural) || iszero
        || quotient_remainder || inverse_quotient
}

/// Whether the `<--` of a signal on a line is hard-mitigated.
pub open spec fn is_mitigated(
    lines: Seq<(usize, Seq<char>)>,
    assignments: Seq<AssignmentView>,
    constraint_lines: Seq<ConstraintLineView>,
    line_no: usize,
    signal: Seq<char>,
) -> bool {
    let unconstrained = unconstrained_signals(assignments);
    evidence_suffices(
        anchored_upto(
            constraint_lines,
            constraint_lines.len() as int,
            line_no,
            signal,
            unconstrained,
        ),
        has_binary_constraint(constraint_lines, line_no, signal),
        has_structural_constraint(constraint_lines, line_no, signal, unconstrained),
        bit_wired(lines, signal, line_no),
        var_recomposed(lines, signal, line_no, constraint_lines, unconstrained),
        iszero_guarded(lines, line_no, signal),
        qr_guarded(lines, assignments, line_no, signal),
        inverse_quotient_guarded(lines, line_no, signal),
    )
}

/// The hard-mitigated signals among the first `n` bindings.
pub open spec fn mitigated_upto(
    lines: Seq<(usize, Seq<char>)>,
    assignments: Seq<AssignmentView>,
    constraint_lines: Seq<ConstraintLineView>,
    n: int,
) -> Set<Seq<char>>
    decreases n,
{
    if n <= 0 {
        Set::empty()
    } else {
        let a = assignments[n - 1];
        if a.kind == AssignKind::Unconstrained && is_mitigated(
            lines,
            assignments,
            constraint_lines,
            a.line_no,
            a.signal,
        ) {
            mitigated_upto(lines, assignments, constraint_lines, n - 1).insert(a.signal)
        } else {
            mitigated_upto(lines, assignments, constraint_lines, n - 1)
        }
    }
}

/// The hard-mitigated signals of a template: the signals of which some `<--`
/// is hard-mitigated.
pub open spec fn hard_mitigated_of(
    lines: Seq<(usize, Seq<char>)>,
    assignments: Seq<AssignmentView>,
    constraint_lines: Seq<ConstraintLineView>,
) -> Set<Seq<char>> {
    mitigated_upto(lines, assignments, constraint_lines, assignments.len() as int)
}

/// Collects the hard-mitigated signals of a template.
pub fn collect_hard_mitigated_signals(
    grammar: &Grammar,
    lines: &Vec<(usize, String)>,
    assignments: &Vec<SignalAssignment>,
    constraint_lines: &Vec<ConstraintLine>,
) -> (r: TextSet)
    ensures
        r@ == hard_mitigated_of(
            lines.deep_view(),
            assignments.deep_view(),
            constraint_lines.deep_view(),
        ),
{
    let ghost spec_lines = lines.deep_view();
    let ghost spec_assignments = assignments.deep_view();
    let ghost cls = constraint_lines.deep_view();
    let unconstrained = collect_unconstrained_signals(assignments);
    let mut mitigated = TextSet::new();
    let mut i: usize = 0;
    while i < assignments.len()
        invariant
            spec_lines == lines.deep_view(),
            spec_assignments == assignments.deep_view(),
            cls == constraint_lines.deep_view(),
            unconstrained@ == unconstrained_signals(spec_assignments),
            i <= assignments.len(),
            mitigated@ == mitigated_upto(spec_lines, spec_assignments, cls, i as int),
        decreases assignments.len() - i,
    {
        let assignment = &assignments[i];
        assert(spec_assignments[i as int] == assignment.deep_view());
        if assignment.kind == AssignKind::Unconstrained {
            let signal = assignment.signal.as_str();
            let evidence = constraint_evidence(
                constraint_lines,
                assignment.line_no,
                signal,
                &unconstrained,
            );
            let bit_wiring = has_bit_component_input_wiring(lines, signal, assignment.line_no);
            let var_recomposition = has_var_recomposition_proof(
                grammar,
                lines,
                signal,
                assignment.line_no,
                constraint_lines,
                &unconstrained,
            );
            let iszero = has_canonical_iszero_guard(grammar, lines, assignment);
            let quotient_remainder = has_quotient_remainder_recomposition_guard(
                grammar,
                lines,
                assignments,
                assignment,
            );
            let inverse_quotient = has_inverse_quotient_guard(grammar, lines, assignment);
            if decide_mitigation(
                evidence.anchored,
                evidence.binary,
                evidence.structural,
                bit_wiring,
                var_recomposition,
                iszero,
                quotient_remainder,
                inverse_quotient,
            ) {
                mitigated.insert(assignment.signal.clone());
            }
        }
        i += 1;
    }
    mitigated
}

} // verus!
