//! First pass of the semantic analysis: what the lines of one template
//! assign, constrain and wire.

use vstd::prelude::*;
use crate::engine::{
    captured, escape, escaped, pattern_groups, pattern_groups_all, pattern_matches, Shape,
};
use crate::grammar::{
    Grammar, CONSTRAINED, EQUALITY, IDENT, NUMERIC_LITERAL, PORT_WIRING, SELF_EQ, UNCONSTRAINED,
};
use crate::lexer::{code_of, normalize_signal, normalized, strip_comment};
use crate::text::{contains_char, contains_text, has_substring, joined, same_text};
use crate::textset::TextSet;

verus! {

/// The word boundary of the expression language.
pub const WORD_EDGE: &'static str = r"\b";

/// The constrained assignment operator.
pub const OP_CONSTRAINED: &'static str = "<==";

/// The equality constraint operator.
pub const OP_EQUALITY: &'static str = "===";

/// How far after a `<--` a constraint counts as local, in lines.
pub const LOCAL_WINDOW_LINES: usize = 12;

/// The operator by which a line binds a signal.
#[derive(Debug, Clone, Copy, PartialEq, Eq, Structural)]
pub enum AssignKind {
    /// `<--`
    Unconstrained,
    /// `<==`
    Constrained,
    /// `===`
    Equality,
}

/// One binding of a signal on one line.
#[derive(Debug, Clone)]
pub struct SignalAssignment {
    pub line_no: usize,
    pub signal: String,
    pub kind: AssignKind,
    pub tautological_equality: bool,
}

/// The model of a `SignalAssignment`.
pub struct AssignmentView {
    pub line_no: usize,
    pub signal: Seq<char>,
    pub kind: AssignKind,
    pub tautological_equality: bool,
}

impl DeepView for SignalAssignment {
    type V = AssignmentView;

    open spec fn deep_view(&self) -> AssignmentView {
        AssignmentView {
            line_no: self.line_no,
            signal: self.signal@,
            kind: self.kind,
            tautological_equality: self.tautological_equality,
        }
    }
}

impl AssignmentView {
    /// Whether the binding puts a constraint on its signal: a `<==`, or a
    /// `===` that is no tautology.
    pub open spec fn constrains(self) -> bool {
        self.kind == AssignKind::Constrained || (self.kind == AssignKind::Equality
            && !self.tautological_equality)
    }
}

/// Whether the two sides of a `lhs === rhs ;` line name the same signal,
/// given the groups that the line's shape yields.
pub open spec fn same_sides(groups: Option<Seq<Seq<char>>>) -> bool {
    match groups {
        Some(g) => g.len() > 2 && normalized(g[1]) == normalized(g[2]),
        None => false,
    }
}

/// Whether a line of code is a tautological equality, `x === x ;`.
pub open spec fn is_self_equality(code: Seq<char>) -> bool {
    same_sides(pattern_groups(SELF_EQ@, code))
}

/// Whether the two sides of a `lhs === rhs ;` line name the same signal.
pub fn sides_agree(groups: &Option<Vec<String>>) -> (b: bool)
    ensures
        b == same_sides(groups.deep_view()),
{
    match groups {
        Some(g) => {
            if g.len() > 2 {
                let lhs = normalize_signal(g[1].as_str());
                let rhs = normalize_signal(g[2].as_str());
                same_text(lhs.as_str(), rhs.as_str())
            } else {
                false
            }
        },
        None => false,
    }
}

/// Whether a line of code is a tautological equality.
pub fn self_equality(grammar: &Grammar, code: &str) -> (b: bool)
    ensures
        b == is_self_equality(code@),
{
    let groups = grammar.self_eq().groups(code);
    sides_agree(&groups)
}

/// The bindings that one line gives, from the signal names that its shapes
/// yield: at most one of `<--` and `<==`, the first taking precedence, and
/// then at most one `===`.
pub open spec fn bindings(
    number: usize,
    unconstrained: Option<Seq<char>>,
    constrained: Option<Seq<char>>,
    equality: Option<Seq<char>>,
    tautological: bool,
) -> Seq<AssignmentView> {
    let first = match unconstrained {
        Some(s) => seq![
            AssignmentView {
                line_no: number,
                signal: normalized(s),
                kind: AssignKind::Unconstrained,
                tautological_equality: false,
            },
        ],
        None => match constrained {
            Some(s) => seq![
                AssignmentView {
                    line_no: number,
                    signal: normalized(s),
                    kind: AssignKind::Constrained,
                    tautological_equality: false,
                },
            ],
            None => Seq::empty(),
        },
    };
    let second = match equality {
        Some(s) => seq![
            AssignmentView {
                line_no: number,
                signal: normalized(s),
                kind: AssignKind::Equality,
                tautological_equality: tautological,
            },
        ],
        None => Seq::empty(),
    };
    first + second
}

/// The bindings of one line.
pub open spec fn line_assignments(number: usize, text: Seq<char>) -> Seq<AssignmentView> {
    let code = code_of(text);
    bindings(
        number,
        captured(UNCONSTRAINED@, code, 1),
        captured(CONSTRAINED@, code, 1),
        captured(EQUALITY@, code, 1),
        is_self_equality(code),
    )
}

/// The bindings of the first `n` lines.
pub open spec fn assignments_upto(lines: Seq<(usize, Seq<char>)>, n: int) -> Seq<AssignmentView>
    decreases n,
{
    if n <= 0 {
        Seq::empty()
    } else {
        assignments_upto(lines, n - 1) + line_assignments(lines[n - 1].0, lines[n - 1].1)
    }
}

/// The bindings of a template, in line order.
pub open spec fn assignments_of(lines: Seq<(usize, Seq<char>)>) -> Seq<AssignmentView> {
    assignments_upto(lines, lines.len() as int)
}

/// Builds the bindings of one line from the signal names that its shapes
/// yield.
pub fn bindings_of_line(
    number: usize,
    unconstrained: Option<String>,
    constrained: Option<String>,
    equality: Option<String>,
    tautological: bool,
) -> (r: Vec<SignalAssignment>)
    ensures
        r.deep_view() == bindings(
            number,
            unconstrained.deep_view(),
            constrained.deep_view(),
            equality.deep_view(),
            tautological,
        ),
{
    let mut out: Vec<SignalAssignment> = Vec::new();
    match unconstrained {
        Some(s) => {
            out.push(
                SignalAssignment {
                    line_no: number,
                    signal: normalize_signal(s.as_str()),
                    kind: AssignKind::Unconstrained,
                    tautological_equality: false,
                },
            );
        },
        None => match constrained {
            Some(s) => {
                out.push(
                    SignalAssignment {
                        line_no: number,
                        signal: normalize_signal(s.as_str()),
                        kind: AssignKind::Constrained,
                        tautological_equality: false,
                    },
                );
            },
            None => {},
        },
    }
    let ghost first = out.deep_view();
    match equality {
        Some(s) => {
            out.push(
                SignalAssignment {
                    line_no: number,
                    signal: normalize_signal(s.as_str()),
                    kind: AssignKind::Equality,
                    tautological_equality: tautological,
                },
            );
            assert(out.deep_view() =~= first + seq![out[out.len() - 1].deep_view()]);
        },
        None => {
            assert(out.deep_view() =~= first + Seq::<AssignmentView>::empty());
        },
    }
    assert(out.deep_view() =~= bindings(
        number,
        unconstrained.deep_view(),
        constrained.deep_view(),
        equality.deep_view(),
        tautological,
    ));
    out
}

/// Moves the items of `more` to the end of `out`.
pub fn append_assignments(out: &mut Vec<SignalAssignment>, more: Vec<SignalAssignment>)
    ensures
        final(out).deep_view() == old(out).deep_view() + more.deep_view(),
{
    let mut more = more;
    let ghost added = more.deep_view();
    let ghost before = out.deep_view();
    out.append(&mut more);
    assert(out.deep_view() =~= before + added);
}

/// Collects the bindings of a template, line by line.
pub fn collect_assignments(grammar: &Grammar, lines: &Vec<(usize, String)>) -> (r: Vec<
    SignalAssignment,
>)
    ensures
        r.deep_view() == assignments_of(lines.deep_view()),
{
    let ghost spec_lines = lines.deep_view();
    let mut out: Vec<SignalAssignment> = Vec::new();
    let mut i: usize = 0;
    while i < lines.len()
        invariant
            spec_lines == lines.deep_view(),
            i <= lines.len(),
            out.deep_view() == assignments_upto(spec_lines, i as int),
        decreases lines.len() - i,
    {
        let code = strip_comment(lines[i].1.as_str());
        let unconstrained = grammar.unconstrained().capture(code.as_str(), 1);
        let constrained = grammar.constrained().capture(code.as_str(), 1);
        let equality = grammar.equality().capture(code.as_str(), 1);
        let tautological = self_equality(grammar, code.as_str());
        let found = bindings_of_line(lines[i].0, unconstrained, constrained, equality, tautological);
        assert(spec_lines[i as int] == (lines[i as int].0, lines[i as int].1@));
        append_assignments(&mut out, found);
        i += 1;
    }
    out
}

/// Whether a token is a reserved word of the circuit language.
pub open spec fn is_reserved(token: Seq<char>) -> bool {
    token == "template"@ || token == "signal"@ || token == "input"@ || token == "output"@ || token
        == "component"@ || token == "var"@ || token == "for"@ || token == "if"@ || token == "else"@
        || token == "while"@ || token == "return"@ || token == "function"@ || token == "pragma"@
        || token == "include"@
}

/// Whether a token is a reserved word of the circuit language.
pub fn is_keyword(token: &str) -> (b: bool)
    ensures
        b == is_reserved(token@),
{
    same_text(token, "template") || same_text(token, "signal") || same_text(token, "input")
        || same_text(token, "output") || same_text(token, "component") || same_text(token, "var")
        || same_text(token, "for") || same_text(token, "if") || same_text(token, "else")
        || same_text(token, "while") || same_text(token, "return") || same_text(
        token,
        "function",
    ) || same_text(token, "pragma") || same_text(token, "include")
}

/// Whether a line of code holds a constraint operator, `<==` or `===`.
pub open spec fn has_constraint_operator(code: Seq<char>) -> bool {
    has_substring(code, OP_CONSTRAINED@) || has_substring(code, OP_EQUALITY@)
}

/// Whether a line of code constrains something: it holds `<==` or `===` and
/// is no tautological equality.
pub open spec fn is_constraint_code(code: Seq<char>) -> bool {
    has_constraint_operator(code) && !is_self_equality(code)
}

/// Whether a line of code constrains something.
pub fn constraint_code(grammar: &Grammar, code: &str) -> (b: bool)
    ensures
        b == is_constraint_code(code@),
{
    if !contains_text(code, OP_CONSTRAINED) && !contains_text(code, OP_EQUALITY) {
        return false;
    }
    !self_equality(grammar, code)
}

/// Of the identifier matches of a line, the first `n` as tokens: group 1 of
/// each, reserved words left out.  With `normalize`, each token is given
/// without its indices.
pub open spec fn tokens_upto(matches: Seq<Seq<Seq<char>>>, n: int, normalize: bool) -> Seq<
    Seq<char>,
>
    decreases n,
{
    if n <= 0 {
        Seq::empty()
    } else {
        let groups = matches[n - 1];
        if groups.len() > 1 && !is_reserved(groups[1]) {
            tokens_upto(matches, n - 1, normalize).push(
                if normalize {
                    normalized(groups[1])
                } else {
                    groups[1]
                },
            )
        } else {
            tokens_upto(matches, n - 1, normalize)
        }
    }
}

/// The identifier tokens of a line of code, reserved words left out.  A
/// dotted name such as `a.b` is one token.
pub open spec fn tokens_of(code: Seq<char>, normalize: bool) -> Seq<Seq<char>> {
    let matches = pattern_groups_all(IDENT@, code);
    tokens_upto(matches, matches.len() as int, normalize)
}

/// The set `base` with the first `k` of the items put in.
pub open spec fn inserted(base: Set<Seq<char>>, items: Seq<Seq<char>>, k: int) -> Set<Seq<char>>
    decreases k,
{
    if k <= 0 {
        base
    } else {
        inserted(base, items, k - 1).insert(items[k - 1])
    }
}

/// The set `base` with all the items put in.
pub open spec fn with_all(base: Set<Seq<char>>, items: Seq<Seq<char>>) -> Set<Seq<char>> {
    inserted(base, items, items.len() as int)
}

/// Puts the identifier tokens of a line of code into a set.
pub fn insert_tokens(grammar: &Grammar, set: &mut TextSet, code: &str, normalize: bool)
    ensures
        final(set)@ == with_all(old(set)@, tokens_of(code@, normalize)),
{
    let matches = grammar.ident().groups_all(code);
    let ghost spec_matches = matches.deep_view();
    let ghost base = set@;
    let ghost mut tokens: Seq<Seq<char>> = Seq::empty();
    let mut i: usize = 0;
    while i < matches.len()
        invariant
            spec_matches == matches.deep_view(),
            i <= matches.len(),
            tokens == tokens_upto(spec_matches, i as int, normalize),
            set@ == inserted(base, tokens, tokens.len() as int),
        decreases matches.len() - i,
    {
        let groups = &matches[i];
        assert(spec_matches[i as int] == groups.deep_view());
        if groups.len() > 1 {
            assert(groups.deep_view()[1] == groups[1]@);
            if !is_keyword(groups[1].as_str()) {
                let token = if normalize {
                    normalize_signal(groups[1].as_str())
                } else {
                    groups[1].clone()
                };
                let ghost old_tokens = tokens;
                proof {
                    tokens = tokens.push(token@);
                    lemma_inserted_prefix(base, old_tokens, tokens, old_tokens.len() as int);
                }
                set.insert(token);
            }
        }
        i += 1;
    }
}

/// `inserted` looks only at the items it puts in.
pub proof fn lemma_inserted_prefix(
    base: Set<Seq<char>>,
    a: Seq<Seq<char>>,
    b: Seq<Seq<char>>,
    k: int,
)
    requires
        0 <= k <= a.len(),
        k <= b.len(),
        forall|j: int| 0 <= j < k ==> a[j] == b[j],
    ensures
        inserted(base, a, k) == inserted(base, b, k),
    decreases k,
{
    if k > 0 {
        lemma_inserted_prefix(base, a, b, k - 1);
    }
}

/// The names that the constraints of the first `n` lines mention: every
/// identifier token of every line that constrains something.
pub open spec fn usage_upto(lines: Seq<(usize, Seq<char>)>, n: int) -> Set<Seq<char>>
    decreases n,
{
    if n <= 0 {
        Set::empty()
    } else {
        let code = code_of(lines[n - 1].1);
        if is_constraint_code(code) {
            with_all(usage_upto(lines, n - 1), tokens_of(code, false))
        } else {
            usage_upto(lines, n - 1)
        }
    }
}

/// The names that the constraints of a template mention.
pub open spec fn usage_of(lines: Seq<(usize, Seq<char>)>) -> Set<Seq<char>> {
    usage_upto(lines, lines.len() as int)
}

/// Collects the names that the constraints of a template mention.  A
/// tautological `x === x` is no evidence that `x` is constrained.
pub fn collect_constraint_signal_usage(grammar: &Grammar, lines: &Vec<(usize, String)>) -> (r:
    TextSet)
    ensures
        r@ == usage_of(lines.deep_view()),
{
    let ghost spec_lines = lines.deep_view();
    let mut usage = TextSet::new();
    let mut i: usize = 0;
    while i < lines.len()
        invariant
            spec_lines == lines.deep_view(),
            i <= lines.len(),
            usage@ == usage_upto(spec_lines, i as int),
        decreases lines.len() - i,
    {
        assert(spec_lines[i as int] == (lines[i as int].0, lines[i as int].1@));
        let code = strip_comment(lines[i].1.as_str());
        if constraint_code(grammar, code.as_str()) {
            insert_tokens(grammar, &mut usage, code.as_str(), false);
        }
        i += 1;
    }
    usage
}

/// The expression that finds a signal name as a whole word.
pub open spec fn word_pattern(signal: Seq<char>) -> Seq<char> {
    WORD_EDGE@ + escaped(signal) + WORD_EDGE@
}

/// Whether a line of code mentions a signal as a whole word.
pub open spec fn mentions(code: Seq<char>, signal: Seq<char>) -> bool {
    pattern_matches(word_pattern(signal), code)
}

/// Compiles the expression that finds a signal name as a whole word.
pub fn word_shape(signal: &str) -> (r: Shape)
    ensures
        r@ == word_pattern(signal@),
{
    let quoted = escape(signal);
    let head = joined(WORD_EDGE, quoted.as_str());
    let pattern = joined(head.as_str(), WORD_EDGE);
    Shape::new(pattern.as_str())
}

/// Whether a line of code mentions a signal as a whole word.
pub fn line_mentions_signal(code: &str, signal: &str) -> (b: bool)
    ensures
        b == mentions(code@, signal@),
{
    word_shape(signal).is_match(code)
}

/// Whether a line lies in the window after an assignment and constrains the
/// assigned signal.
pub open spec fn constrains_locally(
    line: (usize, Seq<char>),
    assignment_line: usize,
    signal: Seq<char>,
) -> bool {
    assignment_line < line.0 && line.0 - assignment_line <= LOCAL_WINDOW_LINES
        && is_constraint_code(code_of(line.1)) && mentions(code_of(line.1), signal)
}

/// The signal that line `k` assigns with `<--`, if a line of the template
/// constrains it within the window.
pub open spec fn locally_constrained_at(lines: Seq<(usize, Seq<char>)>, k: int) -> Option<
    Seq<char>,
> {
    match captured(UNCONSTRAINED@, code_of(lines[k].1), 1) {
        Some(raw) => if exists|m: int|
            0 <= m < lines.len() && constrains_locally(
                #[trigger] lines[m],
                lines[k].0,
                normalized(raw),
            ) {
            Some(normalized(raw))
        } else {
            None
        },
        None => None,
    }
}

/// The locally constrained signals among the `<--` of the first `n` lines.
pub open spec fn locally_upto(lines: Seq<(usize, Seq<char>)>, n: int) -> Set<Seq<char>>
    decreases n,
{
    if n <= 0 {
        Set::empty()
    } else {
        match locally_constrained_at(lines, n - 1) {
            Some(signal) => locally_upto(lines, n - 1).insert(signal),
            None => locally_upto(lines, n - 1),
        }
    }
}

/// The signals of a template that are assigned with `<--` and constrained
/// within the twelve lines that follow.
pub open spec fn locally_constrained_of(lines: Seq<(usize, Seq<char>)>) -> Set<Seq<char>> {
    locally_upto(lines, lines.len() as int)
}

/// Whether some line constrains the signal within the window after the
/// assignment.
pub fn constrained_in_window(
    grammar: &Grammar,
    lines: &Vec<(usize, String)>,
    assignment_line: usize,
    signal: &str,
) -> (b: bool)
    ensures
        b == exists|m: int|
            0 <= m < lines.len() && constrains_locally(
                #[trigger] lines.deep_view()[m],
                assignment_line,
                signal@,
            ),
{
    let ghost spec_lines = lines.deep_view();
    let word = word_shape(signal);
    let mut m: usize = 0;
    while m < lines.len()
        invariant
            spec_lines == lines.deep_view(),
            word@ == word_pattern(signal@),
            m <= lines.len(),
            forall|j: int|
                0 <= j < m ==> !constrains_locally(
                    #[trigger] spec_lines[j],
                    assignment_line,
                    signal@,
                ),
        decreases lines.len() - m,
    {
        assert(spec_lines[m as int] == (lines[m as int].0, lines[m as int].1@));
        let line_no = lines[m].0;
        if line_no > assignment_line && line_no - assignment_line <= LOCAL_WINDOW_LINES {
            let code = strip_comment(lines[m].1.as_str());
            if constraint_code(grammar, code.as_str()) && word.is_match(code.as_str()) {
                return true;
            }
        }
        m += 1;
    }
    false
}

/// Collects the signals that are constrained shortly after their `<--`.
pub fn collect_locally_constrained_signals(grammar: &Grammar, lines: &Vec<(usize, String)>) -> (r:
    TextSet)
    ensures
        r@ == locally_constrained_of(lines.deep_view()),
{
    let ghost spec_lines = lines.deep_view();
    let mut out = TextSet::new();
    let mut k: usize = 0;
    while k < lines.len()
        invariant
            spec_lines == lines.deep_view(),
            k <= lines.len(),
            out@ == locally_upto(spec_lines, k as int),
        decreases lines.len() - k,
    {
        assert(spec_lines[k as int] == (lines[k as int].0, lines[k as int].1@));
        let code = strip_comment(lines[k].1.as_str());
        match grammar.unconstrained().capture(code.as_str(), 1) {
            Some(raw) => {
                let signal = normalize_signal(raw.as_str());
                if constrained_in_window(grammar, lines, lines[k].0, signal.as_str()) {
                    out.insert(signal);
                }
            },
            None => {},
        }
        k += 1;
    }
    out
}

/// A line that constrains something, with what the guards read of it.
#[derive(Debug)]
pub struct ConstraintLine {
    pub line_no: usize,
    /// The line without its trailing comment.
    pub text: String,
    /// The identifier tokens of the line, without indices.
    pub tokens: TextSet,
    pub has_numeric_literal: bool,
    pub has_multiplication: bool,
    pub has_add_or_sub: bool,
}

/// The model of a `ConstraintLine`.
pub struct ConstraintLineView {
    pub line_no: usize,
    pub text: Seq<char>,
    pub tokens: Set<Seq<char>>,
    pub has_numeric_literal: bool,
    pub has_multiplication: bool,
    pub has_add_or_sub: bool,
}

impl DeepView for ConstraintLine {
    type V = ConstraintLineView;

    open spec fn deep_view(&self) -> ConstraintLineView {
        ConstraintLineView {
            line_no: self.line_no,
            text: self.text@,
            tokens: self.tokens@,
            has_numeric_literal: self.has_numeric_literal,
            has_multiplication: self.has_multiplication,
            has_add_or_sub: self.has_add_or_sub,
        }
    }
}

/// What the guards read of a line of code that constrains something.
pub open spec fn constraint_line(number: usize, code: Seq<char>) -> ConstraintLineView {
    ConstraintLineView {
        line_no: number,
        text: code,
        tokens: with_all(Set::empty(), tokens_of(code, true)),
        has_numeric_literal: pattern_matches(NUMERIC_LITERAL@, code),
        has_multiplication: code.contains('*'),
        has_add_or_sub: code.contains('+') || code.contains('-'),
    }
}

/// The constraint lines among the first `n` lines.
pub open spec fn constraint_lines_upto(lines: Seq<(usize, Seq<char>)>, n: int) -> Seq<
    ConstraintLineView,
>
    decreases n,
{
    if n <= 0 {
        Seq::empty()
    } else {
        let code = code_of(lines[n - 1].1);
        if is_constraint_code(code) {
            constraint_lines_upto(lines, n - 1).push(constraint_line(lines[n - 1].0, code))
        } else {
            constraint_lines_upto(lines, n - 1)
        }
    }
}

/// The lines of a template that constrain something, in order.
pub open spec fn constraint_lines_of(lines: Seq<(usize, Seq<char>)>) -> Seq<ConstraintLineView> {
    constraint_lines_upto(lines, lines.len() as int)
}

/// Collects the lines that hold `<==` or `===` and are no tautology.
pub fn collect_non_taut_constraint_lines(grammar: &Grammar, lines: &Vec<(usize, String)>) -> (r:
    Vec<ConstraintLine>)
    ensures
        r.deep_view() == constraint_lines_of(lines.deep_view()),
{
    let ghost spec_lines = lines.deep_view();
    let mut out: Vec<ConstraintLine> = Vec::new();
    let mut i: usize = 0;
    while i < lines.len()
        invariant
            spec_lines == lines.deep_view(),
            i <= lines.len(),
            out.deep_view() == constraint_lines_upto(spec_lines, i as int),
        decreases lines.len() - i,
    {
        assert(spec_lines[i as int] == (lines[i as int].0, lines[i as int].1@));
        let code = strip_comment(lines[i].1.as_str());
        if constraint_code(grammar, code.as_str()) {
            let mut tokens = TextSet::new();
            insert_tokens(grammar, &mut tokens, code.as_str(), true);
            let has_numeric_literal = grammar.numeric_literal().is_match(code.as_str());
            let has_multiplication = contains_char(code.as_str(), '*');
            let has_add_or_sub = contains_char(code.as_str(), '+') || contains_char(
                code.as_str(),
                '-',
            );
            let ghost before = out.deep_view();
            let line = ConstraintLine {
                line_no: lines[i].0,
                text: code,
                tokens,
                has_numeric_literal,
                has_multiplication,
                has_add_or_sub,
            };
            assert(line.deep_view() == constraint_line(lines[i as int].0, code_of(lines[i as int].1@)));
            out.push(line);
            assert(out.deep_view() =~= before.push(
                constraint_line(lines[i as int].0, code_of(lines[i as int].1@)),
            ));
        }
        i += 1;
    }
    out
}

/// A wiring `component.port <== signal`.
#[derive(Debug)]
pub struct PortWiring {
    pub line_no: usize,
    pub component: String,
    pub port: String,
    pub signal: String,
}

/// The model of a `PortWiring`.
pub struct PortWiringView {
    pub line_no: usize,
    pub component: Seq<char>,
    pub port: Seq<char>,
    pub signal: Seq<char>,
}

impl DeepView for PortWiring {
    type V = PortWiringView;

    open spec fn deep_view(&self) -> PortWiringView {
        PortWiringView {
            line_no: self.line_no,
            component: self.component@,
            port: self.port@,
            signal: self.signal@,
        }
    }
}

/// Of the wiring matches of a line, the first `n` as wirings.
pub open spec fn wirings_in(number: usize, matches: Seq<Seq<Seq<char>>>, n: int) -> Seq<
    PortWiringView,
>
    decreases n,
{
    if n <= 0 {
        Seq::empty()
    } else {
        let g = matches[n - 1];
        if g.len() > 3 {
            wirings_in(number, matches, n - 1).push(
                PortWiringView { line_no: number, component: g[1], port: g[2], signal: g[3] },
            )
        } else {
            wirings_in(number, matches, n - 1)
        }
    }
}

/// The wirings of one line, left to right.
pub open spec fn line_wirings(number: usize, text: Seq<char>) -> Seq<PortWiringView> {
    let matches = pattern_groups_all(PORT_WIRING@, code_of(text));
    wirings_in(number, matches, matches.len() as int)
}

/// The wirings of the first `n` lines.
pub open spec fn wirings_upto(lines: Seq<(usize, Seq<char>)>, n: int) -> Seq<PortWiringView>
    decreases n,
{
    if n <= 0 {
        Seq::empty()
    } else {
        wirings_upto(lines, n - 1) + line_wirings(lines[n - 1].0, lines[n - 1].1)
    }
}

/// The wirings of a template, in line order.
pub open spec fn wirings_of(lines: Seq<(usize, Seq<char>)>) -> Seq<PortWiringView> {
    wirings_upto(lines, lines.len() as int)
}

/// Collects the wirings of component ports in a template.
pub fn collect_port_wirings(grammar: &Grammar, lines: &Vec<(usize, String)>) -> (r: Vec<PortWiring>)
    ensures
        r.deep_view() == wirings_of(lines.deep_view()),
{
    let ghost spec_lines = lines.deep_view();
    let mut out: Vec<PortWiring> = Vec::new();
    let mut i: usize = 0;
    while i < lines.len()
        invariant
            spec_lines == lines.deep_view(),
            i <= lines.len(),
            out.deep_view() == wirings_upto(spec_lines, i as int),
        decreases lines.len() - i,
    {
        assert(spec_lines[i as int] == (lines[i as int].0, lines[i as int].1@));
        let code = strip_comment(lines[i].1.as_str());
        let matches = grammar.port_wiring().groups_all(code.as_str());
        let ghost spec_matches = matches.deep_view();
        let ghost base = out.deep_view();
        let number = lines[i].0;
        let mut k: usize = 0;
        assert(out.deep_view() =~= base + wirings_in(number, spec_matches, 0));
        while k < matches.len()
            invariant
                spec_matches == matches.deep_view(),
                k <= matches.len(),
                out.deep_view() == base + wirings_in(number, spec_matches, k as int),
            decreases matches.len() - k,
        {
            let g = &matches[k];
            assert(spec_matches[k as int] == g.deep_view());
            if g.len() > 3 {
                let ghost before = out.deep_view();
                let wiring = PortWiring {
                    line_no: number,
                    component: g[1].clone(),
                    port: g[2].clone(),
                    signal: g[3].clone(),
                };
                assert(g.deep_view()[1] == g[1]@);
                assert(g.deep_view()[2] == g[2]@);
                assert(g.deep_view()[3] == g[3]@);
                out.push(wiring);
                assert(out.deep_view() =~= before.push(
                    PortWiringView {
                        line_no: number,
                        component: g[1]@,
                        port: g[2]@,
                        signal: g[3]@,
                    },
                ));
                assert(out.deep_view() =~= base + wirings_in(number, spec_matches, k + 1));
            }
            k += 1;
        }
        i += 1;
    }
    out
}

} // verus!
