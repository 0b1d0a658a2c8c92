//! The scanner: a matcher together with the rules that say which paths a
//! walk over a file tree leaves out.
//!
//! The walk itself is the caller's part.  For each path the caller asks
//! here whether the path is ignored, handing over the path as text and its
//! components.

use vstd::prelude::*;
use vstd::string::*;
use crate::engine::{pattern_matches, regex_compiles, Shape};
use crate::matcher::{scanned, PatternMatcher};
use crate::text::{
    chars_of, contains_char, contains_text, has_substring, same_text, string_of, trim,
    trimmed,
};
use crate::types::PatternMatch;

verus! {

/// One rule of an ignore list.
pub enum IgnoreRule {
    /// A directory name: matches any path with a component of that name.
    Directory(String),
    /// A glob, compiled to an anchored expression.  It is tested against
    /// each component of a path, or against the whole path where the glob
    /// holds a `/`.
    Glob { regex: Shape, match_components: bool },
    /// A text: matches a path with a component equal to it, or, where the
    /// text holds a `/`, a path that holds the text.
    Literal { value: String, match_components: bool },
}

/// The model of an `IgnoreRule`; a glob is modelled by the text of its
/// expression.  An expression that does not compile matches nothing.
pub enum RuleView {
    Directory(Seq<char>),
    Glob { pattern: Seq<char>, match_components: bool },
    Literal { value: Seq<char>, match_components: bool },
}

impl View for IgnoreRule {
    type V = RuleView;

    open spec fn view(&self) -> RuleView {
        match self {
            IgnoreRule::Directory(dir) => RuleView::Directory(dir@),
            IgnoreRule::Glob { regex, match_components } => RuleView::Glob {
                pattern: regex@,
                match_components: *match_components,
            },
            IgnoreRule::Literal { value, match_components } => RuleView::Literal {
                value: value@,
                match_components: *match_components,
            },
        }
    }
}

/// Whether a character has a meaning of its own in an expression and is
/// written with a backslash when a glob is compiled.
pub open spec fn is_glob_escaped(c: char) -> bool {
    c == '.' || c == '+' || c == '(' || c == ')' || c == '|' || c == '^' || c == '$' || c == '{'
        || c == '}' || c == '[' || c == ']' || c == '\\'
}

/// What one character of a glob becomes in the expression: `*` any run of
/// characters other than `/`, `?` one character other than `/`, any other
/// character itself.
pub open spec fn glob_char(c: char) -> Seq<char> {
    if c == '*' {
        seq!['[', '^', '/', ']', '*']
    } else if c == '?' {
        seq!['[', '^', '/', ']']
    } else if is_glob_escaped(c) {
        seq!['\\', c]
    } else {
        seq![c]
    }
}

/// What the first `n` characters of a glob become.
pub open spec fn glob_body(glob: Seq<char>, n: int) -> Seq<char>
    decreases n,
{
    if n <= 0 {
        Seq::empty()
    } else {
        glob_body(glob, n - 1) + glob_char(glob[n - 1])
    }
}

/// The anchored expression of a glob.
pub open spec fn glob_pattern(glob: Seq<char>) -> Seq<char> {
    seq!['^'] + glob_body(glob, glob.len() as int) + seq!['$']
}

/// Writes the anchored expression of a glob.
pub fn glob_to_pattern(glob: &str) -> (r: String)
    ensures
        r@ == glob_pattern(glob@),
{
    let chars = chars_of(glob);
    let mut out: Vec<char> = Vec::new();
    out.push('^');
    let mut i: usize = 0;
    assert(out@ =~= seq!['^'] + glob_body(chars@, 0));
    while i < chars.len()
        invariant
            i <= chars.len(),
            out@ == seq!['^'] + glob_body(chars@, i as int),
        decreases chars.len() - i,
    {
        let c = chars[i];
        let ghost before = out@;
        if c == '*' {
            out.push('[');
            out.push('^');
            out.push('/');
            out.push(']');
            out.push('*');
        } else if c == '?' {
            out.push('[');
            out.push('^');
            out.push('/');
            out.push(']');
        } else if c == '.' || c == '+' || c == '(' || c == ')' || c == '|' || c == '^' || c == '$'
            || c == '{' || c == '}' || c == '[' || c == ']' || c == '\\' {
            out.push('\\');
            out.push(c);
        } else {
            out.push(c);
        }
        assert(out@ =~= before + glob_char(c));
        assert(out@ =~= seq!['^'] + (glob_body(chars@, i as int) + glob_char(c)));
        i += 1;
    }
    let ghost body = out@;
    out.push('$');
    assert(out@ =~= body + seq!['$']);
    string_of(&out)
}

/// Compiles a glob to its anchored expression; `None` where the expression
/// does not compile.
pub fn glob_to_regex(glob: &str) -> (r: Option<Shape>)
    ensures
        r is Some <==> regex_compiles(glob_pattern(glob@)),
        r matches Some(shape) ==> shape@ == glob_pattern(glob@),
{
    let pattern = glob_to_pattern(glob);
    let shape = Shape::new(pattern.as_str());
    if shape.compiles() {
        Some(shape)
    } else {
        None
    }
}

/// The number of `/` at the end of a text.
pub open spec fn trailing_slashes(s: Seq<char>) -> int
    decreases s.len(),
{
    if s.len() > 0 && s.last() == '/' {
        1 + trailing_slashes(s.drop_last())
    } else {
        0
    }
}

/// A text without the `/` at its end.
pub open spec fn without_trailing_slashes(s: Seq<char>) -> Seq<char> {
    s.take(s.len() - trailing_slashes(s))
}

proof fn lemma_trailing_slashes(s: Seq<char>, k: int)
    requires
        0 <= k <= s.len(),
        forall|j: int| s.len() - k <= j < s.len() ==> s[j] == '/',
        k == s.len() || s[s.len() - k - 1] != '/',
    ensures
        trailing_slashes(s) == k,
    decreases k,
{
    if k > 0 {
        lemma_trailing_slashes(s.drop_last(), k - 1);
    }
}

/// Takes the `/` off the end of a text.
pub fn strip_trailing_slashes(s: &str) -> (r: String)
    ensures
        r@ == without_trailing_slashes(s@),
{
    let chars = chars_of(s);
    let n = chars.len();
    let mut b: usize = n;
    while b > 0 && chars[b - 1] == '/'
        invariant
            n == chars.len(),
            b <= n,
            forall|j: int| b <= j < n ==> chars@[j] == '/',
        decreases b,
    {
        b -= 1;
    }
    proof {
        lemma_trailing_slashes(chars@, (n - b) as int);
    }
    let mut out: Vec<char> = Vec::new();
    let mut i: usize = 0;
    while i < b
        invariant
            i <= b <= n,
            n == chars.len(),
            out@ == chars@.take(i as int),
        decreases b - i,
    {
        out.push(chars[i]);
        assert(out@ =~= chars@.take(i + 1));
        i += 1;
    }
    string_of(&out)
}

/// What a line of an ignore list asks for, once trimmed.  Nothing, where
/// the line is empty or names no directory; a directory, where it ends in
/// `/`; a glob, where it holds `*` or `?`; else a text.
pub enum RuleShape {
    Nothing,
    Directory(Seq<char>),
    Glob(Seq<char>),
    Literal(Seq<char>),
}

/// The shape of the rule that a line of an ignore list asks for.
pub open spec fn rule_shape(line: Seq<char>) -> RuleShape {
    let pattern = trim(line);
    if pattern.len() == 0 {
        RuleShape::Nothing
    } else if pattern.last() == '/' {
        let dir = trim(without_trailing_slashes(pattern));
        if dir.len() == 0 {
            RuleShape::Nothing
        } else {
            RuleShape::Directory(dir)
        }
    } else if pattern.contains('*') || pattern.contains('?') {
        RuleShape::Glob(pattern)
    } else {
        RuleShape::Literal(pattern)
    }
}

/// The rule that a line of an ignore list gives, if any.  A glob whose
/// expression does not compile gives none.
pub open spec fn rule_of(line: Seq<char>) -> Option<RuleView> {
    match rule_shape(line) {
        RuleShape::Nothing => None,
        RuleShape::Directory(dir) => Some(RuleView::Directory(dir)),
        RuleShape::Glob(glob) => if regex_compiles(glob_pattern(glob)) {
            Some(
                RuleView::Glob {
                    pattern: glob_pattern(glob),
                    match_components: !glob.contains('/'),
                },
            )
        } else {
            None
        },
        RuleShape::Literal(value) => Some(
            RuleView::Literal { value, match_components: !value.contains('/') },
        ),
    }
}

/// Whether some component is the text.
pub open spec fn has_component(components: Seq<Seq<char>>, name: Seq<char>) -> bool {
    exists|i: int| 0 <= i < components.len() && #[trigger] components[i] == name
}

/// Whether the expression matches some component.
pub open spec fn component_matches(components: Seq<Seq<char>>, pattern: Seq<char>) -> bool {
    exists|i: int| 0 <= i < components.len() && pattern_matches(pattern, #[trigger] components[i])
}

/// Whether a rule matches a path, given as text and as its components.
pub open spec fn rule_matches(rule: RuleView, path: Seq<char>, components: Seq<Seq<char>>) -> bool {
    match rule {
        RuleView::Directory(dir) => has_component(components, dir),
        RuleView::Glob { pattern, match_components } => if match_components {
            component_matches(components, pattern)
        } else {
            pattern_matches(pattern, path)
        },
        RuleView::Literal { value, match_components } => if match_components {
            has_component(components, value)
        } else {
            has_substring(path, value)
        },
    }
}

/// Whether some component is the text.
#[verifier::loop_isolation(false)]
pub fn any_component_is(components: &Vec<String>, name: &str) -> (b: bool)
    ensures
        b == has_component(components.deep_view(), name@),
{
    let ghost cs = components.deep_view();
    let mut i: usize = 0;
    while i < components.len()
        invariant
            i <= components.len(),
            forall|k: int| 0 <= k < i ==> #[trigger] cs[k] != name@,
        decreases components.len() - i,
    {
        assert(cs[i as int] == components[i as int]@);
        if same_text(components[i].as_str(), name) {
            return true;
        }
        i += 1;
    }
    false
}

impl IgnoreRule {
    /// Reads one line of an ignore list.
    pub fn from_pattern(pattern: &str) -> (r: Option<IgnoreRule>)
        ensures
            match r {
                Some(rule) => rule_of(pattern@) == Some(rule@),
                None => rule_of(pattern@) is None,
            },
    {
        let pattern = trimmed(pattern);
        let chars = chars_of(pattern.as_str());
        if chars.len() == 0 {
            return None;
        }
        if chars[chars.len() - 1] == '/' {
            let stripped = strip_trailing_slashes(pattern.as_str());
            let dir = trimmed(stripped.as_str());
            if chars_of(dir.as_str()).len() == 0 {
                return None;
            }
            return Some(IgnoreRule::Directory(dir));
        }
        let match_components = !contains_char(pattern.as_str(), '/');
        if contains_char(pattern.as_str(), '*') || contains_char(pattern.as_str(), '?') {
            return match glob_to_regex(pattern.as_str()) {
                Some(regex) => Some(IgnoreRule::Glob { regex, match_components }),
                None => None,
            };
        }
        Some(IgnoreRule::Literal { value: pattern, match_components })
    }

    /// Whether the rule matches a path, given as text and as its
    /// components.
    #[verifier::loop_isolation(false)]
    pub fn matches(&self, path: &str, components: &Vec<String>) -> (b: bool)
        ensures
            b == rule_matches(self@, path@, components.deep_view()),
    {
        let ghost cs = components.deep_view();
        match self {
            IgnoreRule::Directory(dir) => any_component_is(components, dir.as_str()),
            IgnoreRule::Glob { regex, match_components } => {
                if *match_components {
                    let mut i: usize = 0;
                    while i < components.len()
                        invariant
                            i <= components.len(),
                            forall|k: int|
                                0 <= k < i ==> !pattern_matches(regex@, #[trigger] cs[k]),
                        decreases components.len() - i,
                    {
                        assert(cs[i as int] == components[i as int]@);
                        if regex.is_match(components[i].as_str()) {
                            return true;
                        }
                        i += 1;
                    }
                    false
                } else {
                    regex.is_match(path)
                }
            },
            IgnoreRule::Literal { value, match_components } => {
                if *match_components {
                    any_component_is(components, value.as_str())
                } else {
                    contains_text(path, value.as_str())
                }
            },
        }
    }
}

/// The rules that the first `n` lines of an ignore list give.
pub open spec fn rules_upto(patterns: Seq<Seq<char>>, n: int) -> Seq<RuleView>
    decreases n,
{
    if n <= 0 {
        Seq::empty()
    } else {
        match rule_of(patterns[n - 1]) {
            Some(rule) => rules_upto(patterns, n - 1).push(rule),
            None => rules_upto(patterns, n - 1),
        }
    }
}

/// The models of a list of rules.
pub open spec fn rule_views(rules: Seq<IgnoreRule>) -> Seq<RuleView> {
    Seq::new(rules.len(), |i: int| rules[i]@)
}

/// Whether some rule matches the path.
pub open spec fn ignored_by(rules: Seq<RuleView>, path: Seq<char>, components: Seq<Seq<char>>) -> bool {
    exists|i: int| 0 <= i < rules.len() && rule_matches(#[trigger] rules[i], path, components)
}

/// A matcher with an ignore list.
pub struct Scanner {
    matcher: PatternMatcher,
    ignore_rules: Vec<IgnoreRule>,
}

impl Scanner {
    /// The rules of the scanner.
    pub closed spec fn rules(&self) -> Seq<RuleView> {
        rule_views(self.ignore_rules@)
    }

    /// The matcher of the scanner.
    pub closed spec fn matcher(&self) -> PatternMatcher {
        self.matcher
    }

    /// A scanner for a matcher and the lines of an ignore list.  A line that
    /// gives no rule is left out.
    pub fn new(matcher: PatternMatcher, ignore_patterns: Vec<String>) -> (r: Scanner)
        ensures
            r.matcher() == matcher,
            r.rules() == rules_upto(ignore_patterns.deep_view(), ignore_patterns.len() as int),
    {
        let ghost ps = ignore_patterns.deep_view();
        let mut ignore_rules: Vec<IgnoreRule> = Vec::new();
        let mut i: usize = 0;
        assert(rule_views(ignore_rules@) =~= rules_upto(ps, 0));
        while i < ignore_patterns.len()
            invariant
                ps == ignore_patterns.deep_view(),
                i <= ignore_patterns.len(),
                rule_views(ignore_rules@) == rules_upto(ps, i as int),
            decreases ignore_patterns.len() - i,
        {
            assert(ps[i as int] == ignore_patterns[i as int]@);
            let ghost before = rule_views(ignore_rules@);
            match IgnoreRule::from_pattern(ignore_patterns[i].as_str()) {
                Some(rule) => {
                    let ghost rv = rule@;
                    ignore_rules.push(rule);
                    assert(rule_views(ignore_rules@) =~= before.push(rv));
                },
                None => {},
            }
            i += 1;
        }
        Scanner { matcher, ignore_rules }
    }

    /// Whether the walk leaves a path out: some rule matches it.
    #[verifier::loop_isolation(false)]
    pub fn should_ignore(&self, path: &str, components: &Vec<String>) -> (b: bool)
        ensures
            b == ignored_by(self.rules(), path@, components.deep_view()),
    {
        let ghost rules = self.rules();
        let mut i: usize = 0;
        while i < self.ignore_rules.len()
            invariant
                i <= self.ignore_rules.len(),
                forall|k: int|
                    0 <= k < i ==> !rule_matches(#[trigger] rules[k], path@, components.deep_view()),
            decreases self.ignore_rules.len() - i,
        {
            assert(rules[i as int] == self.ignore_rules[i as int]@);
            if self.ignore_rules[i].matches(path, components) {
                return true;
            }
            i += 1;
        }
        false
    }

    /// Scans the text of one file with the matcher of the scanner.
    pub fn scan_text(&self, text: &str) -> (r: Vec<PatternMatch>)
        ensures
            r.deep_view() == scanned(
                self.matcher().patterns(),
                self.matcher().limits().max_matches,
                self.matcher().semantic(),
                text@,
            ),
    {
        self.matcher.scan_text(text)
    }

    /// The matcher of the scanner.
    pub fn get_matcher(&self) -> (r: &PatternMatcher)
        ensures
            *r == self.matcher(),
    {
        &self.matcher
    }
}

} // verus!
