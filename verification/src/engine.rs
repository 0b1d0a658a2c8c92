//! The boundary to the two regular-expression engines.
//!
//! Everything the library knows about regular expressions is stated here, as
//! contracts that Verus takes on trust.  What an engine answers is a function
//! of the pattern text and of the searched text alone, so each answer gets a
//! name; the rest of the library is verified against those names.
//!
//! The contracts hold of expressions compiled with the engines' default
//! options.  The trusted functions are private to the library, and every
//! compiled expression that reaches them was built by `compile` or
//! `compile_fancy` and is held in a private field: of a `Shape`, or of a
//! matcher.  No public function takes a compiled expression from outside.

use vstd::prelude::*;

verus! {

/// `regex::Regex`, a compiled expression of the plain engine.
#[verifier::external_type_specification]
#[verifier::external_body]
pub struct ExRegex(regex::Regex);

/// `regex::Error`, why the plain engine refuses an expression.
#[verifier::external_type_specification]
#[verifier::external_body]
pub struct ExRegexError(regex::Error);

/// `fancy_regex::Regex`, a compiled expression of the backtracking engine.
#[verifier::external_type_specification]
#[verifier::external_body]
pub struct ExFancyRegex(fancy_regex::Regex);

/// `fancy_regex::Error`, why the backtracking engine refuses an expression.
#[verifier::external_type_specification]
#[verifier::external_body]
pub struct ExFancyError(fancy_regex::Error);

/// The pattern text that a compiled expression holds (`Regex::as_str`).
pub uninterp spec fn regex_source(re: regex::Regex) -> Seq<char>;

/// Whether `Regex::new` accepts the pattern text.
pub uninterp spec fn regex_compiles(pattern: Seq<char>) -> bool;

/// What `Regex::is_match` answers for a pattern and a text.
pub uninterp spec fn regex_is_match(pattern: Seq<char>, text: Seq<char>) -> bool;

/// What `Regex::find_iter` yields: for each successive non-overlapping match,
/// the byte offset of its start and the matched text.
pub uninterp spec fn regex_find_all(pattern: Seq<char>, text: Seq<char>) -> Seq<(usize, Seq<char>)>;

/// What `Regex::captures` yields for the leftmost match: the text of each
/// group, group 0 being the whole match, or `None` for a group that took no
/// part in the match.
pub uninterp spec fn regex_captures(pattern: Seq<char>, text: Seq<char>) -> Option<
    Seq<Option<Seq<char>>>,
>;

/// What `Regex::captures_iter` yields: the groups of each successive
/// non-overlapping match.
pub uninterp spec fn regex_captures_all(pattern: Seq<char>, text: Seq<char>) -> Seq<
    Seq<Option<Seq<char>>>,
>;

/// The pattern text that a compiled backtracking expression holds.
pub uninterp spec fn fancy_source(re: fancy_regex::Regex) -> Seq<char>;

/// Whether `fancy_regex::Regex::new` accepts the pattern text.
pub uninterp spec fn fancy_compiles(pattern: Seq<char>) -> bool;

/// What `fancy_regex::Regex::find_iter` yields: for each item, the byte offset
/// and text of a match, or `None` where the engine gave up with an error.
pub uninterp spec fn fancy_find_all(pattern: Seq<char>, text: Seq<char>) -> Seq<
    Option<(usize, Seq<char>)>,
>;

/// `Regex::new`: compiles with default options.  Trusted: it succeeds exactly
/// on the patterns named by `regex_compiles`, and the compiled expression
/// remembers the text it was built from.
#[verifier::external_body]
pub(crate) fn compile(pattern: &str) -> (r: Result<regex::Regex, regex::Error>)
    ensures
        r is Ok <==> regex_compiles(pattern@),
        r matches Ok(re) ==> regex_source(re) == pattern@,
{
    regex::Regex::new(pattern)
}

/// `Regex::is_match`.  Trusted: the answer is the one named by
/// `regex_is_match` for the expression's pattern text.
#[verifier::external_body]
pub(crate) fn is_match(re: &regex::Regex, text: &str) -> (b: bool)
    ensures
        b == regex_is_match(regex_source(*re), text@),
{
    re.is_match(text)
}

/// `Regex::find_iter`, each match handed out as its start offset and text.
/// Trusted: the matches are those named by `regex_find_all`; a start offset
/// lies inside the searched text, so it is below `usize::MAX`.
#[verifier::external_body]
pub(crate) fn find_all(re: &regex::Regex, text: &str) -> (r: Vec<(usize, String)>)
    ensures
        r.deep_view() == regex_find_all(regex_source(*re), text@),
        forall|i: int| 0 <= i < r.len() ==> (#[trigger] r[i]).0 < usize::MAX,
{
    re.find_iter(text).map(|m| (m.start(), m.as_str().to_string())).collect()
}

/// `Regex::captures`, each group handed out as its text.  Trusted: the groups
/// are those named by `regex_captures`.
#[verifier::external_body]
pub(crate) fn captures(re: &regex::Regex, text: &str) -> (r: Option<Vec<Option<String>>>)
    ensures
        r.deep_view() == regex_captures(regex_source(*re), text@),
{
    re.captures(text).map(|c| c.iter().map(|g| g.map(|m| m.as_str().to_string())).collect())
}

/// `Regex::captures_iter`, each group handed out as its text.  Trusted: the
/// matches are those named by `regex_captures_all`.
#[verifier::external_body]
pub(crate) fn captures_all(re: &regex::Regex, text: &str) -> (r: Vec<Vec<Option<String>>>)
    ensures
        r.deep_view() == regex_captures_all(regex_source(*re), text@),
{
    re.captures_iter(text).map(
        |c| c.iter().map(|g| g.map(|m| m.as_str().to_string())).collect(),
    ).collect()
}

/// `regex::escape`.  Trusted: a backslash is put before each meta character
/// and nothing else changes.
#[verifier::external_body]
pub(crate) fn escape(text: &str) -> (r: String)
    ensures
        r@ == escaped(text@),
{
    regex::escape(text)
}

/// `fancy_regex::Regex::new`: compiles with default options.  Trusted: it
/// succeeds exactly on the patterns named by `fancy_compiles`, and the
/// compiled expression remembers the text it was built from.
#[verifier::external_body]
pub(crate) fn compile_fancy(pattern: &str) -> (r: Result<fancy_regex::Regex, fancy_regex::Error>)
    ensures
        r is Ok <==> fancy_compiles(pattern@),
        r matches Ok(re) ==> fancy_source(re) == pattern@,
{
    fancy_regex::Regex::new(pattern)
}

/// `fancy_regex::Regex::find_iter`, each item handed out as its start offset
/// and text, or as `None` for an engine error.  Trusted: the items are those
/// named by `fancy_find_all`; a start offset lies inside the searched text.
#[verifier::external_body]
pub(crate) fn find_all_fancy(re: &fancy_regex::Regex, text: &str) -> (r: Vec<
    Option<(usize, String)>,
>)
    ensures
        r.deep_view() == fancy_find_all(fancy_source(*re), text@),
        forall|i: int|
            0 <= i < r.len() ==> ((#[trigger] r[i]) matches Some(hit) ==> hit.0 < usize::MAX),
{
    re.find_iter(text).map(|m| m.ok().map(|m| (m.start(), m.as_str().to_string()))).collect()
}

/// The message of a compile error of the plain engine (`Display`).
#[verifier::external_body]
pub(crate) fn error_text(error: &regex::Error) -> (r: String) {
    error.to_string()
}

/// The message of a compile error of the backtracking engine (`Display`).
#[verifier::external_body]
pub(crate) fn fancy_error_text(error: &fancy_regex::Error) -> (r: String) {
    error.to_string()
}

/// The characters that `regex::escape` protects.
pub open spec fn is_meta(c: char) -> bool {
    c == '\\' || c == '.' || c == '+' || c == '*' || c == '?' || c == '(' || c == ')' || c == '|'
        || c == '[' || c == ']' || c == '{' || c == '}' || c == '^' || c == '$' || c == '#' || c
        == '&' || c == '-' || c == '~'
}

/// The text with a backslash before each meta character.
pub open spec fn escaped(text: Seq<char>) -> Seq<char>
    decreases text.len(),
{
    if text.len() == 0 {
        Seq::empty()
    } else if is_meta(text.last()) {
        escaped(text.drop_last()).push('\\').push(text.last())
    } else {
        escaped(text.drop_last()).push(text.last())
    }
}

/// The outcome of a search with a pattern given as text: no match where the
/// pattern does not compile.
pub open spec fn pattern_matches(pattern: Seq<char>, text: Seq<char>) -> bool {
    regex_compiles(pattern) && regex_is_match(pattern, text)
}

/// Whether every group of a match took part in it.
pub open spec fn all_groups_present(groups: Seq<Option<Seq<char>>>) -> bool {
    forall|i: int| 0 <= i < groups.len() ==> (#[trigger] groups[i]) is Some
}

/// The texts of the groups of a match in which every group took part.
pub open spec fn group_texts(groups: Seq<Option<Seq<char>>>) -> Seq<Seq<char>> {
    Seq::new(groups.len(), |i: int| groups[i]->0)
}

/// The groups of the leftmost match of a pattern given as text; `None` where
/// the pattern does not compile, finds nothing, or leaves a group out.
pub open spec fn pattern_groups(pattern: Seq<char>, text: Seq<char>) -> Option<Seq<Seq<char>>> {
    if !regex_compiles(pattern) {
        None
    } else {
        match regex_captures(pattern, text) {
            Some(groups) => if all_groups_present(groups) {
                Some(group_texts(groups))
            } else {
                None
            },
            None => None,
        }
    }
}

/// The groups of every match of a pattern given as text, leaving out the
/// matches in which a group took no part; empty where the pattern does not
/// compile.
pub open spec fn pattern_groups_all(pattern: Seq<char>, text: Seq<char>) -> Seq<Seq<Seq<char>>> {
    if !regex_compiles(pattern) {
        Seq::empty()
    } else {
        complete_matches(regex_captures_all(pattern, text))
    }
}

/// Of a list of matches, those in which every group took part, as texts.
pub open spec fn complete_matches(all: Seq<Seq<Option<Seq<char>>>>) -> Seq<Seq<Seq<char>>>
    decreases all.len(),
{
    if all.len() == 0 {
        Seq::empty()
    } else if all_groups_present(all.last()) {
        complete_matches(all.drop_last()).push(group_texts(all.last()))
    } else {
        complete_matches(all.drop_last())
    }
}

/// Takes the texts out of a match in which every group took part.
pub fn unwrap_groups(groups: &Vec<Option<String>>) -> (r: Option<Vec<String>>)
    ensures
        r.deep_view() == if all_groups_present(groups.deep_view()) {
            Some(group_texts(groups.deep_view()))
        } else {
            None
        },
{
    let ghost all = groups.deep_view();
    let mut out: Vec<String> = Vec::new();
    let mut i: usize = 0;
    while i < groups.len()
        invariant
            all == groups.deep_view(),
            i <= groups.len(),
            out.len() == i,
            forall|k: int| 0 <= k < i ==> (#[trigger] all[k]) is Some,
            forall|k: int| 0 <= k < i ==> (#[trigger] out[k])@ == all[k]->0,
        decreases groups.len() - i,
    {
        match &groups[i] {
            Some(s) => {
                out.push(s.clone());
            },
            None => {
                assert(all[i as int] is None);
                return None;
            },
        }
        i += 1;
    }
    assert(out.deep_view() =~= group_texts(all));
    Some(out)
}

/// An expression given as text and compiled once.  Its model is its text.
pub struct Shape {
    source: String,
    compiled: Option<regex::Regex>,
}

impl View for Shape {
    type V = Seq<char>;

    closed spec fn view(&self) -> Seq<char> {
        self.source@
    }
}

impl Shape {
    #[verifier::type_invariant]
    spec fn coherent(self) -> bool {
        &&& self.compiled is Some <==> regex_compiles(self.source@)
        &&& self.compiled matches Some(re) ==> regex_source(re) == self.source@
    }

    /// Compiles an expression.  A text that does not compile gives a shape
    /// that finds nothing.
    pub fn new(pattern: &str) -> (r: Shape)
        ensures
            r@ == pattern@,
    {
        let compiled = match compile(pattern) {
            Ok(re) => Some(re),
            Err(_) => None,
        };
        Shape { source: pattern.to_owned(), compiled }
    }

    /// Whether the expression compiled.
    pub fn compiles(&self) -> (b: bool)
        ensures
            b == regex_compiles(self@),
    {
        proof {
            use_type_invariant(self);
        }
        self.compiled.is_some()
    }

    /// Searches `text` with the expression.
    pub fn is_match(&self, text: &str) -> (b: bool)
        ensures
            b == pattern_matches(self@, text@),
    {
        proof {
            use_type_invariant(self);
        }
        match &self.compiled {
            Some(re) => is_match(re, text),
            None => false,
        }
    }

    /// The groups of the leftmost match of the expression in `text`.
    pub fn groups(&self, text: &str) -> (r: Option<Vec<String>>)
        ensures
            r.deep_view() == pattern_groups(self@, text@),
    {
        proof {
            use_type_invariant(self);
        }
        match &self.compiled {
            Some(re) => match captures(re, text) {
                Some(groups) => unwrap_groups(&groups),
                None => None,
            },
            None => None,
        }
    }

    /// Group `g` of the leftmost match of the expression in `text`.
    pub fn capture(&self, text: &str, g: usize) -> (r: Option<String>)
        ensures
            r.deep_view() == captured(self@, text@, g as int),
    {
        match self.groups(text) {
            Some(groups) => if g < groups.len() {
                Some(groups[g].clone())
            } else {
                None
            },
            None => None,
        }
    }

    /// The groups of every match of the expression in `text`.
    pub fn groups_all(&self, text: &str) -> (r: Vec<Vec<String>>)
        ensures
            r.deep_view() == pattern_groups_all(self@, text@),
    {
        proof {
            use_type_invariant(self);
        }
        match &self.compiled {
            Some(re) => {
                let all = captures_all(re, text);
                let ghost spec_all = all.deep_view();
                let mut out: Vec<Vec<String>> = Vec::new();
                let mut i: usize = 0;
                while i < all.len()
                    invariant
                        spec_all == all.deep_view(),
                        i <= all.len(),
                        out.deep_view() == complete_matches(spec_all.take(i as int)),
                    decreases all.len() - i,
                {
                    let ghost before = out.deep_view();
                    proof {
                        assert(spec_all.take(i + 1).drop_last() =~= spec_all.take(i as int));
                        assert(spec_all.take(i + 1).last() == all[i as int].deep_view());
                    }
                    match unwrap_groups(&all[i]) {
                        Some(texts) => {
                            out.push(texts);
                            assert(out.deep_view() =~= before.push(group_texts(spec_all[i as int])));
                        },
                        None => {},
                    }
                    i += 1;
                }
                assert(spec_all.take(all.len() as int) =~= spec_all);
                out
            },
            None => Vec::new(),
        }
    }
}

/// Group `g` of the leftmost match of a pattern in a text.
pub open spec fn captured(pattern: Seq<char>, text: Seq<char>, g: int) -> Option<Seq<char>> {
    match pattern_groups(pattern, text) {
        Some(groups) => if 0 <= g < groups.len() {
            Some(groups[g])
        } else {
            None
        },
        None => None,
    }
}

/// Searches `text` with the pattern `pattern`.
pub fn matches_pattern(pattern: &str, text: &str) -> (b: bool)
    ensures
        b == pattern_matches(pattern@, text@),
{
    Shape::new(pattern).is_match(text)
}

/// The groups of the leftmost match of `pattern` in `text`.
pub fn groups_of(pattern: &str, text: &str) -> (r: Option<Vec<String>>)
    ensures
        r.deep_view() == pattern_groups(pattern@, text@),
{
    Shape::new(pattern).groups(text)
}

/// Group `g` of the leftmost match of `pattern` in `text`.
pub fn capture(pattern: &str, text: &str, g: usize) -> (r: Option<String>)
    ensures
        r.deep_view() == captured(pattern@, text@, g as int),
{
    Shape::new(pattern).capture(text, g)
}

} // verus!
