//! Character-level preparation of circuit source: comment stripping, signal
//! names without their indices, and the compact form of a line.
//!
//! Strings are delimited by `"` or `'`, with `\` as the escape character; a
//! line comment starts at `//`, a block comment runs from `/*` to `*/`.

use vstd::prelude::*;
use crate::text::{chars_of, is_space, space, string_of};

verus! {

/// Where a walk over source text stands.
#[derive(Debug, Clone, Copy, PartialEq, Eq, Structural)]
pub enum Mode {
    /// In code.
    Code,
    /// Inside a string that the given quote opened.
    Text(char),
    /// Inside such a string, right after a backslash.
    Escaped(char),
    /// Inside a `//` comment.
    LineComment,
    /// Inside a `/* */` comment.
    BlockComment,
}

/// Whether a character opens a string.
pub open spec fn is_quote(c: char) -> bool {
    c == '"' || c == '\''
}

/// Whether the characters `a` `b` stand at offset `i`.
pub open spec fn pair_at(s: Seq<char>, i: int, a: char, b: char) -> bool {
    0 <= i && i + 1 < s.len() && s[i] == a && s[i + 1] == b
}

/// The mode after one character of a string has been read.
pub open spec fn text_step(mode: Mode, c: char) -> Mode {
    match mode {
        Mode::Escaped(q) => Mode::Text(q),
        Mode::Text(q) => if c == '\\' {
            Mode::Escaped(q)
        } else if c == q {
            Mode::Code
        } else {
            Mode::Text(q)
        },
        other => other,
    }
}

/// What is left of the source from offset `i` on, read in mode `mode`, once
/// comments are taken out.  Strings are kept as they stand.  A line comment
/// leaves its line feed; of a block comment only its line feeds stay, so
/// that every line keeps its number.
pub open spec fn stripped_from(s: Seq<char>, i: int, mode: Mode) -> Seq<char>
    decreases s.len() - i,
{
    if i < 0 || i >= s.len() {
        Seq::empty()
    } else {
        let c = s[i];
        match mode {
            Mode::BlockComment => if pair_at(s, i, '*', '/') {
                stripped_from(s, i + 2, Mode::Code)
            } else if c == '\n' {
                seq!['\n'] + stripped_from(s, i + 1, Mode::BlockComment)
            } else {
                stripped_from(s, i + 1, Mode::BlockComment)
            },
            Mode::Text(_) | Mode::Escaped(_) => seq![c] + stripped_from(
                s,
                i + 1,
                text_step(mode, c),
            ),
            Mode::LineComment => if c == '\n' {
                seq!['\n'] + stripped_from(s, i + 1, Mode::Code)
            } else {
                stripped_from(s, i + 1, Mode::LineComment)
            },
            Mode::Code => if is_quote(c) {
                seq![c] + stripped_from(s, i + 1, Mode::Text(c))
            } else if pair_at(s, i, '/', '*') {
                stripped_from(s, i + 2, Mode::BlockComment)
            } else if pair_at(s, i, '/', '/') {
                stripped_from(s, i + 2, Mode::LineComment)
            } else {
                seq![c] + stripped_from(s, i + 1, Mode::Code)
            },
        }
    }
}

/// The source without its comments, line numbers unchanged.
pub open spec fn without_comments(s: Seq<char>) -> Seq<char> {
    stripped_from(s, 0, Mode::Code)
}

fn step_text(mode: Mode, c: char) -> (r: Mode)
    ensures
        r == text_step(mode, c),
{
    match mode {
        Mode::Escaped(q) => Mode::Text(q),
        Mode::Text(q) => if c == '\\' {
            Mode::Escaped(q)
        } else if c == q {
            Mode::Code
        } else {
            Mode::Text(q)
        },
        other => other,
    }
}

/// Takes the comments out of a source text and keeps every line feed that
/// stood outside a string or inside a comment, so that line numbers stay.
pub fn strip_comments_preserve_lines(source: &str) -> (r: String)
    ensures
        r@ == without_comments(source@),
{
    let chars = chars_of(source);
    let n = chars.len();
    let mut out: Vec<char> = Vec::new();
    let mut mode = Mode::Code;
    let mut i: usize = 0;
    while i < n
        invariant
            chars@ == source@,
            n == chars.len(),
            i <= n,
            out@ + stripped_from(chars@, i as int, mode) == without_comments(chars@),
        decreases n - i,
    {
        let c = chars[i];
        let ghost before = out@;
        let ghost rest = stripped_from(chars@, i as int, mode);
        match mode {
            Mode::BlockComment => {
                if c == '*' && i + 1 < n && chars[i + 1] == '/' {
                    mode = Mode::Code;
                    i += 2;
                } else {
                    if c == '\n' {
                        out.push('\n');
                        assert(out@ + stripped_from(chars@, i + 1, mode) =~= before + rest);
                    }
                    i += 1;
                }
            },
            Mode::Text(_) | Mode::Escaped(_) => {
                out.push(c);
                let next = step_text(mode, c);
                assert(out@ + stripped_from(chars@, i + 1, next) =~= before + rest);
                mode = next;
                i += 1;
            },
            Mode::LineComment => {
                if c == '\n' {
                    mode = Mode::Code;
                    out.push('\n');
                    assert(out@ + stripped_from(chars@, i + 1, mode) =~= before + rest);
                }
                i += 1;
            },
            Mode::Code => {
                if c == '"' || c == '\'' {
                    mode = Mode::Text(c);
                    out.push(c);
                    assert(out@ + stripped_from(chars@, i + 1, mode) =~= before + rest);
                    i += 1;
                } else if c == '/' && i + 1 < n && chars[i + 1] == '*' {
                    mode = Mode::BlockComment;
                    i += 2;
                } else if c == '/' && i + 1 < n && chars[i + 1] == '/' {
                    mode = Mode::LineComment;
                    i += 2;
                } else {
                    out.push(c);
                    assert(out@ + stripped_from(chars@, i + 1, mode) =~= before + rest);
                    i += 1;
                }
            },
        }
    }
    assert(out@ + Seq::<char>::empty() =~= out@);
    string_of(&out)
}

/// What is left of a single line from offset `i` on, read in mode `mode`
/// (code or string), up to the first `//` that stands in code.
pub open spec fn code_from(s: Seq<char>, i: int, mode: Mode) -> Seq<char>
    decreases s.len() - i,
{
    if i < 0 || i >= s.len() {
        Seq::empty()
    } else {
        let c = s[i];
        match mode {
            Mode::Text(_) | Mode::Escaped(_) => seq![c] + code_from(s, i + 1, text_step(mode, c)),
            _ => if is_quote(c) {
                seq![c] + code_from(s, i + 1, Mode::Text(c))
            } else if pair_at(s, i, '/', '/') {
                Seq::empty()
            } else {
                seq![c] + code_from(s, i + 1, Mode::Code)
            },
        }
    }
}

/// A line without its trailing `//` comment.
pub open spec fn code_of(line: Seq<char>) -> Seq<char> {
    code_from(line, 0, Mode::Code)
}

/// Cuts a line at the first `//` that stands outside a string.
pub fn strip_comment(line: &str) -> (r: String)
    ensures
        r@ == code_of(line@),
{
    let chars = chars_of(line);
    let n = chars.len();
    let mut out: Vec<char> = Vec::new();
    let mut mode = Mode::Code;
    let mut i: usize = 0;
    while i < n
        invariant
            chars@ == line@,
            n == chars.len(),
            i <= n,
            mode is Code || mode is Text || mode is Escaped,
            out@ + code_from(chars@, i as int, mode) == code_of(chars@),
        decreases n - i,
    {
        let c = chars[i];
        let ghost before = out@;
        let ghost rest = code_from(chars@, i as int, mode);
        match mode {
            Mode::Text(_) | Mode::Escaped(_) => {
                out.push(c);
                let next = step_text(mode, c);
                assert(out@ + code_from(chars@, i + 1, next) =~= before + rest);
                mode = next;
            },
            _ => {
                if c == '"' || c == '\'' {
                    mode = Mode::Text(c);
                    out.push(c);
                    assert(out@ + code_from(chars@, i + 1, mode) =~= before + rest);
                } else if c == '/' && i + 1 < n && chars[i + 1] == '/' {
                    assert(rest =~= Seq::<char>::empty());
                    assert(out@ + Seq::<char>::empty() =~= out@);
                    return string_of(&out);
                } else {
                    out.push(c);
                    assert(out@ + code_from(chars@, i + 1, mode) =~= before + rest);
                }
            },
        }
        i += 1;
    }
    assert(out@ + Seq::<char>::empty() =~= out@);
    string_of(&out)
}

/// The part of a text before the first occurrence of a character; the whole
/// text where the character does not occur.
pub open spec fn before_char(s: Seq<char>, c: char) -> Seq<char>
    decreases s.len(),
{
    if s.len() == 0 || s[0] == c {
        Seq::empty()
    } else {
        seq![s[0]] + before_char(s.skip(1), c)
    }
}

/// A signal name without its indices: `x[0]` and `x[k+1]` both give `x`.
pub open spec fn normalized(raw: Seq<char>) -> Seq<char> {
    before_char(raw, '[')
}

/// The part of a text before the first occurrence of a character.
pub fn prefix_before(raw: &str, c: char) -> (r: String)
    ensures
        r@ == before_char(raw@, c),
{
    let chars = chars_of(raw);
    let n = chars.len();
    let mut out: Vec<char> = Vec::new();
    let mut i: usize = 0;
    assert(chars@.skip(0) =~= chars@);
    assert(out@ + before_char(chars@, c) =~= before_char(chars@, c));
    while i < n && chars[i] != c
        invariant
            n == chars.len(),
            i <= n,
            out@ + before_char(chars@.skip(i as int), c) == before_char(chars@, c),
        decreases n - i,
    {
        let ghost before = out@;
        proof {
            let rest = chars@.skip(i as int);
            assert(rest[0] == chars@[i as int]);
            assert(rest.skip(1) =~= chars@.skip(i + 1));
        }
        out.push(chars[i]);
        assert(out@ + before_char(chars@.skip(i + 1), c) =~= before + (seq![chars@[i as int]]
            + before_char(chars@.skip(i + 1), c)));
        i += 1;
    }
    proof {
        let rest = chars@.skip(i as int);
        if i < n {
            assert(rest[0] == chars@[i as int]);
        }
        assert(before_char(rest, c) =~= Seq::<char>::empty());
        assert(out@ + Seq::<char>::empty() =~= out@);
    }
    string_of(&out)
}

/// The line feeds among the characters from offset `i` up to offset `j`.
pub open spec fn feeds_between(s: Seq<char>, i: int, j: int) -> Seq<char>
    decreases j - i,
{
    if i >= j || i < 0 || i >= s.len() {
        Seq::empty()
    } else if s[i] == '\n' {
        seq!['\n'] + feeds_between(s, i + 1, j)
    } else {
        feeds_between(s, i + 1, j)
    }
}

/// Of a block comment that is closed at offset `j`, only the line feeds
/// stay: nothing else that stands inside the comment reaches the analysis.
pub proof fn lemma_block_comment_is_opaque(s: Seq<char>, i: int, j: int)
    requires
        0 <= i <= j,
        pair_at(s, j, '*', '/'),
        forall|k: int| i <= k < j ==> !pair_at(s, k, '*', '/'),
    ensures
        stripped_from(s, i, Mode::BlockComment) == feeds_between(s, i, j) + stripped_from(
            s,
            j + 2,
            Mode::Code,
        ),
    decreases j - i,
{
    let rest = stripped_from(s, j + 2, Mode::Code);
    if i < j {
        lemma_block_comment_is_opaque(s, i + 1, j);
        let inner = feeds_between(s, i + 1, j);
        if s[i] == '\n' {
            assert(seq!['\n'] + (inner + rest) =~= (seq!['\n'] + inner) + rest);
        }
    } else {
        assert(feeds_between(s, i, j) + rest =~= rest);
    }
}

/// Of a line comment that ends with the line feed at offset `j`, only that
/// line feed stays.
pub proof fn lemma_line_comment_is_opaque(s: Seq<char>, i: int, j: int)
    requires
        0 <= i <= j < s.len(),
        s[j] == '\n',
        forall|k: int| i <= k < j ==> s[k] != '\n',
    ensures
        stripped_from(s, i, Mode::LineComment) == seq!['\n'] + stripped_from(s, j + 1, Mode::Code),
    decreases j - i,
{
    if i < j {
        lemma_line_comment_is_opaque(s, i + 1, j);
    }
}

/// Of a line comment that runs to the end of the source nothing stays.
pub proof fn lemma_last_line_comment_is_opaque(s: Seq<char>, i: int)
    requires
        0 <= i <= s.len(),
        forall|k: int| i <= k < s.len() ==> s[k] != '\n',
    ensures
        stripped_from(s, i, Mode::LineComment) == Seq::<char>::empty(),
    decreases s.len() - i,
{
    if i < s.len() {
        lemma_last_line_comment_is_opaque(s, i + 1);
    }
}

/// The number of line feeds from offset `i` on.
pub open spec fn line_feeds_from(s: Seq<char>, i: int) -> nat
    decreases s.len() - i,
{
    if i < 0 || i >= s.len() {
        0
    } else if s[i] == '\n' {
        1 + line_feeds_from(s, i + 1)
    } else {
        line_feeds_from(s, i + 1)
    }
}

/// The number of line feeds in a text.
pub open spec fn line_feeds(s: Seq<char>) -> nat {
    line_feeds_from(s, 0)
}

/// The line feeds of a text with one more character in front.
pub proof fn lemma_line_feeds_cons(c: char, rest: Seq<char>, i: int)
    requires
        0 <= i <= rest.len(),
    ensures
        line_feeds_from(seq![c] + rest, i + 1) == line_feeds_from(rest, i),
    decreases rest.len() - i,
{
    let s = seq![c] + rest;
    if i < rest.len() {
        assert(s[i + 1] == rest[i]);
        lemma_line_feeds_cons(c, rest, i + 1);
    }
}

/// Taking the comments out keeps every line feed, whatever the mode in
/// which the walk stands: each line keeps its number.
pub proof fn lemma_stripping_keeps_line_feeds(s: Seq<char>, i: int, mode: Mode)
    requires
        0 <= i <= s.len(),
    ensures
        line_feeds(stripped_from(s, i, mode)) == line_feeds_from(s, i),
    decreases s.len() - i,
{
    if i < s.len() {
        let c = s[i];
        let skips_two = match mode {
            Mode::BlockComment => pair_at(s, i, '*', '/'),
            Mode::Code => !is_quote(c) && (pair_at(s, i, '/', '*') || pair_at(s, i, '/', '/')),
            _ => false,
        };
        if skips_two {
            let next = match mode {
                Mode::BlockComment => Mode::Code,
                _ => if pair_at(s, i, '/', '*') {
                    Mode::BlockComment
                } else {
                    Mode::LineComment
                },
            };
            lemma_stripping_keeps_line_feeds(s, i + 2, next);
            assert(line_feeds_from(s, i) == line_feeds_from(s, i + 1));
            assert(line_feeds_from(s, i + 1) == line_feeds_from(s, i + 2));
        } else {
            let next = match mode {
                Mode::BlockComment => Mode::BlockComment,
                Mode::Text(_) | Mode::Escaped(_) => text_step(mode, c),
                Mode::LineComment => if c == '\n' {
                    Mode::Code
                } else {
                    Mode::LineComment
                },
                Mode::Code => if is_quote(c) {
                    Mode::Text(c)
                } else {
                    Mode::Code
                },
            };
            lemma_stripping_keeps_line_feeds(s, i + 1, next);
            let rest = stripped_from(s, i + 1, next);
            let keeps = match mode {
                Mode::BlockComment | Mode::LineComment => c == '\n',
                _ => true,
            };
            if keeps {
                assert(stripped_from(s, i, mode) == seq![c] + rest);
                lemma_line_feeds_cons(c, rest, 0);
                assert((seq![c] + rest)[0] == c);
            } else {
                assert(stripped_from(s, i, mode) == rest);
            }
        }
    }
}

/// A source without its comments has as many line feeds as the source.
pub proof fn lemma_comments_keep_lines(source: Seq<char>)
    ensures
        line_feeds(without_comments(source)) == line_feeds(source),
{
    lemma_stripping_keeps_line_feeds(source, 0, Mode::Code);
}

/// The part before a character, where the character follows a text that
/// does not hold it.
pub proof fn lemma_before_char_found(head: Seq<char>, c: char, tail: Seq<char>)
    requires
        !head.contains(c),
    ensures
        before_char(head + seq![c] + tail, c) == head,
    decreases head.len(),
{
    let s = head + seq![c] + tail;
    if head.len() == 0 {
        assert(s[0] == c);
        assert(before_char(s, c) =~= head);
    } else {
        assert(s[0] == head[0]);
        assert(head.contains(head[0]));
        assert(s.skip(1) =~= head.skip(1) + seq![c] + tail);
        assert forall|x: char| head.skip(1).contains(x) implies head.contains(x) by {
            let k = choose|k: int| 0 <= k < head.skip(1).len() && head.skip(1)[k] == x;
            assert(head[k + 1] == x);
        }
        lemma_before_char_found(head.skip(1), c, tail);
        assert(seq![s[0]] + head.skip(1) =~= head);
    }
}

/// A name with an index is normalized to the name: `x[0]` and `x[k+1]`
/// both give `x`.
pub proof fn lemma_normalized_indexed(name: Seq<char>, index: Seq<char>)
    requires
        !name.contains('['),
    ensures
        normalized(name + seq!['['] + index) == name,
{
    lemma_before_char_found(name, '[', index);
}

/// Strips the indices from a signal name.
pub fn normalize_signal(raw: &str) -> (r: String)
    ensures
        r@ == normalized(raw@),
{
    prefix_before(raw, '[')
}

/// What is left of an expression from offset `i` on, at bracket depth
/// `depth`, once every bracketed index is taken out.
pub open spec fn unindexed_from(s: Seq<char>, i: int, depth: nat) -> Seq<char>
    decreases s.len() - i,
{
    if i < 0 || i >= s.len() {
        Seq::empty()
    } else {
        let c = s[i];
        if c == '[' {
            unindexed_from(s, i + 1, depth + 1)
        } else if c == ']' && depth > 0 {
            unindexed_from(s, i + 1, (depth - 1) as nat)
        } else if depth == 0 {
            seq![c] + unindexed_from(s, i + 1, depth)
        } else {
            unindexed_from(s, i + 1, depth)
        }
    }
}

/// An expression without its bracketed indices: `a[i][j] + b` gives `a + b`.
pub open spec fn unindexed(s: Seq<char>) -> Seq<char> {
    unindexed_from(s, 0, 0)
}

/// Takes every bracketed index out of an expression.
pub fn strip_indices(expr: &str) -> (r: String)
    ensures
        r@ == unindexed(expr@),
{
    let chars = chars_of(expr);
    let n = chars.len();
    let mut out: Vec<char> = Vec::new();
    let mut depth: usize = 0;
    let mut i: usize = 0;
    while i < n
        invariant
            chars@ == expr@,
            n == chars.len(),
            i <= n,
            depth <= i,
            out@ + unindexed_from(chars@, i as int, depth as nat) == unindexed(chars@),
        decreases n - i,
    {
        let c = chars[i];
        let ghost before = out@;
        let ghost rest = unindexed_from(chars@, i as int, depth as nat);
        if c == '[' {
            depth += 1;
        } else if c == ']' && depth > 0 {
            depth -= 1;
        } else if depth == 0 {
            out.push(c);
            assert(out@ + unindexed_from(chars@, i + 1, depth as nat) =~= before + rest);
        }
        i += 1;
    }
    assert(out@ + Seq::<char>::empty() =~= out@);
    string_of(&out)
}

/// A text without its white space.
pub open spec fn without_spaces(s: Seq<char>) -> Seq<char>
    decreases s.len(),
{
    if s.len() == 0 {
        Seq::empty()
    } else if is_space(s.last()) {
        without_spaces(s.drop_last())
    } else {
        without_spaces(s.drop_last()).push(s.last())
    }
}

/// Takes the white space out of a text.
pub fn strip_spaces(s: &str) -> (r: String)
    ensures
        r@ == without_spaces(s@),
{
    let chars = chars_of(s);
    let n = chars.len();
    let mut out: Vec<char> = Vec::new();
    let mut i: usize = 0;
    while i < n
        invariant
            n == chars.len(),
            i <= n,
            out@ == without_spaces(chars@.take(i as int)),
        decreases n - i,
    {
        proof {
            assert(chars@.take(i + 1).drop_last() =~= chars@.take(i as int));
        }
        if !space(chars[i]) {
            out.push(chars[i]);
        }
        i += 1;
    }
    assert(chars@.take(n as int) =~= chars@);
    string_of(&out)
}

/// The form in which a line is compared with an expected shape: without its
/// trailing comment, without indices, without white space.
pub open spec fn compact(line: Seq<char>) -> Seq<char> {
    without_spaces(unindexed(code_of(line)))
}

/// The compact form of a line.
pub fn compact_line_for_match(line: &str) -> (r: String)
    ensures
        r@ == compact(line@),
{
    let stripped = strip_comment(line);
    let no_indices = strip_indices(stripped.as_str());
    strip_spaces(no_indices.as_str())
}

} // verus!
