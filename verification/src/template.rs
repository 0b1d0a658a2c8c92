//! Splitting a source text into the blocks of its templates.
//!
//! A template starts at a header line, `template <name>(`, and ends at the
//! closing brace that brings the brace depth back to zero, or at the next
//! header, or at the end of the text.  Lines outside every template belong to
//! no block.

use vstd::prelude::*;
use crate::engine::pattern_matches;
use crate::grammar::{Grammar, TEMPLATE_START};
use crate::text::{chars_of, lines_of, split_lines};

verus! {

/// The lines of one template, each with its number in the whole source
/// (counting from 1).
#[derive(Debug)]
pub struct TemplateBlock {
    pub lines: Vec<(usize, String)>,
}

impl DeepView for TemplateBlock {
    type V = Seq<(usize, Seq<char>)>;

    open spec fn deep_view(&self) -> Seq<(usize, Seq<char>)> {
        self.lines.deep_view()
    }
}

/// Whether a line is a template header.
pub open spec fn is_template_header(line: Seq<char>) -> bool {
    pattern_matches(TEMPLATE_START@, line)
}

/// Where the splitting stands: the blocks that are closed, the block that is
/// open, and the brace depth.
pub struct SplitState {
    pub done: Seq<Seq<(usize, Seq<char>)>>,
    pub current: Option<Seq<(usize, Seq<char>)>>,
    pub depth: nat,
}

/// The state in which the open block, if there is one, has been closed.
pub open spec fn close_current(st: SplitState) -> SplitState {
    match st.current {
        Some(block) => SplitState { done: st.done.push(block), current: None, depth: st.depth },
        None => st,
    }
}

/// The state after one character of a line.  An opening brace deepens; a
/// closing brace that brings the depth to zero closes the open block, and the
/// depth never falls below zero.
pub open spec fn brace_step(st: SplitState, c: char) -> SplitState {
    if c == '{' {
        SplitState { depth: st.depth + 1, ..st }
    } else if c == '}' {
        if st.depth <= 1 {
            SplitState { depth: 0, ..close_current(st) }
        } else {
            SplitState { depth: (st.depth - 1) as nat, ..st }
        }
    } else {
        st
    }
}

/// The state after the first `k` characters of a line.
pub open spec fn braces_upto(st: SplitState, text: Seq<char>, k: int) -> SplitState
    decreases k,
{
    if k <= 0 {
        st
    } else {
        brace_step(braces_upto(st, text, k - 1), text[k - 1])
    }
}

/// The state once a line has been taken up and before its braces are
/// counted: a header closes the open block and opens a new one at depth
/// zero; the line joins the open block, if there is one.
pub open spec fn open_line(st: SplitState, number: usize, text: Seq<char>) -> SplitState {
    let st1 = if is_template_header(text) {
        SplitState { done: close_current(st).done, current: Some(Seq::empty()), depth: 0 }
    } else {
        st
    };
    match st1.current {
        Some(block) => SplitState { current: Some(block.push((number, text))), ..st1 },
        None => st1,
    }
}

/// The state after a whole line.
pub open spec fn line_step(st: SplitState, number: usize, text: Seq<char>) -> SplitState {
    braces_upto(open_line(st, number, text), text, text.len() as int)
}

/// The state after the first `n` lines.
pub open spec fn split_upto(lines: Seq<Seq<char>>, n: int) -> SplitState
    decreases n,
{
    if n <= 0 {
        SplitState { done: Seq::empty(), current: None, depth: 0 }
    } else {
        line_step(split_upto(lines, n - 1), n as usize, lines[n - 1])
    }
}

/// The template blocks of a source text, in order.  A block that is still
/// open at the end of the text is the last one.
pub open spec fn templates_of(source: Seq<char>) -> Seq<Seq<(usize, Seq<char>)>> {
    let lines = split_lines(source);
    close_current(split_upto(lines, lines.len() as int)).done
}

/// The state that the working variables of `split_into_templates` stand for.
spec fn state_of(
    templates: Seq<TemplateBlock>,
    open: bool,
    current: Seq<(usize, String)>,
    depth: u128,
) -> SplitState {
    SplitState {
        done: Seq::new(templates.len(), |i: int| templates[i].deep_view()),
        current: if open {
            Some(Seq::new(current.len(), |i: int| current[i].deep_view()))
        } else {
            None
        },
        depth: depth as nat,
    }
}

/// Splits a source text into the blocks of its templates, so that signal
/// names do not reach across template boundaries.
pub fn split_into_templates(grammar: &Grammar, source: &str) -> (r: Vec<TemplateBlock>)
    ensures
        r.deep_view() == templates_of(source@),
{
    let lines = lines_of(source);
    let ghost spec_lines = lines.deep_view();
    let mut templates: Vec<TemplateBlock> = Vec::new();
    let mut open = false;
    let mut current: Vec<(usize, String)> = Vec::new();
    let mut depth: u128 = 0;
    let mut i: usize = 0;
    assert(state_of(templates@, open, current@, depth).done =~= Seq::empty());
    while i < lines.len()
        invariant
            spec_lines == lines.deep_view(),
            i <= lines.len(),
            !open ==> current.len() == 0,
            depth <= i * 0x1_0000_0000_0000_0000,
            state_of(templates@, open, current@, depth) == split_upto(spec_lines, i as int),
        decreases lines.len() - i,
    {
        let line_no = i + 1;
        let line: &String = &lines[i];
        let ghost text = spec_lines[i as int];
        assert(text == line@);
        let ghost st0 = state_of(templates@, open, current@, depth);
        if grammar.template_start().is_match(line.as_str()) {
            if open {
                templates.push(TemplateBlock { lines: current });
                current = Vec::new();
            }
            open = true;
            depth = 0;
            proof {
                let st1 = state_of(templates@, open, current@, depth);
                assert(st1.done =~= close_current(st0).done);
                assert(st1.current->0 =~= Seq::empty());
            }
        }
        let ghost st1 = state_of(templates@, open, current@, depth);
        if open {
            current.push((line_no, line.clone()));
        }
        proof {
            let st2 = state_of(templates@, open, current@, depth);
            if open {
                assert(st2.current->0 =~= st1.current->0.push((line_no, text)));
            }
            assert(st2 == open_line(st0, line_no, text));
        }
        let chars = chars_of(line.as_str());
        let ghost st2 = state_of(templates@, open, current@, depth);
        let mut k: usize = 0;
        while k < chars.len()
            invariant
                chars@ == text,
                k <= chars.len(),
                i < lines.len(),
                !open ==> current.len() == 0,
                depth <= i * 0x1_0000_0000_0000_0000 + k,
                state_of(templates@, open, current@, depth) == braces_upto(st2, text, k as int),
            decreases chars.len() - k,
        {
            let c = chars[k];
            let ghost sk = state_of(templates@, open, current@, depth);
            if c == '{' {
                depth += 1;
            } else if c == '}' {
                if depth <= 1 {
                    if open {
                        templates.push(TemplateBlock { lines: current });
                        current = Vec::new();
                        open = false;
                    }
                    depth = 0;
                    proof {
                        let sn = state_of(templates@, open, current@, depth);
                        assert(sn.done =~= close_current(sk).done);
                    }
                } else {
                    depth -= 1;
                }
            }
            proof {
                let sn = state_of(templates@, open, current@, depth);
                assert(sn.done =~= brace_step(sk, c).done);
                assert(sn == brace_step(sk, c));
            }
            k += 1;
        }
        i += 1;
    }
    let ghost last = state_of(templates@, open, current@, depth);
    if open {
        templates.push(TemplateBlock { lines: current });
    }
    assert(templates.deep_view() =~= close_current(last).done);
    templates
}

} // verus!
