use zk_pattern_matcher::checks::findings_of_equality;
use zk_pattern_matcher::collect::{bindings_of_line, sides_agree, AssignKind, ConstraintLine};
use zk_pattern_matcher::context::{
    find_template_context, is_hard_mitigated_pattern_match, is_mitigated_signal,
    TemplateConstraintContext,
};
use zk_pattern_matcher::engine::unwrap_groups;
use zk_pattern_matcher::grammar::Grammar;
use zk_pattern_matcher::guards::{
    constraint_evidence, constraint_has_anchor_for_signal, decide_mitigation, qr_from_groups,
    qr_pair_guard,
};
use zk_pattern_matcher::matcher::{
    find_literal_offsets, match_of_hit, matches_of_fancy_hits, matches_of_hits,
};
use zk_pattern_matcher::semantic::{calibrate_match, two_pass_scan};
use zk_pattern_matcher::textset::TextSet;
use zk_pattern_matcher::{MatchLocation, Pattern, PatternKind, PatternMatch, Severity};

fn set_of(items: &[&str]) -> TextSet {
    let mut set = TextSet::new();
    for item in items {
        set.insert(item.to_string());
    }
    set
}

fn pattern(id: &str, severity: Option<Severity>) -> Pattern {
    Pattern {
        id: id.to_string(),
        kind: PatternKind::Regex,
        pattern: "p".to_string(),
        message: "found".to_string(),
        severity,
    }
}

#[test]
fn groups_are_taken_out_only_when_all_took_part() {
    assert_eq!(
        unwrap_groups(&vec![Some("a".to_string()), Some("".to_string())]),
        Some(vec!["a".to_string(), "".to_string()])
    );
    assert_eq!(unwrap_groups(&vec![Some("a".to_string()), None]), None);
    assert_eq!(unwrap_groups(&vec![]), Some(vec![]));
}

#[test]
fn bindings_of_one_line() {
    let both = bindings_of_line(4, Some("x[0]".to_string()), Some("y".to_string()), None, true);
    assert_eq!(both.len(), 1);
    assert_eq!(both[0].kind, AssignKind::Unconstrained);
    assert_eq!(both[0].signal, "x");
    assert_eq!(both[0].line_no, 4);
    assert!(!both[0].tautological_equality);

    let constrained = bindings_of_line(5, None, Some("y[i]".to_string()), Some("z".to_string()), true);
    assert_eq!(constrained.len(), 2);
    assert_eq!(constrained[0].kind, AssignKind::Constrained);
    assert_eq!(constrained[0].signal, "y");
    assert_eq!(constrained[1].kind, AssignKind::Equality);
    assert_eq!(constrained[1].signal, "z");
    assert!(constrained[1].tautological_equality);

    assert!(bindings_of_line(6, None, None, None, false).is_empty());
}

#[test]
fn sides_of_an_equality() {
    let same = Some(vec!["x === x;".to_string(), "x".to_string(), "x".to_string()]);
    let other = Some(vec!["x === y;".to_string(), "x".to_string(), "y".to_string()]);
    let short = Some(vec!["x".to_string(), "x".to_string()]);
    assert!(sides_agree(&same));
    assert!(!sides_agree(&other));
    assert!(!sides_agree(&short));
    assert!(!sides_agree(&None));
}

#[test]
fn findings_of_an_equality_line() {
    let both = findings_of_equality(9, "v", "v", true);
    let ids: Vec<&str> = both.iter().map(|f| f.finding_id.as_str()).collect();
    assert_eq!(ids, vec!["self_equality_constraint", "constraint_on_var"]);
    assert_eq!(both[0].signal, "v");
    assert_eq!(both[1].line_no, 9);
    let var_only = findings_of_equality(9, "v", "w", true);
    assert_eq!(var_only.len(), 1);
    assert_eq!(var_only[0].finding_id, "constraint_on_var");
    assert!(findings_of_equality(9, "v", "w", false).is_empty());
}

#[test]
fn evidence_is_weighed() {
    assert!(decide_mitigation(2, false, false, false, false, false, false, false));
    assert!(!decide_mitigation(1, false, false, false, false, false, false, false));
    assert!(!decide_mitigation(1, true, true, false, false, false, false, false));
    assert!(decide_mitigation(1, true, false, false, true, false, false, false));
    assert!(!decide_mitigation(1, false, false, false, true, false, false, false));
    assert!(decide_mitigation(1, false, true, true, false, false, false, false));
    assert!(!decide_mitigation(1, false, false, true, false, false, false, false));
    assert!(decide_mitigation(0, false, false, false, false, true, false, false));
    assert!(decide_mitigation(0, false, false, false, false, false, true, false));
    assert!(decide_mitigation(0, false, false, false, false, false, false, true));
    assert!(!decide_mitigation(0, false, false, false, false, false, false, false));
}

fn constraint_line(line_no: usize, text: &str, tokens: &[&str], numeric: bool) -> ConstraintLine {
    ConstraintLine {
        line_no,
        text: text.to_string(),
        tokens: set_of(tokens),
        has_numeric_literal: numeric,
        has_multiplication: text.contains('*'),
        has_add_or_sub: text.contains('+') || text.contains('-'),
    }
}

#[test]
fn anchors() {
    let unconstrained = set_of(&["x", "y"]);
    let by_number = constraint_line(3, "x === 1;", &["x"], true);
    let by_token = constraint_line(3, "x === a;", &["x", "a"], false);
    let by_nothing = constraint_line(3, "x === y;", &["x", "y"], false);
    assert!(constraint_has_anchor_for_signal(&by_number, "x", &unconstrained));
    assert!(constraint_has_anchor_for_signal(&by_token, "x", &unconstrained));
    assert!(!constraint_has_anchor_for_signal(&by_nothing, "x", &unconstrained));
    assert!(constraint_has_anchor_for_signal(&by_nothing, "z", &set_of(&[])));
}

#[test]
fn evidence_from_constraint_lines() {
    let unconstrained = set_of(&["x"]);
    let lines = vec![
        constraint_line(2, "x === 1;", &["x"], true),
        constraint_line(5, "x * (1 - x) === 0;", &["x"], true),
        constraint_line(6, "x === x2;", &["x", "x2"], false),
        constraint_line(7, "y + 1 === z;", &["y", "z"], true),
    ];
    let evidence = constraint_evidence(&lines, 4, "x", &unconstrained);
    assert_eq!(evidence.anchored, 2);
    assert!(evidence.binary);
    assert!(evidence.structural);
    let later = constraint_evidence(&lines, 5, "x", &unconstrained);
    assert_eq!(later.anchored, 1);
    assert!(!later.binary);
    assert!(!later.structural);
}

#[test]
fn quotient_parts_from_groups() {
    let groups = Some(vec![
        "a[1] \\ m".to_string(),
        "a[1]".to_string(),
        "\\".to_string(),
        "m".to_string(),
    ]);
    assert_eq!(qr_from_groups(&groups), Some(("a".to_string(), '\\', "m".to_string())));
    let no_operator =
        Some(vec!["x".to_string(), "a".to_string(), "".to_string(), "m".to_string()]);
    assert_eq!(qr_from_groups(&no_operator), None);
    assert_eq!(qr_from_groups(&Some(vec!["x".to_string()])), None);
    assert_eq!(qr_from_groups(&None), None);
}

#[test]
fn quotient_and_remainder_pair() {
    let lines: Vec<(usize, String)> = vec![
        (1, "component q = to_bits_exact(8);".to_string()),
        (2, "component r = to_bits_exact(8);".to_string()),
        (3, "q.in <-- a \\ m;".to_string()),
        (4, "r.in <-- a % m;".to_string()),
        (5, "r.in + q.in * m === a;".to_string()),
    ];
    assert!(qr_pair_guard(&lines, 3, "q.in", '\\', 4, "r.in", "m", "a"));
    assert!(qr_pair_guard(&lines, 4, "r.in", '%', 3, "q.in", "m", "a"));
    assert!(!qr_pair_guard(&lines, 3, "q.in", '\\', 4, "r.in", "n", "a"));
    assert!(!qr_pair_guard(&lines, 3, "q.out", '\\', 4, "r.in", "m", "a"));
    assert!(!qr_pair_guard(&lines, 3, "q.in", '\\', 5, "r.in", "m", "a"));
    let undeclared: Vec<(usize, String)> = lines[1..].to_vec();
    assert!(!qr_pair_guard(&undeclared, 3, "q.in", '\\', 4, "r.in", "m", "a"));
}

#[test]
fn matches_from_hits() {
    let p = pattern("rule", None);
    let m = match_of_hit(&p, 7, 4, "text".to_string());
    assert_eq!(m.pattern_id, "rule");
    assert_eq!(m.message, "found");
    assert_eq!(m.severity, Severity::Info);
    assert_eq!(m.location.line, 7);
    assert_eq!(m.location.column, 5);
    assert_eq!(m.location.matched_text, "text");

    let hits = vec![(0, "a".to_string()), (3, "b".to_string()), (9, "c".to_string())];
    let all = matches_of_hits(&pattern("rule", Some(Severity::Low)), 2, &hits, 10);
    let columns: Vec<usize> = all.iter().map(|m| m.location.column).collect();
    assert_eq!(columns, vec![1, 4, 10]);
    assert_eq!(all[1].severity, Severity::Low);
    assert_eq!(matches_of_hits(&p, 2, &hits, 2).len(), 2);
    assert!(matches_of_hits(&p, 2, &hits, 0).is_empty());

    let fancy = vec![Some((1, "a".to_string())), None, Some((5, "b".to_string()))];
    let kept = matches_of_fancy_hits(&p, 2, &fancy, 10);
    let columns: Vec<usize> = kept.iter().map(|m| m.location.column).collect();
    assert_eq!(columns, vec![2, 6]);
    assert_eq!(matches_of_fancy_hits(&p, 2, &fancy, 1).len(), 1);
}

#[test]
fn literal_offsets() {
    assert_eq!(find_literal_offsets(b"foo bar foo baz", b"foo", 10), vec![0, 8]);
    assert_eq!(find_literal_offsets(b"aaaa", b"aa", 10), vec![0, 2]);
    assert_eq!(find_literal_offsets(b"aaaa", b"a", 3), vec![0, 1, 2]);
    assert!(find_literal_offsets(b"aaaa", b"", 10).is_empty());
    assert!(find_literal_offsets(b"", b"a", 10).is_empty());
    assert!(find_literal_offsets(b"ab", b"abc", 10).is_empty());
    assert_eq!(find_literal_offsets(b"xab", b"ab", 10), vec![1]);
}

fn context(start: usize, end: usize, constrained: &[&str], local: &[&str], hard: &[&str]) -> TemplateConstraintContext {
    TemplateConstraintContext {
        start_line: start,
        end_line: end,
        constrained_signals: set_of(constrained),
        locally_constrained_signals: set_of(local),
        hard_mitigated_signals: set_of(hard),
    }
}

#[test]
fn contexts_are_found_by_line() {
    let contexts = vec![context(2, 5, &[], &[], &[]), context(7, 9, &[], &[], &["x"])];
    assert_eq!(find_template_context(&contexts, 2).map(|c| c.start_line), Some(2));
    assert_eq!(find_template_context(&contexts, 5).map(|c| c.start_line), Some(2));
    assert_eq!(find_template_context(&contexts, 8).map(|c| c.start_line), Some(7));
    assert!(find_template_context(&contexts, 6).is_none());
    assert!(find_template_context(&contexts, 1).is_none());
    assert!(find_template_context(&contexts, 10).is_none());
    assert!(is_mitigated_signal(&Some("x".to_string()), 8, &contexts));
    assert!(!is_mitigated_signal(&Some("x".to_string()), 3, &contexts));
    assert!(!is_mitigated_signal(&Some("y".to_string()), 8, &contexts));
    assert!(!is_mitigated_signal(&None, 8, &contexts));
}

#[test]
fn matches_are_judged_by_id_text_and_line() {
    let grammar = Grammar::new();
    let contexts = vec![context(2, 5, &[], &[], &["x"])];
    let judged = |id: &str, line: usize, text: &str| {
        let m = PatternMatch {
            pattern_id: id.to_string(),
            message: "as scanned".to_string(),
            severity: Severity::Critical,
            location: MatchLocation { line, column: 1, matched_text: text.to_string() },
        };
        is_hard_mitigated_pattern_match(&grammar, &m, &contexts)
    };
    assert!(judged("unconstrained_assignment", 3, " x[0] <-- 1;"));
    assert!(judged("signal_without_constraint", 3, "signal x <-- 1;"));
    assert!(!judged("another_rule", 3, " x <-- 1;"));
    assert!(!judged("unconstrained_assignment", 3, " y <-- 1;"));
    assert!(!judged("unconstrained_assignment", 6, " x <-- 1;"));
    assert!(!judged("unconstrained_assignment", 3, "x === 1;"));
}

#[test]
fn one_match_is_calibrated() {
    let contexts = vec![context(1, 9, &["x", "y"], &["y"], &[])];
    let m = PatternMatch {
        pattern_id: "unconstrained_assignment".to_string(),
        message: "as scanned".to_string(),
        severity: Severity::Critical,
        location: MatchLocation { line: 3, column: 2, matched_text: "x <-- 1;".to_string() },
    };
    let plain = calibrate_match(&m, &Some("x".to_string()), &contexts);
    assert!(plain.message.ends_with("participates in constraints in the same template. Manual review required."));
    let local = calibrate_match(&m, &Some("y".to_string()), &contexts);
    assert!(local.message.ends_with("Keep under manual review."));
    assert_eq!(local.severity, Severity::Critical);
    assert_eq!(local.location.column, 2);
    let unknown = calibrate_match(&m, &Some("z".to_string()), &contexts);
    assert_eq!(unknown.message, "as scanned");
    let none = calibrate_match(&m, &None, &contexts);
    assert_eq!(none.message, "as scanned");
}

#[test]
fn dotted_names_are_tokens_of_their_own() {
    let findings = two_pass_scan("template T() {\n c.in <-- 1;\n c === 2;\n}\n");
    assert_eq!(findings.len(), 1);
    assert_eq!(findings[0].signal, "c.in");
    let rescued = two_pass_scan("template T() {\n c.in <-- 1;\n c.in === 2;\n}\n");
    assert!(rescued.is_empty());
}

#[test]
fn grammar_is_compiled() {
    let grammar = Grammar::new();
    assert!(grammar.template_start().is_match("template Main("));
    assert!(!grammar.template_start().is_match("// template Main("));
    assert!(grammar.numeric_literal().is_match("a + 12"));
    assert!(!grammar.numeric_literal().is_match("a12"));
    assert_eq!(grammar.var_decl().capture("  var lc = 0;", 1), Some("lc".to_string()));
    assert_eq!(grammar.var_mutation().capture("lc += out[0];", 1), Some("lc".to_string()));
}
