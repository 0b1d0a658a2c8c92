use zk_pattern_matcher::semantic::{
    calibrate_pattern_matches, dedup_and_filter_pattern_matches, format_findings, two_pass_scan,
    SemanticFinding,
};
use zk_pattern_matcher::{
    MatchLocation, Pattern, PatternKind, PatternLibrary, PatternMatch, PatternMatcher, Severity,
};

fn semantic_finding_matches(source: &str) -> Vec<PatternMatch> {
    PatternMatcher::new(PatternLibrary {
        patterns: vec![],
        invariants: vec![],
    })
    .expect("matcher")
    .with_semantic(true)
    .scan_text(source)
}

fn unconstrained_library(pattern: &str) -> PatternLibrary {
    PatternLibrary {
        patterns: vec![Pattern {
            id: "unconstrained_assignment".to_string(),
            kind: PatternKind::Regex,
            pattern: pattern.to_string(),
            message: "Unconstrained assignment operator (<--) detected".to_string(),
            severity: Some(Severity::Critical),
        }],
        invariants: vec![],
    }
}

fn unconstrained_matches(pattern: &str, source: &str) -> Vec<PatternMatch> {
    PatternMatcher::new(unconstrained_library(pattern))
        .expect("matcher")
        .with_semantic(true)
        .scan_text(source)
        .into_iter()
        .filter(|m| m.pattern_id == "unconstrained_assignment")
        .collect()
}

const ANY_ASSIGNMENT: &str =
    r"^\s*(?:signal\s+)?[A-Za-z_]\w*(?:\.[A-Za-z_]\w*)*(?:\s*\[[^\]]+\])*\s*<--\s*[^;]+;\s*$";

#[test]
fn ignores_unconstrained_marker_inside_block_comments() {
    let source = r#"
        template T() {
            /*
                fake <-- assignment
            */
            signal x;
            x <== 1;
        }
        "#;

    let findings = two_pass_scan(source);
    assert!(findings
        .iter()
        .all(|f| f.finding_id != "orphaned_unconstrained_assignment"));
}

#[test]
fn does_not_flag_orphaned_when_signal_is_constrained_on_rhs() {
    let source = r#"
    template T() {
        signal one_hot[4];
        signal input idx;
        for (var i = 0; i < 4; i++) {
            one_hot[i] <-- (idx == i ? 1 : 0);
            one_hot[i] * (1 - one_hot[i]) === 0;
        }
    }
    "#;

    let findings = semantic_finding_matches(source);
    assert!(findings
        .iter()
        .all(|f| f.pattern_id != "orphaned_unconstrained_assignment"));
}

#[test]
fn still_flags_orphaned_when_signal_is_never_constrained() {
    let source = r#"
    template T() {
        signal x;
        x <-- 7;
        signal y;
        y <== 1;
    }
    "#;

    let findings = semantic_finding_matches(source);
    assert!(findings
        .iter()
        .any(|f| f.pattern_id == "orphaned_unconstrained_assignment"));
}

#[test]
fn self_equality_does_not_hide_orphaned_unconstrained_signal() {
    let source = r#"
    template T() {
        signal x;
        x <-- 1;
        x === x;
    }
    "#;

    let findings = semantic_finding_matches(source);
    assert!(findings
        .iter()
        .any(|f| f.pattern_id == "orphaned_unconstrained_assignment"));
    assert!(findings
        .iter()
        .any(|f| f.pattern_id == "self_equality_constraint"));
}

#[test]
fn component_aliasing_on_input_is_medium_review_signal() {
    let source = r#"
    template T() {
        signal input a;
        c1.in <== a;
        c2.in <== a;
    }
    "#;

    let findings = semantic_finding_matches(source);
    let alias = findings
        .iter()
        .find(|f| f.pattern_id == "component_input_aliasing")
        .expect("expected aliasing finding");
    assert_eq!(alias.severity, Severity::Medium);
}

#[test]
fn component_aliasing_of_unconstrained_signal_is_medium() {
    let source = r#"
    template T() {
        signal x;
        x <-- 1;
        c1.in <== x;
        c2.in <== x;
    }
    "#;

    let findings = semantic_finding_matches(source);
    let alias = findings
        .iter()
        .find(|f| f.pattern_id == "component_input_aliasing")
        .expect("expected aliasing finding");
    assert_eq!(alias.severity, Severity::Medium);
}

#[test]
fn component_aliasing_of_constrained_unconstrained_signal_is_medium() {
    let source = r#"
    template T() {
        signal x;
        x <-- 1;
        c1.in <== x;
        c2.in <== x;
        x === 1;
    }
    "#;

    let findings = semantic_finding_matches(source);
    let alias = findings
        .iter()
        .find(|f| f.pattern_id == "component_input_aliasing")
        .expect("expected aliasing finding");
    assert_eq!(alias.severity, Severity::Medium);
}

#[test]
fn single_local_constraint_does_not_trigger_hard_guard_for_unconstrained_assignment() {
    let source = r#"
    template T() {
        signal x;
        x <-- 1;
        x * (1 - x) === 0;
    }
    "#;

    let unconstrained = unconstrained_matches(
        r"^\s*[A-Za-z_]\w*(?:\s*\[[^\]]+\])?\s*<--\s*[^;]+;\s*$",
        source,
    );
    assert_eq!(unconstrained.len(), 1);
    assert_eq!(unconstrained[0].severity, Severity::Critical);
}

#[test]
fn semantic_calibration_preserves_critical_without_constraints() {
    let source = r#"
    template T() {
        signal x;
        x <-- 1;
    }
    "#;

    let unconstrained = unconstrained_matches(
        r"^\s*[A-Za-z_]\w*(?:\s*\[[^\]]+\])?\s*<--\s*[^;]+;\s*$",
        source,
    );
    assert_eq!(unconstrained.len(), 1);
    assert_eq!(unconstrained[0].severity, Severity::Critical);
}

#[test]
fn single_local_constraint_does_not_trigger_hard_guard_for_signal_without_constraint() {
    let library = PatternLibrary {
        patterns: vec![Pattern {
            id: "signal_without_constraint".to_string(),
            kind: PatternKind::Regex,
            pattern: r"^\s*signal\s+[A-Za-z_]\w*(?:\s*\[[^\]]+\])?\s*<--\s*[^;]+;\s*$".to_string(),
            message: "Signal assigned without immediate constraint".to_string(),
            severity: Some(Severity::Medium),
        }],
        invariants: vec![],
    };

    let source = r#"
    template T() {
        signal x <-- y;
        x === y;
    }
    "#;

    let matcher = PatternMatcher::new(library)
        .expect("matcher")
        .with_semantic(true);
    let heuristic: Vec<_> = matcher
        .scan_text(source)
        .into_iter()
        .filter(|m| m.pattern_id == "signal_without_constraint")
        .collect();
    assert_eq!(heuristic.len(), 1);
    assert_eq!(heuristic[0].severity, Severity::Medium);
}

#[test]
fn indexed_signal_with_only_local_binary_check_remains_reported() {
    let source = r#"
    template T() {
        signal output out[4];
        out[0] <-- 1;
        out[0] * (1 - out[0]) === 0;
    }
    "#;

    let unconstrained = unconstrained_matches(ANY_ASSIGNMENT, source);
    assert_eq!(unconstrained.len(), 1);
    assert_eq!(unconstrained[0].severity, Severity::Critical);
}

#[test]
fn dotted_signal_with_single_recomposition_line_remains_reported() {
    let source = r#"
    template T() {
        signal input in;
        k_bits.in <-- in \ 7;
        k_bits.in * 7 === in;
    }
    "#;

    let unconstrained = unconstrained_matches(ANY_ASSIGNMENT, source);
    assert_eq!(unconstrained.len(), 1);
    assert_eq!(unconstrained[0].severity, Severity::Critical);
}

#[test]
fn dedup_removes_signal_without_constraint_when_unconstrained_exists_same_line() {
    let library = PatternLibrary {
        patterns: vec![
            Pattern {
                id: "unconstrained_assignment".to_string(),
                kind: PatternKind::Regex,
                pattern: ANY_ASSIGNMENT.to_string(),
                message: "Unconstrained assignment operator (<--) detected".to_string(),
                severity: Some(Severity::Critical),
            },
            Pattern {
                id: "signal_without_constraint".to_string(),
                kind: PatternKind::Regex,
                pattern: r"^\s*signal\s+[A-Za-z_]\w*(?:\s*\[[^\]]+\])*\s*<--\s*[^;]+;\s*$"
                    .to_string(),
                message: "Signal assigned without immediate constraint".to_string(),
                severity: Some(Severity::Medium),
            },
        ],
        invariants: vec![],
    };

    let source = r#"
    template T() {
        signal x <-- 1;
        x === 1;
    }
    "#;

    let matcher = PatternMatcher::new(library)
        .expect("matcher")
        .with_semantic(true);
    let matches = matcher.scan_text(source);

    let unconstrained_count = matches
        .iter()
        .filter(|m| m.pattern_id == "unconstrained_assignment")
        .count();
    let heuristic_count = matches
        .iter()
        .filter(|m| m.pattern_id == "signal_without_constraint")
        .count();

    assert_eq!(unconstrained_count, 1);
    assert_eq!(heuristic_count, 0);
}

#[test]
fn hard_guard_suppresses_bitness_plus_var_recomposition_pattern() {
    let source = r#"
    template T() {
        signal input in;
        signal out[2];
        var lc = 0;

        out[0] <-- 0;
        out[1] <-- 0;
        out[0] * (out[0] - 1) === 0;
        out[1] * (out[1] - 1) === 0;

        lc += out[0];
        lc += out[1] * 2;
        lc === in;
    }
    "#;

    let unconstrained = unconstrained_matches(ANY_ASSIGNMENT, source);
    assert!(unconstrained.is_empty());
}

#[test]
fn hard_guard_suppresses_bits_component_wiring_plus_recomposition() {
    let source = r#"
    template T() {
        signal input in;
        signal q;
        component to_bits;

        q <-- in \ 7;
        to_bits.in <== q;
        q * 7 === in;
    }
    "#;

    let unconstrained = unconstrained_matches(ANY_ASSIGNMENT, source);
    assert!(unconstrained.is_empty());
}

#[test]
fn hard_guard_keeps_single_equation_unchecked_division_flagged() {
    let source = r#"
    template T() {
        signal input numerator;
        signal input denominator;
        signal quotient;

        quotient <-- numerator / denominator;
        quotient * denominator === numerator;
    }
    "#;

    let unconstrained = unconstrained_matches(ANY_ASSIGNMENT, source);
    assert_eq!(unconstrained.len(), 1);
    assert_eq!(unconstrained[0].severity, Severity::Critical);
}

#[test]
fn orphan_finding_for_an_unconstrained_signal() {
    let findings = two_pass_scan("template T() {\n signal x;\n x <-- 7;\n signal y;\n y <== 1;\n}");
    assert_eq!(findings.len(), 1);
    assert_eq!(findings[0].finding_id, "orphaned_unconstrained_assignment");
    assert_eq!(findings[0].signal, "x");
    assert_eq!(findings[0].line_no, 3);
    assert_eq!(findings[0].severity, "critical");
}

#[test]
fn statements_after_a_header_on_its_line_are_not_bindings() {
    let findings = two_pass_scan("template T() { signal x; x <-- 7; signal y; y <== 1; }");
    assert!(findings.is_empty());
}

#[test]
fn orphan_message_names_signal_and_line() {
    let findings = two_pass_scan("template T() {\n  signal x;\n  x <-- 7;\n}\n");
    assert_eq!(findings.len(), 1);
    assert_eq!(findings[0].line_no, 3);
    assert_eq!(
        findings[0].message,
        "CRITICAL: signal 'x' assigned with <-- (unconstrained witness hint) on line 3 but no corresponding <== or === found in this template. The prover can set this to any value without the verifier detecting it."
    );
}

#[test]
fn self_equality_gives_both_findings() {
    let findings = two_pass_scan("template T() {\n signal x;\n x <-- 1;\n x === x;\n}\n");
    let ids: Vec<&str> = findings.iter().map(|f| f.finding_id.as_str()).collect();
    assert_eq!(ids, vec!["orphaned_unconstrained_assignment", "self_equality_constraint"]);
    assert_eq!(findings[1].line_no, 4);
    assert_eq!(findings[1].severity, "medium");
    assert_eq!(
        findings[1].message,
        "MEDIUM: tautological constraint 'x === x' on line 4 \u{2014} this constraint is always satisfied and does nothing. Likely a copy-paste error; verify the RHS is the intended expected value or witness signal."
    );
}

#[test]
fn constraint_on_var_is_reported() {
    let findings = two_pass_scan("template T() {\n var lc = 0;\n signal s;\n s <== 1;\n lc === s;\n}\n");
    assert_eq!(findings.len(), 1);
    assert_eq!(findings[0].finding_id, "constraint_on_var");
    assert_eq!(findings[0].signal, "lc");
    assert_eq!(findings[0].line_no, 5);
    assert_eq!(
        findings[0].message,
        "MEDIUM: 'lc' on line 5 is declared as `var` (compile-time value), not a `signal`. Applying === to a var produces a trivially satisfied constraint that the verifier cannot meaningfully enforce at runtime."
    );
}

#[test]
fn aliasing_lists_every_port_once_per_signal() {
    let source = "template T() {\n signal input a;\n c1.in <== a;\n c2.in <== a;\n c3.x <== a;\n}\n";
    let findings = two_pass_scan(source);
    assert_eq!(findings.len(), 1);
    assert_eq!(findings[0].finding_id, "component_input_aliasing");
    assert_eq!(findings[0].signal, "a");
    assert_eq!(findings[0].line_no, 3);
    assert_eq!(
        findings[0].message,
        "MEDIUM: signal 'a' wired to multiple component ports: c1.in (line 3), c2.in (line 4), c3.x (line 5). Shared signals can reduce circuit degrees of freedom \u{2014} verify this aliasing is intentional and constraints still bind all paths."
    );
}

#[test]
fn same_port_twice_is_no_aliasing() {
    let source = "template T() {\n signal input a;\n c1.in <== a;\n c1.in <== a;\n}\n";
    assert!(two_pass_scan(source).is_empty());
}

#[test]
fn line_comment_hides_an_assignment() {
    let source = "template T() {\n signal x;\n // x <-- 1;\n x <== 2;\n}\n";
    assert!(two_pass_scan(source).is_empty());
}

#[test]
fn block_comment_keeps_line_numbers() {
    let source = "template T() {\n /* one\n two\n three */\n signal x;\n x <-- 1;\n}\n";
    let findings = two_pass_scan(source);
    assert_eq!(findings.len(), 1);
    assert_eq!(findings[0].line_no, 6);
}

#[test]
fn string_protects_comment_markers() {
    let source = "template T() {\n log(\"// not a comment\"); x <-- 1;\n}\n";
    let findings = two_pass_scan(source);
    assert!(findings.is_empty());
    let source = "template T() {\n x <-- f(\"/*\"); \n y <-- 2; // */\n}\n";
    let findings = two_pass_scan(source);
    assert_eq!(findings.len(), 2);
}

#[test]
fn constraint_in_another_template_does_not_rescue() {
    let source = "template A() {\n signal x;\n x <== 1;\n}\ntemplate B() {\n signal x;\n x <-- 2;\n}\n";
    let findings = two_pass_scan(source);
    assert_eq!(findings.len(), 1);
    assert_eq!(findings[0].line_no, 7);
    assert_eq!(findings[0].signal, "x");
}

#[test]
fn indices_are_normalized_away() {
    let source = "template T() {\n signal x[2];\n x[0] <-- 1;\n x[1] <== 2;\n}\n";
    assert!(two_pass_scan(source).is_empty());
}

#[test]
fn code_outside_templates_is_not_analyzed() {
    let source = "signal x;\nx <-- 1;\ntemplate T() {\n}\ny <-- 2;\n";
    assert!(two_pass_scan(source).is_empty());
}

#[test]
fn unclosed_template_is_still_analyzed() {
    let source = "template T() {\n signal x;\n x <-- 1;\n";
    let findings = two_pass_scan(source);
    assert_eq!(findings.len(), 1);
}

#[test]
fn template_ends_at_its_closing_brace() {
    let source = "template T() {\n if (a) { b; }\n}\nx <-- 1;\n";
    assert!(two_pass_scan(source).is_empty());
}

fn make_match(id: &str, line: usize, column: usize, text: &str) -> PatternMatch {
    PatternMatch {
        pattern_id: id.to_string(),
        message: "as scanned".to_string(),
        severity: Severity::Critical,
        location: MatchLocation { line, column, matched_text: text.to_string() },
    }
}

fn fingerprint(m: &PatternMatch) -> (String, String, Severity, usize, usize, String) {
    (
        m.pattern_id.clone(),
        m.message.clone(),
        m.severity,
        m.location.line,
        m.location.column,
        m.location.matched_text.clone(),
    )
}

const LOCAL_SOURCE: &str = "template T() {\n signal x;\n x <-- 1;\n x * (1 - x) === 0;\n}\n";

#[test]
fn calibration_rewrites_the_message_only() {
    let mut matches = vec![make_match("unconstrained_assignment", 3, 1, " x <-- 1;")];
    calibrate_pattern_matches(LOCAL_SOURCE, &mut matches);
    assert_eq!(matches.len(), 1);
    assert_eq!(
        matches[0].message,
        "Unconstrained assignment operator (<--) detected; semantic context shows 'x' is constrained shortly after assignment in the same template (likely witness-hint pattern). Keep under manual review."
    );
    assert_eq!(matches[0].severity, Severity::Critical);
    assert_eq!(matches[0].location.line, 3);
    assert_eq!(matches[0].location.column, 1);
    assert_eq!(matches[0].location.matched_text, " x <-- 1;");
}

#[test]
fn calibration_of_the_heuristic_match() {
    let mut matches = vec![make_match("signal_without_constraint", 3, 1, " x <-- 1;")];
    calibrate_pattern_matches(LOCAL_SOURCE, &mut matches);
    assert_eq!(
        matches[0].message,
        "Signal assigned without immediate constraint; semantic context shows 'x' is constrained shortly after assignment in the same template (likely witness-hint pattern)."
    );
}

#[test]
fn calibration_beyond_the_window() {
    let mut source = String::from("template T() {\n signal x;\n x <-- 1;\n");
    for _ in 0..12 {
        source.push_str(" // filler\n");
    }
    source.push_str(" x === 1;\n}\n");
    let mut matches = vec![
        make_match("unconstrained_assignment", 3, 1, " x <-- 1;"),
        make_match("signal_without_constraint", 3, 1, "signal x <-- 1;"),
    ];
    calibrate_pattern_matches(&source, &mut matches);
    assert_eq!(
        matches[0].message,
        "Unconstrained assignment operator (<--) detected; semantic context shows 'x' participates in constraints in the same template. Manual review required."
    );
    assert_eq!(
        matches[1].message,
        "Signal assigned without immediate constraint; semantic context shows 'x' participates in constraints in the same template. Manual review required."
    );
}

#[test]
fn calibration_within_the_window_edge() {
    let mut source = String::from("template T() {\n signal x;\n x <-- 1;\n");
    for _ in 0..11 {
        source.push_str(" // filler\n");
    }
    source.push_str(" x === 1;\n}\n");
    let mut matches = vec![make_match("unconstrained_assignment", 3, 1, " x <-- 1;")];
    calibrate_pattern_matches(&source, &mut matches);
    assert!(matches[0].message.contains("constrained shortly after assignment"));
}

#[test]
fn calibration_leaves_other_matches_alone() {
    let mut matches = vec![
        make_match("something_else", 3, 1, " x <-- 1;"),
        make_match("unconstrained_assignment", 3, 1, "no assignment here"),
        make_match("unconstrained_assignment", 9, 1, " x <-- 1;"),
        make_match("unconstrained_assignment", 3, 1, " y <-- 1;"),
    ];
    calibrate_pattern_matches(LOCAL_SOURCE, &mut matches);
    assert!(matches.iter().all(|m| m.message == "as scanned"));
}

#[test]
fn calibrating_twice_equals_calibrating_once() {
    let mut once = vec![
        make_match("unconstrained_assignment", 3, 1, " x <-- 1;"),
        make_match("signal_without_constraint", 3, 1, "signal x <-- 1;"),
        make_match("other", 2, 1, "signal x;"),
    ];
    calibrate_pattern_matches(LOCAL_SOURCE, &mut once);
    let mut twice = once.clone();
    calibrate_pattern_matches(LOCAL_SOURCE, &mut twice);
    let a: Vec<_> = once.iter().map(fingerprint).collect();
    let b: Vec<_> = twice.iter().map(fingerprint).collect();
    assert_eq!(a, b);
}

#[test]
fn dedup_removes_exact_duplicates_and_keeps_the_first() {
    let mut matches = vec![
        make_match("a", 1, 1, "t"),
        make_match("b", 1, 1, "t"),
        make_match("a", 1, 1, "t"),
        make_match("a", 1, 2, "t"),
        make_match("a", 2, 1, "t"),
        make_match("a", 1, 1, "u"),
    ];
    matches[2].message = "later".to_string();
    dedup_and_filter_pattern_matches("", &mut matches);
    assert_eq!(matches.len(), 5);
    assert_eq!(matches[0].message, "as scanned");
    let ids: Vec<&str> = matches.iter().map(|m| m.pattern_id.as_str()).collect();
    assert_eq!(ids, vec!["a", "b", "a", "a", "a"]);
}

#[test]
fn dedup_drops_the_shadowed_heuristic_match() {
    let mut matches = vec![
        make_match("signal_without_constraint", 3, 1, "signal x <-- 1;"),
        make_match("signal_without_constraint", 4, 1, "signal x <-- 1;"),
        make_match("signal_without_constraint", 3, 1, "signal y <-- 1;"),
        make_match("unconstrained_assignment", 3, 5, "x[0] <-- 1;"),
    ];
    dedup_and_filter_pattern_matches("", &mut matches);
    let kept: Vec<(usize, &str)> = matches
        .iter()
        .map(|m| (m.location.line, m.location.matched_text.as_str()))
        .collect();
    assert_eq!(
        kept,
        vec![(4, "signal x <-- 1;"), (3, "signal y <-- 1;"), (3, "x[0] <-- 1;")]
    );
}

#[test]
fn dedup_drops_hard_mitigated_matches() {
    let source = "template T() {\n signal x;\n x <-- 1;\n x * 2 === a;\n x + 3 === b;\n}\n";
    let mut matches = vec![
        make_match("unconstrained_assignment", 3, 1, " x <-- 1;"),
        make_match("other", 3, 1, " x <-- 1;"),
    ];
    dedup_and_filter_pattern_matches(source, &mut matches);
    assert_eq!(matches.len(), 1);
    assert_eq!(matches[0].pattern_id, "other");
}

#[test]
fn dedup_twice_equals_dedup_once() {
    let source = "template T() {\n signal x;\n x <-- 1;\n x * 2 === a;\n x + 3 === b;\n signal y <-- 2;\n}\n";
    let mut once = vec![
        make_match("unconstrained_assignment", 3, 1, " x <-- 1;"),
        make_match("signal_without_constraint", 6, 1, " signal y <-- 2;"),
        make_match("unconstrained_assignment", 6, 1, " signal y <-- 2;"),
        make_match("other", 6, 1, "y"),
        make_match("other", 6, 1, "y"),
    ];
    dedup_and_filter_pattern_matches(source, &mut once);
    let mut twice = once.clone();
    dedup_and_filter_pattern_matches(source, &mut twice);
    let a: Vec<_> = once.iter().map(fingerprint).collect();
    let b: Vec<_> = twice.iter().map(fingerprint).collect();
    assert_eq!(a, b);
    assert_eq!(once.len(), 2);
}

const ANY_ARROW: &str = r"^.*<--.*$";

fn arrows_left(source: &str) -> usize {
    unconstrained_matches(ANY_ARROW, source).len()
}

#[test]
fn two_anchored_constraints_mitigate() {
    let source = r#"
   template T() {
     signal input in; signal out[2]; var lc = 0;
     out[0] <-- 0; out[1] <-- 0;
     out[0] * (out[0] - 1) === 0;
     out[1] * (out[1] - 1) === 0;
     lc += out[0]; lc += out[1] * 2; lc === in;
   }
   "#;
    assert_eq!(arrows_left(source), 0);
}

#[test]
fn canonical_iszero_is_mitigated() {
    let source = "template IsZero() {\n signal input in;\n signal output out;\n signal inv;\n inv <-- in != 0 ? 1/in : 0;\n out <== -in*inv + 1;\n in*out === 0;\n}\n";
    assert_eq!(arrows_left(source), 0);
}

#[test]
fn iszero_without_the_product_line_is_reported() {
    let source = "template IsZero() {\n signal input in;\n signal output out;\n signal inv;\n inv <-- in != 0 ? 1/in : 0;\n out <== -in*inv + u;\n}\n";
    assert_eq!(arrows_left(source), 1);
}

#[test]
fn quotient_remainder_pair_is_mitigated() {
    let source = "template T() {\n signal input a;\n component q = to_bits_exact(8);\n component r = to_bits_exact(8);\n q.in <-- a \\ m;\n r.in <-- a % m;\n q.in * m + r.in === a;\n}\n";
    assert_eq!(arrows_left(source), 0);
}

#[test]
fn quotient_without_remainder_is_reported() {
    let source = "template T() {\n signal input a;\n component q = to_bits_exact(8);\n q.in <-- a \\ m;\n zz === q.in;\n}\n";
    assert_eq!(arrows_left(source), 1);
}

#[test]
fn inverse_quotient_is_mitigated() {
    let source = "template T() {\n signal input a;\n signal out;\n signal k;\n component bits = to_bits_exact(8);\n k <-- out * a \\ m;\n out * a - 1 === k * m;\n bits.in <== out;\n}\n";
    assert_eq!(arrows_left(source), 0);
}

#[test]
fn binary_constraint_with_var_recomposition_mitigates() {
    let alone = "template T() {\n signal b;\n b <-- w;\n b*(1-b) === 0;\n}\n";
    assert_eq!(arrows_left(alone), 1);
    let recomposed =
        "template T() {\n signal b;\n var acc;\n b <-- w;\n b*(1-b) === 0;\n acc = b;\n acc === total;\n}\n";
    assert_eq!(arrows_left(recomposed), 0);
}

#[test]
fn binary_constraint_on_a_dotted_signal_counts() {
    let recomposed =
        "template T() {\n var acc;\n c.in <-- w;\n c.in*(1-c.in) === 0;\n acc = c.in;\n acc === total;\n}\n";
    assert_eq!(arrows_left(recomposed), 0);
    let alone = "template T() {\n c.in <-- w;\n c.in*(1-c.in) === 0;\n}\n";
    assert_eq!(arrows_left(alone), 1);
}

#[test]
fn bit_wiring_with_structural_constraint_mitigates() {
    let wired = "template T() {\n signal q;\n q <-- a;\n bits.in <== q * 2;\n}\n";
    assert_eq!(arrows_left(wired), 0);
    let plain = "template T() {\n signal q;\n q <-- a;\n other.x <== q * 2;\n}\n";
    assert_eq!(arrows_left(plain), 1);
}

#[test]
fn report_of_no_findings() {
    assert_eq!(format_findings(&vec![]), "[semantic] No issues found.\n");
}

#[test]
fn report_of_findings() {
    let findings = vec![
        SemanticFinding {
            line_no: 12,
            signal: "x".to_string(),
            finding_id: "some_id".to_string(),
            message: "some message".to_string(),
            severity: "critical".to_string(),
        },
        SemanticFinding {
            line_no: 3,
            signal: "y".to_string(),
            finding_id: "other".to_string(),
            message: "m".to_string(),
            severity: "medium".to_string(),
        },
    ];
    assert_eq!(
        format_findings(&findings),
        "[semantic][CRITICAL][line 12] some_id\n  \u{2192} some message\n[semantic][MEDIUM][line 3] other\n  \u{2192} m\n"
    );
}
