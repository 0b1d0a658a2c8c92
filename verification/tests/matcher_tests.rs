use zk_pattern_matcher::matcher::MatcherError;
use zk_pattern_matcher::{
    MatcherLimits, Pattern, PatternKind, PatternLibrary, PatternMatcher, Severity,
};

fn one_pattern(id: &str, kind: PatternKind, pattern: &str, severity: Option<Severity>) -> PatternLibrary {
    PatternLibrary {
        patterns: vec![Pattern {
            id: id.to_string(),
            kind,
            pattern: pattern.to_string(),
            message: "match".to_string(),
            severity,
        }],
        invariants: vec![],
    }
}

#[test]
fn reports_all_regex_matches_on_a_line() {
    let library = one_pattern("arrow", PatternKind::Regex, "<--", Some(Severity::High));
    let matcher = PatternMatcher::new(library).expect("matcher");
    let matches = matcher.scan_text("a <-- b; c <-- d;");
    assert_eq!(matches.len(), 2);
}

#[test]
fn reports_all_literal_matches_on_a_line() {
    let library = one_pattern("lit", PatternKind::Literal, "foo", Some(Severity::Low));
    let matcher = PatternMatcher::new(library).expect("matcher");
    let matches = matcher.scan_text("foo bar foo baz");
    assert_eq!(matches.len(), 2);
}

#[test]
fn reports_all_fancy_regex_matches_on_a_line() {
    let library = one_pattern("dup", PatternKind::FancyRegex, r"(\w)\1", Some(Severity::Low));
    let matcher = PatternMatcher::new(library).expect("matcher");
    let matches = matcher.scan_text("aa bb cc");
    assert_eq!(matches.len(), 3);
}

#[test]
fn rejects_duplicate_pattern_ids() {
    let library = PatternLibrary {
        patterns: vec![
            Pattern {
                id: "dup".to_string(),
                kind: PatternKind::Literal,
                pattern: "a".to_string(),
                message: "one".to_string(),
                severity: None,
            },
            Pattern {
                id: "dup".to_string(),
                kind: PatternKind::Literal,
                pattern: "b".to_string(),
                message: "two".to_string(),
                severity: None,
            },
        ],
        invariants: vec![],
    };

    let err = PatternMatcher::new(library)
        .err()
        .expect("expected duplicate id validation error");
    assert!(err.message().contains("Duplicate pattern id"));
}

#[test]
fn validates_length_before_compiling_regex() {
    let library = PatternLibrary {
        patterns: vec![Pattern {
            id: "long_invalid".to_string(),
            kind: PatternKind::Regex,
            pattern: "[".repeat(201),
            message: "bad".to_string(),
            severity: None,
        }],
        invariants: vec![],
    };

    let err = PatternMatcher::new(library)
        .err()
        .expect("expected regex length validation error");
    assert!(err.message().contains("too complex"));
}

#[test]
fn semantic_findings_are_added_when_enabled() {
    let source = r#"
        template T() {
            signal a;
            a <-- 1;
        }
        "#;

    let plain = PatternMatcher::new(PatternLibrary { patterns: vec![], invariants: vec![] })
        .expect("matcher");
    let semantic = PatternMatcher::new(PatternLibrary { patterns: vec![], invariants: vec![] })
        .expect("matcher")
        .with_semantic(true);

    let plain_matches = plain.scan_text(source);
    let semantic_matches = semantic.scan_text(source);

    assert!(plain_matches.is_empty());
    assert!(semantic_matches
        .iter()
        .any(|m| m.pattern_id == "orphaned_unconstrained_assignment"));
}

#[test]
fn rejects_ast_patterns_until_implemented() {
    let library = PatternLibrary {
        patterns: vec![Pattern {
            id: "ast_check".to_string(),
            kind: PatternKind::Ast,
            pattern: "unused".to_string(),
            message: "unused".to_string(),
            severity: None,
        }],
        invariants: vec![],
    };

    let err = PatternMatcher::new(library)
        .err()
        .expect("expected AST kind validation error");
    assert!(err.message().contains("kind=ast"));
}

#[test]
fn test_pattern_matching() {
    let library = PatternLibrary {
        patterns: vec![Pattern {
            id: "test_pattern".to_string(),
            kind: PatternKind::Regex,
            pattern: r"<--".to_string(),
            message: "Test message".to_string(),
            severity: Some(Severity::High),
        }],
        invariants: vec![],
    };

    let matcher = PatternMatcher::new(library).expect("Failed to create matcher");
    let matches = matcher.scan_text("signal output c;\nc <-- a * b;");

    assert_eq!(matches.len(), 1);
    assert_eq!(matches[0].pattern_id, "test_pattern");
    assert_eq!(matches[0].severity, Severity::High);
}

#[test]
fn test_literal_pattern() {
    let library = PatternLibrary {
        patterns: vec![Pattern {
            id: "literal_test".to_string(),
            kind: PatternKind::Literal,
            pattern: "nullifier".to_string(),
            message: "Nullifier found".to_string(),
            severity: Some(Severity::Medium),
        }],
        invariants: vec![],
    };

    let matcher = PatternMatcher::new(library).expect("Failed to create matcher");
    let matches = matcher.scan_text("signal input nullifier;");

    assert_eq!(matches.len(), 1);
    assert_eq!(matches[0].location.matched_text, "nullifier");
}

#[test]
fn regex_matches_carry_columns_and_text() {
    let library = one_pattern("arrow", PatternKind::Regex, "<--", Some(Severity::High));
    let matcher = PatternMatcher::new(library).expect("matcher");
    let matches = matcher.scan_text("a <-- b; c <-- d;");
    assert_eq!(matches.len(), 2);
    assert_eq!(matches[0].location.line, 1);
    assert_eq!(matches[0].location.column, 3);
    assert_eq!(matches[1].location.column, 12);
    assert_eq!(matches[0].location.matched_text, "<--");
    assert_eq!(matches[0].pattern_id, "arrow");
    assert_eq!(matches[0].message, "match");
    assert_eq!(matches[0].severity, Severity::High);
}

#[test]
fn literal_matches_use_a_forward_cursor() {
    let library = one_pattern("lit", PatternKind::Literal, "foo", Some(Severity::Low));
    let matcher = PatternMatcher::new(library).expect("matcher");
    let matches = matcher.scan_text("foo bar foo baz");
    assert_eq!(matches.len(), 2);
    assert_eq!(matches[0].location.column, 1);
    assert_eq!(matches[1].location.column, 9);
    assert_eq!(matches[1].location.matched_text, "foo");
}

#[test]
fn literal_matches_do_not_overlap() {
    let library = one_pattern("lit", PatternKind::Literal, "aa", None);
    let matcher = PatternMatcher::new(library).expect("matcher");
    let matches = matcher.scan_text("aaaaa");
    assert_eq!(matches.len(), 2);
    assert_eq!(matches[0].location.column, 1);
    assert_eq!(matches[1].location.column, 3);
    assert_eq!(matches[0].severity, Severity::Info);
}

#[test]
fn empty_literal_matches_nothing() {
    let library = one_pattern("lit", PatternKind::Literal, "", None);
    let matcher = PatternMatcher::new(library).expect("matcher");
    assert!(matcher.scan_text("anything at all\nmore").is_empty());
}

#[test]
fn columns_are_byte_offsets() {
    let library = one_pattern("lit", PatternKind::Literal, "x", None);
    let matcher = PatternMatcher::new(library).expect("matcher");
    let matches = matcher.scan_text("\u{e9}x");
    assert_eq!(matches.len(), 1);
    assert_eq!(matches[0].location.column, 3);
}

#[test]
fn fancy_regex_matches_carry_columns() {
    let library = one_pattern("dup", PatternKind::FancyRegex, r"(\w)\1", Some(Severity::Low));
    let matcher = PatternMatcher::new(library).expect("matcher");
    let matches = matcher.scan_text("aa bb cc");
    assert_eq!(matches[0].location.column, 1);
    assert_eq!(matches[1].location.column, 4);
    assert_eq!(matches[2].location.column, 7);
    assert_eq!(matches[2].location.matched_text, "cc");
}

#[test]
fn matches_come_in_scan_order() {
    let library = PatternLibrary {
        patterns: vec![
            Pattern {
                id: "second_letter".to_string(),
                kind: PatternKind::Literal,
                pattern: "b".to_string(),
                message: "b".to_string(),
                severity: None,
            },
            Pattern {
                id: "first_letter".to_string(),
                kind: PatternKind::Regex,
                pattern: "a".to_string(),
                message: "a".to_string(),
                severity: None,
            },
        ],
        invariants: vec![],
    };
    let matcher = PatternMatcher::new(library).expect("matcher");
    let matches = matcher.scan_text("a b a\r\nb a");
    let seen: Vec<(usize, usize, &str)> = matches
        .iter()
        .map(|m| (m.location.line, m.location.column, m.pattern_id.as_str()))
        .collect();
    assert_eq!(
        seen,
        vec![
            (1, 3, "second_letter"),
            (1, 1, "first_letter"),
            (1, 5, "first_letter"),
            (2, 1, "second_letter"),
            (2, 3, "first_letter"),
        ]
    );
}

#[test]
fn scan_stops_at_the_match_cap() {
    let library = one_pattern("lit", PatternKind::Literal, "a", None);
    let limits = MatcherLimits { max_matches: 3, ..MatcherLimits::default() };
    let matcher = PatternMatcher::new_with_limits(library, limits).expect("matcher");
    let matches = matcher.scan_text("aa\naa\naa");
    assert_eq!(matches.len(), 3);
    assert_eq!(matches[2].location.line, 2);
    assert_eq!(matches[2].location.column, 1);
}

#[test]
fn semantic_findings_obey_the_match_cap() {
    let library = one_pattern("lit", PatternKind::Literal, "signal", None);
    let limits = MatcherLimits { max_matches: 2, ..MatcherLimits::default() };
    let matcher = PatternMatcher::new_with_limits(library, limits)
        .expect("matcher")
        .with_semantic(true);
    let source = "template T() {\n signal x;\n x <-- 1;\n signal y;\n y <-- 2;\n}\n";
    let matches = matcher.scan_text(source);
    assert_eq!(matches.len(), 2);
}

#[test]
fn scanning_twice_gives_the_same_matches() {
    let library = one_pattern("arrow", PatternKind::Regex, r"<--|<==", Some(Severity::High));
    let matcher = PatternMatcher::new(library).expect("matcher").with_semantic(true);
    let source = "template T() {\n signal x;\n x <-- 1;\n c.in <== x;\n d.in <== x;\n}\n";
    let first = matcher.scan_text(source);
    let second = matcher.scan_text(source);
    assert_eq!(first.len(), second.len());
    for (a, b) in first.iter().zip(second.iter()) {
        assert_eq!(a.pattern_id, b.pattern_id);
        assert_eq!(a.message, b.message);
        assert_eq!(a.severity, b.severity);
        assert_eq!(a.location.line, b.location.line);
        assert_eq!(a.location.column, b.location.column);
        assert_eq!(a.location.matched_text, b.location.matched_text);
    }
}

#[test]
fn too_many_patterns_are_refused() {
    let library = PatternLibrary {
        patterns: vec![
            Pattern {
                id: "a".to_string(),
                kind: PatternKind::Literal,
                pattern: "a".to_string(),
                message: "a".to_string(),
                severity: None,
            },
            Pattern {
                id: "b".to_string(),
                kind: PatternKind::Literal,
                pattern: "b".to_string(),
                message: "b".to_string(),
                severity: None,
            },
        ],
        invariants: vec![],
    };
    let limits = MatcherLimits { max_patterns: 1, ..MatcherLimits::default() };
    let err = PatternMatcher::new_with_limits(library, limits).err().expect("error");
    assert!(matches!(err, MatcherError::TooManyPatterns { count: 2, max: 1 }));
    assert_eq!(err.message(), "Too many patterns: 2 (max 1)");
}

#[test]
fn invalid_regex_is_refused_with_its_id() {
    let library = one_pattern("broken", PatternKind::Regex, "(", None);
    let err = PatternMatcher::new(library).err().expect("error");
    assert!(matches!(err, MatcherError::InvalidRegex { .. }));
    assert!(err.message().starts_with("Invalid regex in pattern broken"));
}

#[test]
fn invalid_fancy_regex_is_refused_with_its_id() {
    let library = one_pattern("broken", PatternKind::FancyRegex, r"(?<=a", None);
    let err = PatternMatcher::new(library).err().expect("error");
    assert!(matches!(err, MatcherError::InvalidFancyRegex { .. }));
    assert!(err.message().starts_with("Invalid fancy-regex in pattern broken"));
}

#[test]
fn long_fancy_regex_is_refused() {
    let library = one_pattern("long", PatternKind::FancyRegex, &"a".repeat(201), None);
    let err = PatternMatcher::new(library).err().expect("error");
    assert!(matches!(err, MatcherError::FancyRegexTooLong { length: 201, max: 200, .. }));
    assert_eq!(err.message(), "Fancy-regex pattern too complex in long: 201 chars (max 200)");
}

#[test]
fn regex_of_exactly_the_bound_is_accepted() {
    let library = one_pattern("edge", PatternKind::Regex, &"a".repeat(200), None);
    assert!(PatternMatcher::new(library).is_ok());
}

#[test]
fn duplicate_is_reported_before_a_later_fault() {
    let library = PatternLibrary {
        patterns: vec![
            Pattern {
                id: "one".to_string(),
                kind: PatternKind::Literal,
                pattern: "a".to_string(),
                message: "a".to_string(),
                severity: None,
            },
            Pattern {
                id: "one".to_string(),
                kind: PatternKind::Ast,
                pattern: "b".to_string(),
                message: "b".to_string(),
                severity: None,
            },
        ],
        invariants: vec![],
    };
    let err = PatternMatcher::new(library).err().expect("error");
    assert!(matches!(err, MatcherError::DuplicateId { .. }));
    assert_eq!(err.message(), "Duplicate pattern id detected: one");
}

#[test]
fn file_size_is_checked_against_the_bound() {
    let matcher = PatternMatcher::new(PatternLibrary { patterns: vec![], invariants: vec![] })
        .expect("matcher");
    assert!(matcher.check_file_size(10 * 1024 * 1024).is_ok());
    let err = matcher.check_file_size(10 * 1024 * 1024 + 1).err().expect("error");
    assert_eq!(err.message(), "File too large: 10485761 bytes (max 10485760)");
}

#[test]
fn default_matcher_limits() {
    let limits = MatcherLimits::default();
    assert_eq!(limits.max_patterns, 1000);
    assert_eq!(limits.max_regex_length, 200);
    assert_eq!(limits.max_matches, 10_000);
    assert_eq!(limits.max_file_size, 10 * 1024 * 1024);
}
