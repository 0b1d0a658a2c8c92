use zk_pattern_matcher::collect::{is_keyword, line_mentions_signal};
use zk_pattern_matcher::engine::{capture, groups_of, matches_pattern, Shape};
use zk_pattern_matcher::grammar::Grammar;
use zk_pattern_matcher::guards::{
    component_from_signal_input, is_binary_constraint_for_signal, parse_qr_expr,
};
use zk_pattern_matcher::lexer::{
    compact_line_for_match, normalize_signal, strip_comment, strip_comments_preserve_lines,
    strip_indices,
};
use zk_pattern_matcher::matcher::semantic_severity;
use zk_pattern_matcher::template::split_into_templates;
use zk_pattern_matcher::text::{
    chars_of, contains_text, decimal, decimal_u64, lines_of, lowered, trimmed,
};
use zk_pattern_matcher::Severity;

#[test]
fn comments_are_stripped_and_lines_kept() {
    assert_eq!(strip_comments_preserve_lines("a // b\nc"), "a \nc");
    assert_eq!(strip_comments_preserve_lines("a /* b\nc\nd */ e"), "a \n\n e");
    assert_eq!(strip_comments_preserve_lines("a \"// s\" b"), "a \"// s\" b");
    assert_eq!(strip_comments_preserve_lines("a '/* s' b /* c */"), "a '/* s' b ");
    assert_eq!(strip_comments_preserve_lines("\"a\\\"//b\" // c"), "\"a\\\"//b\" ");
    assert_eq!(strip_comments_preserve_lines("a /* never closed\nb"), "a \n");
    assert_eq!(strip_comments_preserve_lines("a / b * c"), "a / b * c");
    assert_eq!(strip_comments_preserve_lines("x /"), "x /");
    assert_eq!(strip_comments_preserve_lines(""), "");
}

#[test]
fn line_comment_is_cut() {
    assert_eq!(strip_comment("x <-- 1; // hint"), "x <-- 1; ");
    assert_eq!(strip_comment("log(\"//\"); // c"), "log(\"//\"); ");
    assert_eq!(strip_comment("no comment"), "no comment");
    assert_eq!(strip_comment("a / b"), "a / b");
}

#[test]
fn signals_are_normalized() {
    assert_eq!(normalize_signal("x[0]"), "x");
    assert_eq!(normalize_signal("x[k+1]"), "x");
    assert_eq!(normalize_signal("x"), "x");
    assert_eq!(normalize_signal("a.b[1][2]"), "a.b");
    assert_eq!(normalize_signal("[0]"), "");
}

#[test]
fn indices_are_stripped() {
    assert_eq!(strip_indices("a[i][j] + b[k[0]]"), "a + b");
    assert_eq!(strip_indices("a] + b"), "a] + b");
    assert_eq!(strip_indices("a[b"), "a");
}

#[test]
fn compact_form() {
    assert_eq!(compact_line_for_match("  q [0] * m + r === a ; // x"), "q*m+r===a;");
}

#[test]
fn lines_follow_line_endings() {
    assert_eq!(lines_of("a\nb"), vec!["a", "b"]);
    assert_eq!(lines_of("a\nb\n"), vec!["a", "b"]);
    assert_eq!(lines_of("a\r\nb\r\n"), vec!["a", "b"]);
    assert_eq!(lines_of("a\rb\r"), vec!["a\rb\r"]);
    assert_eq!(lines_of("\n\n"), vec!["", ""]);
    assert_eq!(lines_of("a\n\r\n"), vec!["a", ""]);
    assert!(lines_of("").is_empty());
    assert_eq!(lines_of("a\nb"), "a\nb".lines().collect::<Vec<_>>());
    assert_eq!(lines_of("a\r\n\r"), "a\r\n\r".lines().collect::<Vec<_>>());
}

#[test]
fn text_helpers() {
    assert_eq!(chars_of("h\u{e9}"), vec!['h', '\u{e9}']);
    assert_eq!(trimmed("  a b \t\n"), "a b");
    assert_eq!(trimmed("\u{a0}x\u{2003}"), "x");
    assert_eq!(trimmed("   "), "");
    assert_eq!(lowered("AbC.IN Bit\u{c9}"), "abc.in bit\u{c9}");
    assert!(contains_text("a <== b", "<=="));
    assert!(!contains_text("a <= b", "<=="));
    assert!(contains_text("abc", ""));
    assert_eq!(decimal(0), "0");
    assert_eq!(decimal(9), "9");
    assert_eq!(decimal(10), "10");
    assert_eq!(decimal(1234567890), "1234567890");
    assert_eq!(decimal_u64(18446744073709551615), "18446744073709551615");
}

#[test]
fn keywords() {
    for word in [
        "template", "signal", "input", "output", "component", "var", "for", "if", "else", "while",
        "return", "function", "pragma", "include",
    ] {
        assert!(is_keyword(word));
    }
    assert!(!is_keyword("signals"));
    assert!(!is_keyword("Template"));
    assert!(!is_keyword(""));
}

#[test]
fn expressions_are_searched_by_the_engine() {
    assert!(matches_pattern(r"^\s*template\s+(\w+)\s*\(", "  template T("));
    assert!(!matches_pattern(r"^\s*template\s+(\w+)\s*\(", "a"));
    assert!(!matches_pattern("(", "("));
    assert!(!matches_pattern("abc", "cba"));
    assert_eq!(
        groups_of(r"(\w+)\.(\w+)", "x c1.in y"),
        Some(vec!["c1.in".to_string(), "c1".to_string(), "in".to_string()])
    );
    assert_eq!(groups_of(r"(a)|(b)", "b"), None);
    assert_eq!(groups_of(r"(a)", "b"), None);
    assert_eq!(
        Shape::new(r"(\d)(\w)").groups_all("1a 2b"),
        vec![
            vec!["1a".to_string(), "1".to_string(), "a".to_string()],
            vec!["2b".to_string(), "2".to_string(), "b".to_string()],
        ]
    );
    assert!(Shape::new("(").groups_all("(").is_empty());
    assert_eq!(capture(r"(\w+)\s*<--", " x <-- 1", 1), Some("x".to_string()));
    assert_eq!(capture(r"(\w+)\s*<--", " x <-- 1", 2), None);
    assert_eq!(Shape::new(r"a+").capture("baab", 0), Some("aa".to_string()));
    assert!(Shape::new(r"a+").is_match("baab"));
    assert!(!Shape::new(r"a+(").is_match("baab("));
}

#[test]
fn signals_are_found_as_whole_words() {
    assert!(line_mentions_signal("a + x === b", "x"));
    assert!(!line_mentions_signal("a + xy === b", "x"));
    assert!(line_mentions_signal("c.in === b", "c.in"));
    assert!(!line_mentions_signal("cxin === b", "c.in"));
}

#[test]
fn binary_constraints_in_four_spellings() {
    assert!(is_binary_constraint_for_signal("x * (1 - x) === 0;", "x"));
    assert!(is_binary_constraint_for_signal("(1 - x) * x === 0;", "x"));
    assert!(is_binary_constraint_for_signal("x[i] * (x[i] - 1) === 0;", "x"));
    assert!(is_binary_constraint_for_signal("(x - 1) * x === 0;", "x"));
    assert!(!is_binary_constraint_for_signal("x * (1 - y) === 0;", "x"));
    assert!(!is_binary_constraint_for_signal("x * (1 - x) === 1;", "x"));
    assert!(is_binary_constraint_for_signal("c.in * (1 - c.in) === 0;", "c.in"));
    assert!(is_binary_constraint_for_signal("(a.b[0] - 1) * a.b[0] === 0;", "a.b"));
    assert!(!is_binary_constraint_for_signal("cxin * (1 - cxin) === 0;", "c.in"));
}

#[test]
fn quotient_and_remainder_expressions() {
    let grammar = Grammar::new();
    assert_eq!(
        parse_qr_expr(&grammar, " a[0] \\ 7 "),
        Some(("a".to_string(), '\\', "7".to_string()))
    );
    assert_eq!(parse_qr_expr(&grammar, "in % m"), Some(("in".to_string(), '%', "m".to_string())));
    assert_eq!(parse_qr_expr(&grammar, "in / m"), None);
}

#[test]
fn input_ports() {
    assert_eq!(component_from_signal_input("bits.in"), Some("bits".to_string()));
    assert_eq!(component_from_signal_input("bits.out"), None);
    assert_eq!(component_from_signal_input("bits"), None);
    assert_eq!(component_from_signal_input("a.b.in"), None);
    assert_eq!(component_from_signal_input(".in"), Some("".to_string()));
}

#[test]
fn severity_words() {
    assert_eq!(semantic_severity("critical"), Severity::Critical);
    assert_eq!(semantic_severity("HIGH"), Severity::High);
    assert_eq!(semantic_severity("Medium"), Severity::Medium);
    assert_eq!(semantic_severity("low"), Severity::Low);
    assert_eq!(semantic_severity("info"), Severity::Info);
    assert_eq!(semantic_severity("other"), Severity::Info);
}

#[test]
fn templates_are_split_at_depth_zero() {
    let source = "pragma circom 2.0.0;\ntemplate A() {\n  if (x) { y; }\n}\nloose;\ntemplate B() {\n  z;\ntemplate C() {\n}\n";
    let templates = split_into_templates(&Grammar::new(), source);
    let shape: Vec<Vec<usize>> = templates
        .iter()
        .map(|t| t.lines.iter().map(|(n, _)| *n).collect())
        .collect();
    assert_eq!(shape, vec![vec![2, 3, 4], vec![6, 7], vec![8, 9]]);
    assert_eq!(templates[0].lines[1].1, "  if (x) { y; }");
}

#[test]
fn stray_closing_braces_do_not_unbalance() {
    let source = "}\n}\ntemplate A() {\n a;\n}\nb;\n";
    let templates = split_into_templates(&Grammar::new(), source);
    assert_eq!(templates.len(), 1);
    assert_eq!(templates[0].lines.len(), 3);
}

#[test]
fn white_space_is_the_unicode_property() {
    for code in 0..=0x10FFFFu32 {
        if let Some(c) = char::from_u32(code) {
            let text = c.to_string();
            assert_eq!(trimmed(&text).is_empty(), c.is_whitespace(), "U+{:04X}", code);
        }
    }
}

#[test]
fn helpers_agree_with_the_standard_library() {
    for text in ["", " ", "a", "  a  b\t", "\n\r x \u{3000}", "\u{feff}x ", "x\u{85}"] {
        assert_eq!(trimmed(text), text.trim());
        assert_eq!(lowered(text), text.to_ascii_lowercase());
    }
    for text in ["", "\n", "a", "a\n", "a\r\n", "\r\n\r\n", "a\rb", "a\n\nb\r", "\r", "a\r\r\n"] {
        assert_eq!(lines_of(text), text.lines().collect::<Vec<_>>(), "{:?}", text);
    }
    for n in [0usize, 1, 9, 10, 99, 100, 101, 65535, 4294967295] {
        assert_eq!(decimal(n), n.to_string());
    }
    for text in ["ABC", "mixed Case \u{e9}\u{df}", ""] {
        assert_eq!(
            zk_pattern_matcher::semantic::format_findings(&vec![
                zk_pattern_matcher::semantic::SemanticFinding {
                    line_no: 1,
                    signal: "s".to_string(),
                    finding_id: "i".to_string(),
                    message: "m".to_string(),
                    severity: text.to_string(),
                }
            ]),
            format!("[semantic][{}][line 1] i\n  \u{2192} m\n", text.to_uppercase())
        );
    }
}
