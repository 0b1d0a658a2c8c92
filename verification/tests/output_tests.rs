use zk_pattern_matcher::output::{exit_code, flatten_matches, has_critical_or_high};
use zk_pattern_matcher::sarif::{severity_to_sarif_level, to_sarif, to_sarif_recursive};
use zk_pattern_matcher::{
    severity_icon, MatchLocation, OutputFormat, OutputFormatter, PatternMatch, Report, Severity,
    Summary,
};

fn make_match(id: &str, severity: Severity, line: usize, column: usize, text: &str) -> PatternMatch {
    PatternMatch {
        pattern_id: id.to_string(),
        message: format!("message of {}", id),
        severity,
        location: MatchLocation { line, column, matched_text: text.to_string() },
    }
}

#[test]
fn recursive_sarif_preserves_each_file_uri() {
    let matches_by_file = vec![
        (
            "/tmp/a.circom".to_string(),
            vec![PatternMatch {
                pattern_id: "rule_a".to_string(),
                message: "A".to_string(),
                severity: Severity::High,
                location: MatchLocation {
                    line: 1,
                    column: 1,
                    matched_text: "<--".to_string(),
                },
            }],
        ),
        (
            "/tmp/b.circom".to_string(),
            vec![PatternMatch {
                pattern_id: "rule_b".to_string(),
                message: "B".to_string(),
                severity: Severity::Medium,
                location: MatchLocation {
                    line: 2,
                    column: 3,
                    matched_text: "==".to_string(),
                },
            }],
        ),
    ];

    let report = to_sarif_recursive(&matches_by_file);
    let results = &report.runs[0].results;

    let uris: Vec<&str> = results
        .iter()
        .map(|result| result.locations[0].physical_location.artifact_location.uri.as_str())
        .collect();

    assert!(uris.contains(&"/tmp/a.circom"));
    assert!(uris.contains(&"/tmp/b.circom"));
}

#[test]
fn sarif_report_of_one_file() {
    let matches = vec![
        make_match("r1", Severity::Critical, 4, 7, "x"),
        make_match("r2", Severity::Low, 5, 1, "y"),
    ];
    let report = to_sarif(&matches, "dir/file.circom");
    assert_eq!(report.version, "2.1.0");
    assert_eq!(
        report.schema,
        "https://raw.githubusercontent.com/oasis-tcs/sarif-spec/master/Schemata/sarif-schema-2.1.0.json"
    );
    assert_eq!(report.runs.len(), 1);
    assert_eq!(report.runs[0].tool.driver.name, "zkpm");
    let results = &report.runs[0].results;
    assert_eq!(results.len(), 2);
    assert_eq!(results[0].rule_id, "r1");
    assert_eq!(results[0].level, "error");
    assert_eq!(results[0].message.text, "message of r1");
    assert_eq!(results[0].locations.len(), 1);
    let location = &results[0].locations[0].physical_location;
    assert_eq!(location.artifact_location.uri, "dir/file.circom");
    assert_eq!(location.region.start_line, 4);
    assert_eq!(location.region.start_column, 7);
    assert_eq!(results[1].level, "note");
}

#[test]
fn sarif_levels() {
    assert_eq!(severity_to_sarif_level(&Severity::Critical), "error");
    assert_eq!(severity_to_sarif_level(&Severity::High), "error");
    assert_eq!(severity_to_sarif_level(&Severity::Medium), "warning");
    assert_eq!(severity_to_sarif_level(&Severity::Low), "note");
    assert_eq!(severity_to_sarif_level(&Severity::Info), "note");
}

#[test]
fn summary_counts_by_severity() {
    let matches = vec![
        make_match("a", Severity::Critical, 1, 1, "x"),
        make_match("b", Severity::High, 1, 1, "x"),
        make_match("c", Severity::High, 1, 1, "x"),
        make_match("d", Severity::Info, 1, 1, "x"),
        make_match("e", Severity::Low, 1, 1, "x"),
        make_match("f", Severity::Info, 1, 1, "x"),
        make_match("g", Severity::Info, 1, 1, "x"),
    ];
    let summary = Summary::from_matches(&matches);
    assert_eq!(
        summary,
        Summary { total: 7, critical: 1, high: 2, medium: 0, low: 1, info: 3 }
    );
    let empty = Summary::from_matches(&vec![]);
    assert_eq!(empty, Summary { total: 0, critical: 0, high: 0, medium: 0, low: 0, info: 0 });
}

#[test]
fn text_report_of_one_file() {
    let formatter = OutputFormatter::new(OutputFormat::Text, false);
    let matches = vec![make_match("arrow", Severity::High, 12, 3, "<--")];
    match formatter.output_single(&matches, "f") {
        Report::Text(text) => assert_eq!(
            text,
            "Found 1 matches:\n\n[High] message of arrow\n   Pattern: arrow\n   Location: 12:3\n   Matched: <--\n\n"
        ),
        _ => panic!("expected text"),
    }
    match formatter.output_single(&vec![], "f") {
        Report::Text(text) => assert_eq!(text, "No patterns matched.\n"),
        _ => panic!("expected text"),
    }
}

#[test]
fn text_report_with_icons() {
    let formatter = OutputFormatter::new(OutputFormat::Text, true);
    let matches = vec![make_match("arrow", Severity::Critical, 1, 1, "<--")];
    match formatter.output_single(&matches, "f") {
        Report::Text(text) => assert!(text.contains("\u{1F534} [Critical] message of arrow\n")),
        _ => panic!("expected text"),
    }
}

#[test]
fn text_report_of_several_files() {
    let formatter = OutputFormatter::new(OutputFormat::Text, false);
    let results = vec![
        ("a.circom".to_string(), vec![make_match("r", Severity::Low, 1, 2, "x")]),
        (
            "b.circom".to_string(),
            vec![
                make_match("s", Severity::Info, 3, 4, "y"),
                make_match("t", Severity::Medium, 5, 6, "z"),
            ],
        ),
    ];
    match formatter.output_recursive(&results) {
        Report::Text(text) => assert_eq!(
            text,
            "Found 3 matches in 2 files:\n\na.circom:\n  [Low] message of r\n     Pattern: r\n     Location: 1:2\n\nb.circom:\n  [Info] message of s\n     Pattern: s\n     Location: 3:4\n\n  [Medium] message of t\n     Pattern: t\n     Location: 5:6\n\n"
        ),
        _ => panic!("expected text"),
    }
    match formatter.output_recursive(&vec![]) {
        Report::Text(text) => assert_eq!(text, "No patterns matched.\n"),
        _ => panic!("expected text"),
    }
}

#[test]
fn json_report_holds_matches_and_summary() {
    let formatter = OutputFormatter::new(OutputFormat::Json, true);
    let matches = vec![
        make_match("a", Severity::Critical, 1, 1, "x"),
        make_match("b", Severity::Medium, 2, 1, "y"),
    ];
    match formatter.output_single(&matches, "f") {
        Report::Json(doc) => {
            assert_eq!(doc.matches.len(), 2);
            assert_eq!(doc.matches[1].pattern_id, "b");
            assert_eq!(doc.summary.total, 2);
            assert_eq!(doc.summary.critical, 1);
            assert_eq!(doc.summary.medium, 1);
        }
        _ => panic!("expected the summary document"),
    }
    let results = vec![("a".to_string(), matches.clone()), ("b".to_string(), matches)];
    match formatter.output_recursive(&results) {
        Report::Json(doc) => {
            assert_eq!(doc.matches.len(), 4);
            assert_eq!(doc.summary.total, 4);
            assert_eq!(doc.summary.critical, 2);
        }
        _ => panic!("expected the summary document"),
    }
}

#[test]
fn sarif_report_from_the_formatter() {
    let formatter = OutputFormatter::new(OutputFormat::Sarif, true);
    let matches = vec![make_match("a", Severity::Medium, 1, 1, "x")];
    match formatter.output_single(&matches, "one.circom") {
        Report::Sarif(report) => {
            assert_eq!(report.runs[0].results.len(), 1);
            assert_eq!(report.runs[0].results[0].level, "warning");
        }
        _ => panic!("expected SARIF"),
    }
    let results = vec![("a".to_string(), matches.clone()), ("b".to_string(), matches)];
    match formatter.output_recursive(&results) {
        Report::Sarif(report) => {
            let results = &report.runs[0].results;
            assert_eq!(results.len(), 2);
            assert_eq!(results[0].locations[0].physical_location.artifact_location.uri, "a");
            assert_eq!(results[1].locations[0].physical_location.artifact_location.uri, "b");
            assert_eq!(report.runs[0].tool.driver.name, "zkpm");
        }
        _ => panic!("expected SARIF"),
    }
}

#[test]
fn format_names() {
    assert_eq!(OutputFormat::from_name("json"), OutputFormat::Json);
    assert_eq!(OutputFormat::from_name("sarif"), OutputFormat::Sarif);
    assert_eq!(OutputFormat::from_name("text"), OutputFormat::Text);
    assert_eq!(OutputFormat::from_name("JSON"), OutputFormat::Text);
}

#[test]
fn icons() {
    assert_eq!(severity_icon(false, &Severity::Critical), "");
    assert_eq!(severity_icon(true, &Severity::Critical), "\u{1F534} ");
    assert_eq!(severity_icon(true, &Severity::High), "\u{1F7E0} ");
    assert_eq!(severity_icon(true, &Severity::Medium), "\u{1F7E1} ");
    assert_eq!(severity_icon(true, &Severity::Low), "\u{1F535} ");
    assert_eq!(severity_icon(true, &Severity::Info), "\u{2139}\u{FE0F}  ");
}

#[test]
fn exit_codes() {
    let calm = vec![make_match("a", Severity::Medium, 1, 1, "x")];
    let alarming = vec![
        make_match("a", Severity::Low, 1, 1, "x"),
        make_match("b", Severity::High, 1, 1, "x"),
    ];
    assert!(!has_critical_or_high(&calm));
    assert!(has_critical_or_high(&alarming));
    assert!(!has_critical_or_high(&vec![]));
    assert_eq!(exit_code(true, true), 1);
    assert_eq!(exit_code(true, false), 0);
    assert_eq!(exit_code(false, true), 0);
}

#[test]
fn flattening_keeps_file_order() {
    let results = vec![
        ("a".to_string(), vec![make_match("1", Severity::Low, 1, 1, "x")]),
        ("b".to_string(), vec![]),
        (
            "c".to_string(),
            vec![make_match("2", Severity::Low, 1, 1, "x"), make_match("3", Severity::Low, 1, 1, "x")],
        ),
    ];
    let ids: Vec<String> = flatten_matches(&results).into_iter().map(|m| m.pattern_id).collect();
    assert_eq!(ids, vec!["1", "2", "3"]);
}

#[test]
fn severity_order_and_names() {
    assert!(Severity::Critical.at_least(&Severity::High));
    assert!(Severity::Medium.at_least(&Severity::Medium));
    assert!(!Severity::Info.at_least(&Severity::Low));
    assert_eq!(Severity::Critical.rank(), 0);
    assert_eq!(Severity::Info.rank(), 4);
    assert_eq!(Severity::High.name(), "high");
    assert_eq!(Severity::Low.label(), "Low");
}
