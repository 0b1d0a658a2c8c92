use std::path::Path;
use zk_pattern_matcher::config::parse_ignore_patterns;
use zk_pattern_matcher::scanner::{glob_to_pattern, IgnoreRule};
use zk_pattern_matcher::{Config, PatternLibrary, PatternMatcher, Scanner};

fn components_of(path: &str) -> Vec<String> {
    Path::new(path)
        .components()
        .map(|c| c.as_os_str().to_string_lossy().into_owned())
        .collect()
}

fn ignores(scanner: &Scanner, path: &str) -> bool {
    scanner.should_ignore(path, &components_of(path))
}

fn scanner_with(patterns: &[&str]) -> Scanner {
    let matcher = PatternMatcher::new(PatternLibrary {
        patterns: vec![],
        invariants: vec![],
    })
    .unwrap();
    Scanner::new(matcher, patterns.iter().map(|p| p.to_string()).collect())
}

#[test]
fn glob_extension_patterns_do_not_overmatch_directory_names() {
    let matcher = PatternMatcher::new(PatternLibrary {
        patterns: vec![],
        invariants: vec![],
    })
    .unwrap();

    let scanner = Scanner::new(matcher, vec!["*.a".to_string(), "*.o".to_string()]);

    assert!(!ignores(&scanner, "/tmp/aaa"));
    assert!(ignores(&scanner, "/tmp/liba.a"));
    assert!(ignores(&scanner, "/tmp/obj.o"));
}

#[test]
fn globs_become_anchored_expressions() {
    assert_eq!(glob_to_pattern("*.a"), r"^[^/]*\.a$");
    assert_eq!(glob_to_pattern("a?c"), "^a[^/]c$");
    assert_eq!(glob_to_pattern("x+(y)|{z}[w]^$\\"), r"^x\+\(y\)\|\{z\}\[w\]\^\$\\$");
    assert_eq!(glob_to_pattern(""), "^$");
}

#[test]
fn directory_rules_match_any_component() {
    let scanner = scanner_with(&["target/", "  node_modules//  "]);
    assert!(ignores(&scanner, "project/target/debug/x.circom"));
    assert!(ignores(&scanner, "node_modules/a"));
    assert!(!ignores(&scanner, "project/targets/x.circom"));
}

#[test]
fn literal_rules() {
    let scanner = scanner_with(&["build", "src/gen"]);
    assert!(ignores(&scanner, "a/build/b"));
    assert!(!ignores(&scanner, "a/builder/b"));
    assert!(ignores(&scanner, "x/src/gen/y.circom"));
    assert!(ignores(&scanner, "x/src/generated/y.circom"));
    assert!(!ignores(&scanner, "x/src/other/y.circom"));
}

#[test]
fn globs_with_a_slash_test_the_whole_path() {
    let scanner = scanner_with(&["src/*.tmp"]);
    assert!(ignores(&scanner, "src/a.tmp"));
    assert!(!ignores(&scanner, "lib/src/a.tmp"));
    assert!(!ignores(&scanner, "src/deep/a.tmp"));
}

#[test]
fn lines_that_give_no_rule() {
    assert!(IgnoreRule::from_pattern("").is_none());
    assert!(IgnoreRule::from_pattern("   ").is_none());
    assert!(IgnoreRule::from_pattern("/").is_none());
    assert!(IgnoreRule::from_pattern(" /// ").is_none());
    assert!(matches!(IgnoreRule::from_pattern("a/"), Some(IgnoreRule::Directory(_))));
    assert!(matches!(
        IgnoreRule::from_pattern("a*"),
        Some(IgnoreRule::Glob { match_components: true, .. })
    ));
    assert!(matches!(
        IgnoreRule::from_pattern("a/b"),
        Some(IgnoreRule::Literal { match_components: false, .. })
    ));
    let scanner = scanner_with(&["", "  "]);
    assert!(!ignores(&scanner, "anything"));
}

#[test]
fn a_glob_sees_case() {
    let scanner = scanner_with(&["a*/x"]);
    assert!(ignores(&scanner, "ab/x"));
    assert!(!ignores(&scanner, "AB/x"));
    let rule = IgnoreRule::from_pattern("*.TMP").expect("rule");
    assert!(rule.matches("f.TMP", &components_of("f.TMP")));
    assert!(!rule.matches("f.tmp", &components_of("f.tmp")));
}

#[test]
fn ignore_list_entries() {
    let entries = parse_ignore_patterns("# comment\n\n  target/  \n*.o\n   # indented comment\nbuild\r\n");
    assert_eq!(entries, vec!["target/", "*.o", "build"]);
    assert!(parse_ignore_patterns("").is_empty());
}

#[test]
fn default_configuration() {
    let config = Config::default();
    assert_eq!(config.limits.max_file_size, 10485760);
    assert_eq!(config.limits.max_pattern_file_size, 1048576);
    assert_eq!(config.limits.max_patterns, 1000);
    assert_eq!(config.limits.max_matches, 10000);
    assert_eq!(config.output.default_format, "text");
    assert!(config.output.show_icons);
    assert!(config.output.fail_on_critical);
    let loader = config.loader_limits();
    assert_eq!(loader.max_file_size, 1048576);
    assert_eq!(loader.max_lines, 10_000);
    let matcher = config.matcher_limits();
    assert_eq!(matcher.max_matches, 10000);
    assert_eq!(matcher.max_regex_length, 200);
    assert_eq!(matcher.max_file_size, 10485760);
}

#[test]
fn scanner_scans_with_its_matcher() {
    let scanner = scanner_with(&[]);
    assert!(scanner.scan_text("x <-- 1;").is_empty());
}
