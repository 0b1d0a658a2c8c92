use zk_pattern_matcher::loader::{
    check_file_size, check_library_count, check_line_count, merge_library, LoaderError,
};
use zk_pattern_matcher::{
    load_pattern_libraries, load_pattern_libraries_with_limits, Invariant, InvariantType,
    LoaderLimits, Oracle, Pattern, PatternKind, PatternLibrary, Severity,
};

fn literal(id: &str, pattern: &str, message: &str) -> Pattern {
    Pattern {
        id: id.to_string(),
        kind: PatternKind::Literal,
        pattern: pattern.to_string(),
        message: message.to_string(),
        severity: None,
    }
}

fn library(patterns: Vec<Pattern>) -> PatternLibrary {
    PatternLibrary { patterns, invariants: vec![] }
}

fn declared(name: &str) -> Invariant {
    Invariant {
        name: name.to_string(),
        invariant_type: InvariantType::Constraint,
        relation: "a == b".to_string(),
        oracle: Oracle::MustHold,
        severity: Severity::High,
        description: "d".to_string(),
    }
}

#[test]
fn duplicate_pattern_ids_across_libraries_are_rejected() {
    let first = library(vec![literal("dup", "foo", "one")]);
    let second = library(vec![literal("dup", "bar", "two")]);

    let err = load_pattern_libraries_with_limits(vec![first, second], LoaderLimits::default())
        .err()
        .expect("expected duplicate ID error");

    assert!(err.message().contains("Duplicate pattern id"));
}

#[test]
fn duplicate_error_names_the_id() {
    let first = library(vec![literal("a", "foo", "one"), literal("b", "foo", "one")]);
    let second = library(vec![literal("c", "bar", "two"), literal("b", "bar", "two")]);
    let third = library(vec![literal("a", "bar", "two")]);
    let err = load_pattern_libraries(vec![first, second, third]).err().expect("error");
    assert!(matches!(err, LoaderError::DuplicatePatternId { .. }));
    assert_eq!(err.message(), "Duplicate pattern id 'b' found while merging libraries");
}

#[test]
fn duplicate_within_one_library_is_rejected() {
    let only = library(vec![literal("a", "foo", "one"), literal("a", "bar", "two")]);
    let err = load_pattern_libraries(vec![only]).err().expect("error");
    assert_eq!(err.message(), "Duplicate pattern id 'a' found while merging libraries");
}

#[test]
fn merge_keeps_the_order() {
    let first = PatternLibrary {
        patterns: vec![literal("a", "1", "m"), literal("b", "2", "m")],
        invariants: vec![declared("i1")],
    };
    let second = PatternLibrary { patterns: vec![], invariants: vec![declared("i2")] };
    let third = PatternLibrary {
        patterns: vec![literal("c", "3", "m")],
        invariants: vec![declared("i3"), declared("i4")],
    };
    let merged = load_pattern_libraries(vec![first, second, third]).expect("merged");
    let ids: Vec<&str> = merged.patterns.iter().map(|p| p.id.as_str()).collect();
    assert_eq!(ids, vec!["a", "b", "c"]);
    let names: Vec<&str> = merged.invariants.iter().map(|i| i.name.as_str()).collect();
    assert_eq!(names, vec!["i1", "i2", "i3", "i4"]);
    assert_eq!(merged.patterns[2].pattern, "3");
}

#[test]
fn merging_nothing_gives_an_empty_library() {
    let merged = load_pattern_libraries(vec![]).expect("merged");
    assert!(merged.patterns.is_empty());
    assert!(merged.invariants.is_empty());
}

#[test]
fn too_many_libraries_are_refused() {
    let limits = LoaderLimits { max_libraries: 2, ..LoaderLimits::default() };
    let libs = vec![library(vec![]), library(vec![]), library(vec![])];
    let err = load_pattern_libraries_with_limits(libs, limits).err().expect("error");
    assert!(matches!(err, LoaderError::TooManyLibraries { count: 3, max: 2 }));
    assert_eq!(err.message(), "Too many pattern libraries: 3 (max 2)");
    let libs = vec![library(vec![]), library(vec![])];
    assert!(load_pattern_libraries_with_limits(libs, limits).is_ok());
}

#[test]
fn library_count_bound() {
    let limits = LoaderLimits::default();
    assert!(check_library_count(0, &limits).is_ok());
    assert!(check_library_count(100, &limits).is_ok());
    let err = check_library_count(101, &limits).err().expect("error");
    assert!(matches!(err, LoaderError::TooManyLibraries { count: 101, max: 100 }));
    assert_eq!(err.message(), "Too many pattern libraries: 101 (max 100)");
}

#[test]
fn merge_step_by_step() {
    let merged = library(vec![literal("a", "1", "m")]);
    let merged = merge_library(merged, library(vec![literal("b", "2", "m")])).expect("merged");
    assert_eq!(merged.patterns.len(), 2);
    let err = merge_library(merged, library(vec![literal("c", "3", "m"), literal("a", "4", "m")]))
        .err()
        .expect("error");
    assert_eq!(err.message(), "Duplicate pattern id 'a' found while merging libraries");
}

#[test]
fn file_size_bound() {
    let limits = LoaderLimits::default();
    assert!(check_file_size(1024 * 1024, &limits).is_ok());
    let err = check_file_size(1024 * 1024 + 1, &limits).err().expect("error");
    assert!(matches!(err, LoaderError::FileTooLarge { .. }));
    assert_eq!(err.message(), "Pattern file too large: 1048577 bytes (max 1048576)");
}

#[test]
fn line_count_bound() {
    let limits = LoaderLimits { max_lines: 3, ..LoaderLimits::default() };
    assert!(check_line_count("a\nb\nc\n", &limits).is_ok());
    assert!(check_line_count("a\r\nb\r\nc", &limits).is_ok());
    assert!(check_line_count("", &limits).is_ok());
    let err = check_line_count("a\nb\nc\nd", &limits).err().expect("error");
    assert!(matches!(err, LoaderError::TooManyLines { lines: 4, max: 3 }));
    assert_eq!(err.message(), "Pattern file too complex: 4 lines (max 3)");
}

#[test]
fn default_loader_limits() {
    let limits = LoaderLimits::default();
    assert_eq!(limits.max_file_size, 1024 * 1024);
    assert_eq!(limits.max_lines, 10_000);
    assert_eq!(limits.max_libraries, 100);
}
