//! Reports in the SARIF 2.1.0 shape: one run, one result for each match.

use vstd::prelude::*;
use vstd::string::*;
use crate::types::{PatternMatch, PatternMatchView, Severity};

verus! {

/// The SARIF version that the reports follow.
pub const SARIF_VERSION: &'static str = "2.1.0";

/// Where the schema of that version is published.
pub const SARIF_SCHEMA: &'static str =
    "https://raw.githubusercontent.com/oasis-tcs/sarif-spec/master/Schemata/sarif-schema-2.1.0.json";

/// The name of the tool as reports give it.
pub const TOOL_NAME: &'static str = "zkpm";

/// The version of the tool as reports give it.
pub const TOOL_VERSION: &'static str = "0.1.0";

/// Where the tool is described.
pub const TOOL_URI: &'static str = "https://github.com/teycir/ZkPatternMatcher";

#[derive(Debug)]
pub struct SarifReport {
    pub version: String,
    pub schema: String,
    pub runs: Vec<SarifRun>,
}

#[derive(Debug)]
pub struct SarifRun {
    pub tool: SarifTool,
    pub results: Vec<SarifResult>,
}

#[derive(Debug)]
pub struct SarifTool {
    pub driver: SarifDriver,
}

#[derive(Debug)]
pub struct SarifDriver {
    pub name: String,
    pub version: String,
    pub information_uri: String,
}

#[derive(Debug)]
pub struct SarifResult {
    pub rule_id: String,
    pub level: String,
    pub message: SarifMessage,
    pub locations: Vec<SarifLocation>,
}

#[derive(Debug)]
pub struct SarifMessage {
    pub text: String,
}

#[derive(Debug)]
pub struct SarifLocation {
    pub physical_location: SarifPhysicalLocation,
}

#[derive(Debug)]
pub struct SarifPhysicalLocation {
    pub artifact_location: SarifArtifactLocation,
    pub region: SarifRegion,
}

#[derive(Debug)]
pub struct SarifArtifactLocation {
    pub uri: String,
}

#[derive(Debug)]
pub struct SarifRegion {
    pub start_line: usize,
    pub start_column: usize,
}

/// The SARIF level of a severity: `error` for critical and high, `warning`
/// for medium, `note` for low and info.
pub open spec fn sarif_level(severity: Severity) -> Seq<char> {
    match severity {
        Severity::Critical | Severity::High => "error"@,
        Severity::Medium => "warning"@,
        Severity::Low | Severity::Info => "note"@,
    }
}

/// The SARIF level of a severity.
pub fn severity_to_sarif_level(severity: &Severity) -> (r: &'static str)
    ensures
        r@ == sarif_level(*severity),
{
    match severity {
        Severity::Critical | Severity::High => "error",
        Severity::Medium => "warning",
        Severity::Low | Severity::Info => "note",
    }
}

/// Whether a result reports the match in the file: rule id, level, message,
/// and one location that names the file, the line and the column.
pub open spec fn reports(result: SarifResult, m: PatternMatchView, file_path: Seq<char>) -> bool {
    &&& result.rule_id@ == m.pattern_id
    &&& result.level@ == sarif_level(m.severity)
    &&& result.message.text@ == m.message
    &&& result.locations.len() == 1
    &&& result.locations[0].physical_location.artifact_location.uri@ == file_path
    &&& result.locations[0].physical_location.region.start_line == m.location.line
    &&& result.locations[0].physical_location.region.start_column == m.location.column
}

/// Whether a report has the fixed frame: the version, the schema, and one
/// run by this tool.
pub open spec fn is_framed(report: SarifReport) -> bool {
    &&& report.version@ == SARIF_VERSION@
    &&& report.schema@ == SARIF_SCHEMA@
    &&& report.runs.len() == 1
    &&& report.runs[0].tool.driver.name@ == TOOL_NAME@
    &&& report.runs[0].tool.driver.version@ == TOOL_VERSION@
    &&& report.runs[0].tool.driver.information_uri@ == TOOL_URI@
}

/// Whether a report is the report of the matches of one file: the frame,
/// and one result for each match, in order.
pub open spec fn is_report_of(
    report: SarifReport,
    matches: Seq<PatternMatchView>,
    file_path: Seq<char>,
) -> bool {
    &&& is_framed(report)
    &&& report.runs[0].results.len() == matches.len()
    &&& forall|i: int|
        0 <= i < matches.len() ==> reports(#[trigger] report.runs[0].results[i], matches[i], file_path)
}

/// Builds the result for one match.
pub fn build_result(pattern_match: &PatternMatch, file_path: &str) -> (r: SarifResult)
    ensures
        reports(r, pattern_match.deep_view(), file_path@),
{
    let mut locations: Vec<SarifLocation> = Vec::new();
    locations.push(
        SarifLocation {
            physical_location: SarifPhysicalLocation {
                artifact_location: SarifArtifactLocation { uri: String::from_str(file_path) },
                region: SarifRegion {
                    start_line: pattern_match.location.line,
                    start_column: pattern_match.location.column,
                },
            },
        },
    );
    SarifResult {
        rule_id: pattern_match.pattern_id.clone(),
        level: String::from_str(severity_to_sarif_level(&pattern_match.severity)),
        message: SarifMessage { text: pattern_match.message.clone() },
        locations,
    }
}

/// Puts results into the frame of a report.
pub fn build_report(results: Vec<SarifResult>) -> (r: SarifReport)
    ensures
        is_framed(r),
        r.runs[0].results == results,
{
    let mut runs: Vec<SarifRun> = Vec::new();
    runs.push(
        SarifRun {
            tool: SarifTool {
                driver: SarifDriver {
                    name: String::from_str(TOOL_NAME),
                    version: String::from_str(TOOL_VERSION),
                    information_uri: String::from_str(TOOL_URI),
                },
            },
            results,
        },
    );
    SarifReport {
        version: String::from_str(SARIF_VERSION),
        schema: String::from_str(SARIF_SCHEMA),
        runs,
    }
}

/// The report of the matches of one file: one result for each match, in
/// order.
pub fn to_sarif(matches: &Vec<PatternMatch>, file_path: &str) -> (r: SarifReport)
    ensures
        is_report_of(r, matches.deep_view(), file_path@),
{
    let ghost ms = matches.deep_view();
    let mut results: Vec<SarifResult> = Vec::new();
    let mut i: usize = 0;
    while i < matches.len()
        invariant
            i <= matches.len(),
            ms == matches.deep_view(),
            results.len() == i,
            forall|k: int| 0 <= k < i ==> reports(#[trigger] results[k], ms[k], file_path@),
        decreases matches.len() - i,
    {
        assert(ms[i as int] == matches[i as int].deep_view());
        results.push(build_result(&matches[i], file_path));
        i += 1;
    }
    build_report(results)
}

/// The number of matches in the first `n` files.
pub open spec fn matches_before(results: Seq<(String, Vec<PatternMatch>)>, n: int) -> int
    decreases n,
{
    if n <= 0 {
        0
    } else {
        matches_before(results, n - 1) + results[n - 1].1.len()
    }
}

/// Whether a report is the report of the matches of several files: the
/// frame, and one result for each match, file by file in order, each under
/// the path of its own file.
pub open spec fn is_report_of_files(
    report: SarifReport,
    results_by_file: Seq<(String, Vec<PatternMatch>)>,
) -> bool {
    &&& is_framed(report)
    &&& report.runs[0].results.len() == matches_before(
        results_by_file,
        results_by_file.len() as int,
    )
    &&& forall|f: int, i: int|
        0 <= f < results_by_file.len() && 0 <= i < results_by_file[f].1.len() ==> reports(
            report.runs[0].results[matches_before(results_by_file, f) + i],
            (#[trigger] results_by_file[f].1[i]).deep_view(),
            results_by_file[f].0@,
        )
}

/// The report of the matches of several files: one result for each match,
/// file by file, each under the path of its own file.
pub fn to_sarif_recursive(results_by_file: &Vec<(String, Vec<PatternMatch>)>) -> (r: SarifReport)
    ensures
        is_report_of_files(r, results_by_file@),
{
    let mut results: Vec<SarifResult> = Vec::new();
    let mut f: usize = 0;
    while f < results_by_file.len()
        invariant
            f <= results_by_file.len(),
            results.len() == matches_before(results_by_file@, f as int),
            forall|g: int, i: int|
                0 <= g < f && 0 <= i < results_by_file[g].1.len() ==> reports(
                    results[matches_before(results_by_file@, g) + i],
                    (#[trigger] results_by_file[g].1[i]).deep_view(),
                    results_by_file[g].0@,
                ),
        decreases results_by_file.len() - f,
    {
        let path = results_by_file[f].0.as_str();
        let matches = &results_by_file[f].1;
        let ghost base = results@;
        let mut i: usize = 0;
        while i < matches.len()
            invariant
                f < results_by_file.len(),
                matches == &results_by_file[f as int].1,
                path@ == results_by_file[f as int].0@,
                i <= matches.len(),
                base.len() == matches_before(results_by_file@, f as int),
                results.len() == base.len() + i,
                forall|k: int| 0 <= k < base.len() ==> results[k] == base[k],
                forall|k: int|
                    0 <= k < i ==> reports(
                        results[base.len() + k],
                        (#[trigger] matches[k]).deep_view(),
                        path@,
                    ),
            decreases matches.len() - i,
        {
            results.push(build_result(&matches[i], path));
            i += 1;
        }
        proof {
            assert forall|g: int, i: int|
                0 <= g < f + 1 && 0 <= i < results_by_file[g].1.len() implies reports(
                results[matches_before(results_by_file@, g) + i],
                (#[trigger] results_by_file[g].1[i]).deep_view(),
                results_by_file[g].0@,
            ) by {
                lemma_matches_before_monotone(results_by_file@, g, f as int);
                if g < f {
                    lemma_matches_before_monotone(results_by_file@, g + 1, f as int);
                    assert(results[matches_before(results_by_file@, g) + i] == base[matches_before(
                        results_by_file@,
                        g,
                    ) + i]);
                }
            }
        }
        f += 1;
    }
    build_report(results)
}

/// The count of matches grows with the number of files.
pub proof fn lemma_matches_before_monotone(results: Seq<(String, Vec<PatternMatch>)>, a: int, b: int)
    requires
        0 <= a <= b <= results.len(),
    ensures
        0 <= matches_before(results, a) <= matches_before(results, b),
    decreases b,
{
    if a < b {
        lemma_matches_before_monotone(results, a, b - 1);
    } else if b > 0 {
        lemma_matches_before_monotone(results, a - 1, b - 1);
    }
}

} // verus!
