//! The three shapes in which the matches of a scan are reported: text, a
//! summary document, and SARIF.
//!
//! The formatter builds a report as a value; writing it out is the caller's
//! part.

use vstd::prelude::*;
use vstd::string::*;
use crate::sarif::{
    is_report_of, is_report_of_files, to_sarif, to_sarif_recursive, SarifReport,
};
use crate::text::{decimal, decimal_digits, decimal_u128};
use crate::types::{duplicate_matches, PatternMatch, PatternMatchView, Severity};

verus! {

pub const ICON_CRITICAL: &'static str = "\u{1F534} ";

pub const ICON_HIGH: &'static str = "\u{1F7E0} ";

pub const ICON_MEDIUM: &'static str = "\u{1F7E1} ";

pub const ICON_LOW: &'static str = "\u{1F535} ";

pub const ICON_INFO: &'static str = "\u{2139}\u{FE0F}  ";

pub const NO_ICON: &'static str = "";

pub const NOTHING_MATCHED: &'static str = "No patterns matched.\n";

/// The number of matches of a scan, in all and by severity.
#[derive(Debug, Clone, Copy, PartialEq, Eq)]
pub struct Summary {
    pub total: usize,
    pub critical: usize,
    pub high: usize,
    pub medium: usize,
    pub low: usize,
    pub info: usize,
}

/// The number of matches of a severity among the first `n`.
pub open spec fn count_severity(matches: Seq<PatternMatchView>, n: int, severity: Severity) -> nat
    decreases n,
{
    if n <= 0 {
        0
    } else if matches[n - 1].severity == severity {
        count_severity(matches, n - 1, severity) + 1
    } else {
        count_severity(matches, n - 1, severity)
    }
}

/// Whether a summary counts the matches: in all, and for each severity.
pub open spec fn summarizes(summary: Summary, matches: Seq<PatternMatchView>) -> bool {
    let n = matches.len() as int;
    &&& summary.total == n
    &&& summary.critical == count_severity(matches, n, Severity::Critical)
    &&& summary.high == count_severity(matches, n, Severity::High)
    &&& summary.medium == count_severity(matches, n, Severity::Medium)
    &&& summary.low == count_severity(matches, n, Severity::Low)
    &&& summary.info == count_severity(matches, n, Severity::Info)
}

impl Summary {
    /// Counts the matches, in all and by severity.  The five counts add up
    /// to the total.
    pub fn from_matches(matches: &Vec<PatternMatch>) -> (r: Summary)
        ensures
            summarizes(r, matches.deep_view()),
            r.critical + r.high + r.medium + r.low + r.info == r.total,
    {
        let ghost ms = matches.deep_view();
        let mut critical: usize = 0;
        let mut high: usize = 0;
        let mut medium: usize = 0;
        let mut low: usize = 0;
        let mut info: usize = 0;
        let mut i: usize = 0;
        while i < matches.len()
            invariant
                ms == matches.deep_view(),
                i <= matches.len(),
                critical == count_severity(ms, i as int, Severity::Critical),
                high == count_severity(ms, i as int, Severity::High),
                medium == count_severity(ms, i as int, Severity::Medium),
                low == count_severity(ms, i as int, Severity::Low),
                info == count_severity(ms, i as int, Severity::Info),
                critical + high + medium + low + info == i,
            decreases matches.len() - i,
        {
            assert(ms[i as int] == matches[i as int].deep_view());
            match matches[i].severity {
                Severity::Critical => {
                    critical += 1;
                },
                Severity::High => {
                    high += 1;
                },
                Severity::Medium => {
                    medium += 1;
                },
                Severity::Low => {
                    low += 1;
                },
                Severity::Info => {
                    info += 1;
                },
            }
            i += 1;
        }
        Summary { total: matches.len(), critical, high, medium, low, info }
    }
}

/// The summary document: the matches and their counts.
#[derive(Debug)]
pub struct JsonOutput {
    pub matches: Vec<PatternMatch>,
    pub summary: Summary,
}

/// The shape of a report.
#[derive(Debug, Clone, Copy, PartialEq, Eq, Structural)]
pub enum OutputFormat {
    Text,
    Json,
    Sarif,
}

impl OutputFormat {
    /// The format that a name asks for: `json`, `sarif`, and text for any
    /// other name.
    pub fn from_name(name: &str) -> (r: OutputFormat)
        ensures
            r == if name@ == "json"@ {
                OutputFormat::Json
            } else if name@ == "sarif"@ {
                OutputFormat::Sarif
            } else {
                OutputFormat::Text
            },
    {
        if crate::text::same_text(name, "json") {
            OutputFormat::Json
        } else if crate::text::same_text(name, "sarif") {
            OutputFormat::Sarif
        } else {
            OutputFormat::Text
        }
    }
}

/// A report, ready to be written out.
#[derive(Debug)]
pub enum Report {
    /// Lines of text.
    Text(String),
    /// The summary document.
    Json(JsonOutput),
    /// The SARIF document.
    Sarif(SarifReport),
}

/// The icon that stands before a severity, or nothing where icons are off.
pub open spec fn icon_of(show_icons: bool, severity: Severity) -> Seq<char> {
    if !show_icons {
        NO_ICON@
    } else {
        match severity {
            Severity::Critical => ICON_CRITICAL@,
            Severity::High => ICON_HIGH@,
            Severity::Medium => ICON_MEDIUM@,
            Severity::Low => ICON_LOW@,
            Severity::Info => ICON_INFO@,
        }
    }
}

/// The icon that stands before a severity.
pub fn severity_icon(show_icons: bool, severity: &Severity) -> (r: &'static str)
    ensures
        r@ == icon_of(show_icons, *severity),
{
    if !show_icons {
        NO_ICON
    } else {
        match severity {
            Severity::Critical => ICON_CRITICAL,
            Severity::High => ICON_HIGH,
            Severity::Medium => ICON_MEDIUM,
            Severity::Low => ICON_LOW,
            Severity::Info => ICON_INFO,
        }
    }
}

/// The head of an entry: icon, severity label and message, after an
/// indent.
pub open spec fn entry_head(m: PatternMatchView, show_icons: bool, indent: Seq<char>) -> Seq<char> {
    indent + icon_of(show_icons, m.severity) + "["@ + m.severity.spec_label() + "] "@ + m.message
        + "\n"@
}

/// One match as the report of a single file shows it.
pub open spec fn single_entry(m: PatternMatchView, show_icons: bool) -> Seq<char> {
    entry_head(m, show_icons, ""@) + "   Pattern: "@ + m.pattern_id + "\n"@ + "   Location: "@
        + decimal_digits(m.location.line as nat) + ":"@ + decimal_digits(m.location.column as nat)
        + "\n"@ + "   Matched: "@ + m.location.matched_text + "\n\n"@
}

/// One match as the report of several files shows it.
pub open spec fn nested_entry(m: PatternMatchView, show_icons: bool) -> Seq<char> {
    entry_head(m, show_icons, "  "@) + "     Pattern: "@ + m.pattern_id + "\n"@
        + "     Location: "@ + decimal_digits(m.location.line as nat) + ":"@ + decimal_digits(
        m.location.column as nat,
    ) + "\n\n"@
}

/// The entries of the first `n` matches, one after the other.
pub open spec fn entries_upto(
    matches: Seq<PatternMatchView>,
    n: int,
    show_icons: bool,
    nested: bool,
) -> Seq<char>
    decreases n,
{
    if n <= 0 {
        Seq::empty()
    } else {
        entries_upto(matches, n - 1, show_icons, nested) + (if nested {
            nested_entry(matches[n - 1], show_icons)
        } else {
            single_entry(matches[n - 1], show_icons)
        })
    }
}

/// The text report of the matches of one file.
pub open spec fn single_text(matches: Seq<PatternMatchView>, show_icons: bool) -> Seq<char> {
    if matches.len() == 0 {
        NOTHING_MATCHED@
    } else {
        "Found "@ + decimal_digits(matches.len()) + " matches:\n\n"@ + entries_upto(
            matches,
            matches.len() as int,
            show_icons,
            false,
        )
    }
}

/// The matches of the first `n` files, one list after the other.
pub open spec fn all_matches_upto(results: Seq<(Seq<char>, Seq<PatternMatchView>)>, n: int) -> Seq<
    PatternMatchView,
>
    decreases n,
{
    if n <= 0 {
        Seq::empty()
    } else {
        all_matches_upto(results, n - 1) + results[n - 1].1
    }
}

/// The matches of all files, one list after the other.
pub open spec fn all_matches(results: Seq<(Seq<char>, Seq<PatternMatchView>)>) -> Seq<
    PatternMatchView,
> {
    all_matches_upto(results, results.len() as int)
}

/// The sections of the first `n` files: the path, then the entries.
pub open spec fn sections_upto(
    results: Seq<(Seq<char>, Seq<PatternMatchView>)>,
    n: int,
    show_icons: bool,
) -> Seq<char>
    decreases n,
{
    if n <= 0 {
        Seq::empty()
    } else {
        sections_upto(results, n - 1, show_icons) + results[n - 1].0 + ":\n"@ + entries_upto(
            results[n - 1].1,
            results[n - 1].1.len() as int,
            show_icons,
            true,
        )
    }
}

/// The text report of the matches of several files.
pub open spec fn recursive_text(results: Seq<(Seq<char>, Seq<PatternMatchView>)>, show_icons: bool) -> Seq<
    char,
> {
    if results.len() == 0 {
        NOTHING_MATCHED@
    } else {
        "Found "@ + decimal_digits(all_matches(results).len()) + " matches in "@ + decimal_digits(
            results.len(),
        ) + " files:\n\n"@ + sections_upto(results, results.len() as int, show_icons)
    }
}

/// Builds reports in one of the three shapes.
#[derive(Debug, Clone, Copy)]
pub struct OutputFormatter {
    format: OutputFormat,
    show_icons: bool,
}

impl OutputFormatter {
    /// The shape of the reports of this formatter.
    pub closed spec fn format(&self) -> OutputFormat {
        self.format
    }

    /// Whether its text reports show icons.
    pub closed spec fn icons(&self) -> bool {
        self.show_icons
    }

    /// A formatter for a shape.
    pub fn new(format: OutputFormat, show_icons: bool) -> (r: OutputFormatter)
        ensures
            r.format() == format,
            r.icons() == show_icons,
    {
        OutputFormatter { format, show_icons }
    }

    /// Appends the entries of a list of matches to a text.
    fn append_entries(&self, out: &mut String, matches: &Vec<PatternMatch>, nested: bool)
        ensures
            final(out)@ == old(out)@ + entries_upto(
                matches.deep_view(),
                matches.len() as int,
                self.icons(),
                nested,
            ),
    {
        let ghost ms = matches.deep_view();
        let ghost base = out@;
        let mut i: usize = 0;
        assert(base + entries_upto(ms, 0, self.icons(), nested) =~= base);
        while i < matches.len()
            invariant
                ms == matches.deep_view(),
                i <= matches.len(),
                out@ == base + entries_upto(ms, i as int, self.icons(), nested),
            decreases matches.len() - i,
        {
            let m = &matches[i];
            assert(ms[i as int] == m.deep_view());
            let mut entry = String::from_str(if nested {
                "  "
            } else {
                ""
            });
            entry.append(severity_icon(self.show_icons, &m.severity));
            entry.append("[");
            entry.append(m.severity.label());
            entry.append("] ");
            entry.append(m.message.as_str());
            entry.append("\n");
            if nested {
                entry.append("     Pattern: ");
                entry.append(m.pattern_id.as_str());
                entry.append("\n");
                entry.append("     Location: ");
                entry.append(decimal(m.location.line).as_str());
                entry.append(":");
                entry.append(decimal(m.location.column).as_str());
                entry.append("\n\n");
            } else {
                entry.append("   Pattern: ");
                entry.append(m.pattern_id.as_str());
                entry.append("\n");
                entry.append("   Location: ");
                entry.append(decimal(m.location.line).as_str());
                entry.append(":");
                entry.append(decimal(m.location.column).as_str());
                entry.append("\n");
                entry.append("   Matched: ");
                entry.append(m.location.matched_text.as_str());
                entry.append("\n\n");
            }
            let ghost before = out@;
            out.append(entry.as_str());
            assert(out@ =~= base + (entries_upto(ms, i as int, self.icons(), nested) + entry@));
            i += 1;
        }
    }

    /// The text report of the matches of one file.
    pub fn text_single(&self, matches: &Vec<PatternMatch>) -> (r: String)
        ensures
            r@ == single_text(matches.deep_view(), self.icons()),
    {
        if matches.len() == 0 {
            return String::from_str(NOTHING_MATCHED);
        }
        let mut out = String::from_str("Found ");
        out.append(decimal(matches.len()).as_str());
        out.append(" matches:\n\n");
        self.append_entries(&mut out, matches, false);
        out
    }

    /// The text report of the matches of several files.
    pub fn text_recursive(&self, results: &Vec<(String, Vec<PatternMatch>)>) -> (r: String)
        ensures
            r@ == recursive_text(results.deep_view(), self.icons()),
    {
        if results.len() == 0 {
            return String::from_str(NOTHING_MATCHED);
        }
        let ghost rs = results.deep_view();
        let mut total: u128 = 0;
        let mut f: usize = 0;
        while f < results.len()
            invariant
                rs == results.deep_view(),
                f <= results.len(),
                total == all_matches_upto(rs, f as int).len(),
                total <= f * 0x1_0000_0000_0000_0000,
            decreases results.len() - f,
        {
            assert(rs[f as int] == (results[f as int].0@, results[f as int].1.deep_view()));
            total = total + (results[f].1.len() as u128);
            f += 1;
        }
        let mut out = String::from_str("Found ");
        out.append(decimal_u128(total).as_str());
        out.append(" matches in ");
        out.append(decimal(results.len()).as_str());
        out.append(" files:\n\n");
        let ghost head = out@;
        let mut g: usize = 0;
        assert(head + sections_upto(rs, 0, self.icons()) =~= head);
        while g < results.len()
            invariant
                rs == results.deep_view(),
                g <= results.len(),
                out@ == head + sections_upto(rs, g as int, self.icons()),
            decreases results.len() - g,
        {
            assert(rs[g as int] == (results[g as int].0@, results[g as int].1.deep_view()));
            let ghost before = out@;
            out.append(results[g].0.as_str());
            out.append(":\n");
            self.append_entries(&mut out, &results[g].1, true);
            assert(out@ =~= head + (sections_upto(rs, g as int, self.icons()) + rs[g as int].0
                + ":\n"@ + entries_upto(
                rs[g as int].1,
                rs[g as int].1.len() as int,
                self.icons(),
                true,
            )));
            g += 1;
        }
        out
    }

    /// The report of the matches of one file, in the shape of this
    /// formatter.
    pub fn output_single(&self, matches: &Vec<PatternMatch>, file_path: &str) -> (r: Report)
        ensures
            match r {
                Report::Text(text) => self.format() == OutputFormat::Text && text@ == single_text(
                    matches.deep_view(),
                    self.icons(),
                ),
                Report::Json(doc) => self.format() == OutputFormat::Json
                    && doc.matches.deep_view() == matches.deep_view() && summarizes(
                    doc.summary,
                    matches.deep_view(),
                ),
                Report::Sarif(report) => self.format() == OutputFormat::Sarif && is_report_of(
                    report,
                    matches.deep_view(),
                    file_path@,
                ),
            },
    {
        match self.format {
            OutputFormat::Text => Report::Text(self.text_single(matches)),
            OutputFormat::Json => Report::Json(
                JsonOutput {
                    matches: duplicate_matches(matches),
                    summary: Summary::from_matches(matches),
                },
            ),
            OutputFormat::Sarif => Report::Sarif(to_sarif(matches, file_path)),
        }
    }

    /// The report of the matches of several files, in the shape of this
    /// formatter.  The two documents hold the matches of all files, one
    /// list after the other; in the SARIF document each result names its
    /// own file.
    pub fn output_recursive(&self, results: &Vec<(String, Vec<PatternMatch>)>) -> (r: Report)
        ensures
            match r {
                Report::Text(text) => self.format() == OutputFormat::Text && text@
                    == recursive_text(results.deep_view(), self.icons()),
                Report::Json(doc) => self.format() == OutputFormat::Json
                    && doc.matches.deep_view() == all_matches(results.deep_view()) && summarizes(
                    doc.summary,
                    all_matches(results.deep_view()),
                ),
                Report::Sarif(report) => self.format() == OutputFormat::Sarif
                    && is_report_of_files(report, results@),
            },
    {
        match self.format {
            OutputFormat::Text => Report::Text(self.text_recursive(results)),
            OutputFormat::Json => {
                let all = flatten_matches(results);
                let summary = Summary::from_matches(&all);
                Report::Json(JsonOutput { matches: all, summary })
            },
            OutputFormat::Sarif => Report::Sarif(to_sarif_recursive(results)),
        }
    }
}

/// The matches of all files, one list after the other.
pub fn flatten_matches(results: &Vec<(String, Vec<PatternMatch>)>) -> (r: Vec<PatternMatch>)
    ensures
        r.deep_view() == all_matches(results.deep_view()),
{
    let ghost rs = results.deep_view();
    let mut out: Vec<PatternMatch> = Vec::new();
    let mut f: usize = 0;
    while f < results.len()
        invariant
            rs == results.deep_view(),
            f <= results.len(),
            out.deep_view() == all_matches_upto(rs, f as int),
        decreases results.len() - f,
    {
        assert(rs[f as int] == (results[f as int].0@, results[f as int].1.deep_view()));
        let mut more = duplicate_matches(&results[f].1);
        let ghost before = out.deep_view();
        let ghost added = more.deep_view();
        out.append(&mut more);
        assert(out.deep_view() =~= before + added);
        f += 1;
    }
    out
}

/// Whether a match is critical or high.
pub open spec fn is_alarming(m: PatternMatchView) -> bool {
    m.severity == Severity::Critical || m.severity == Severity::High
}

/// Whether some match is critical or high.
#[verifier::loop_isolation(false)]
pub fn has_critical_or_high(matches: &Vec<PatternMatch>) -> (b: bool)
    ensures
        b == exists|i: int| 0 <= i < matches.len() && is_alarming(#[trigger] matches.deep_view()[i]),
{
    let ghost ms = matches.deep_view();
    let mut i: usize = 0;
    while i < matches.len()
        invariant
            i <= matches.len(),
            forall|k: int| 0 <= k < i ==> !is_alarming(#[trigger] ms[k]),
        decreases matches.len() - i,
    {
        assert(ms[i as int] == matches[i as int].deep_view());
        match matches[i].severity {
            Severity::Critical | Severity::High => {
                assert(is_alarming(ms[i as int]));
                return true;
            },
            _ => {},
        }
        i += 1;
    }
    false
}

/// The exit code of a scan: 1 where a critical or high match was found and
/// failing on such matches is asked for, else 0.
pub fn exit_code(alarming: bool, fail_on_critical: bool) -> (r: i32)
    ensures
        r == if alarming && fail_on_critical {
            1i32
        } else {
            0i32
        },
{
    if alarming && fail_on_critical {
        1
    } else {
        0
    }
}

} // verus!
