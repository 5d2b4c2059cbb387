//! How findings are shown to a reader, and what a run's exit status is.

use crate::diagnostics::{views, Finding, FindingView, Severity};
use crate::text::{chars_of, decimal, decimal_text, text_eq};
use vstd::prelude::*;
use vstd::string::*;

verus! {

/// What is printed where a run has no finding.
pub const HEALTHY_MESSAGE: &'static str =
    "No issues found. Your project looks healthy (based on current checks)!";

/// The form in which findings are printed.
#[derive(Debug, Clone, Copy, PartialEq, Eq, Structural)]
pub enum OutputFormat {
    Human,
    Json,
}

/// The four letters of `json`, each in either case.
pub open spec fn spells_json(flag: Seq<char>) -> bool {
    &&& flag.len() == 4
    &&& (flag[0] == 'j' || flag[0] == 'J')
    &&& (flag[1] == 's' || flag[1] == 'S')
    &&& (flag[2] == 'o' || flag[2] == 'O')
    &&& (flag[3] == 'n' || flag[3] == 'N')
}

impl OutputFormat {
    /// The format that a command-line flag asks for: `json` in any case
    /// of its letters, and the human form for every other text.
    pub fn from_flag(flag: &str) -> (format: OutputFormat)
        ensures
            format == (if spells_json(flag@) {
                OutputFormat::Json
            } else {
                OutputFormat::Human
            }),
    {
        let v = chars_of(flag);
        if v.len() == 4 && (v[0] == 'j' || v[0] == 'J') && (v[1] == 's' || v[1] == 'S') && (v[2]
            == 'o' || v[2] == 'O') && (v[3] == 'n' || v[3] == 'N') {
            OutputFormat::Json
        } else {
            OutputFormat::Human
        }
    }

    /// The format that a format name stands for: `json` as written, and
    /// the human form for every other text.
    pub fn from_name(name: &str) -> (format: OutputFormat)
        ensures
            format == (if name@ == "json"@ {
                OutputFormat::Json
            } else {
                OutputFormat::Human
            }),
    {
        if text_eq(name, "json") {
            OutputFormat::Json
        } else {
            OutputFormat::Human
        }
    }

    /// The name of the format.
    pub fn name(&self) -> (name: &'static str)
        ensures
            name@ == (match self {
                OutputFormat::Human => "human"@,
                OutputFormat::Json => "json"@,
            }),
    {
        match self {
            OutputFormat::Human => "human",
            OutputFormat::Json => "json",
        }
    }
}

/// The word that the human form prints for a severity.
pub open spec fn label_of(severity: Severity) -> Seq<char> {
    match severity {
        Severity::Error => "ERROR"@,
        Severity::Warning => "WARNING"@,
        Severity::Note => "NOTE"@,
    }
}

/// The word that the human form prints for a severity.
pub fn severity_label(severity: Severity) -> (label: &'static str)
    ensures
        label@ == label_of(severity),
{
    match severity {
        Severity::Error => "ERROR",
        Severity::Warning => "WARNING",
        Severity::Note => "NOTE",
    }
}

/// The first part of a finding's line: the severity between square brackets.
pub open spec fn severity_tag_of(f: FindingView) -> Seq<char> {
    "["@ + label_of(f.severity) + "]"@
}

/// The second part: a space and the code between round brackets.
pub open spec fn code_tag_of(f: FindingView) -> Seq<char> {
    " ("@ + f.code + ")"@
}

/// The last part: the message, then between square brackets the file, or
/// `N/A` without one, directly followed by the line number where there is one.
pub open spec fn detail_of(f: FindingView) -> Seq<char> {
    ": "@ + f.message + " ["@ + (match f.file_path {
        Some(path) => path,
        None => "N/A"@,
    }) + (match f.line_number {
        Some(n) => decimal(n),
        None => Seq::<char>::empty(),
    }) + "]"@
}

/// The line that the human form prints for a finding.
pub open spec fn human_line_of(f: FindingView) -> Seq<char> {
    severity_tag_of(f) + code_tag_of(f) + detail_of(f)
}

/// The first part of a finding's line.
pub fn severity_tag(finding: &Finding) -> (tag: String)
    ensures
        tag@ == severity_tag_of(finding@),
{
    let mut tag = String::from_str("[");
    tag.append(severity_label(finding.severity));
    tag.append("]");
    tag
}

/// The second part of a finding's line.
pub fn code_tag(finding: &Finding) -> (tag: String)
    ensures
        tag@ == code_tag_of(finding@),
{
    let mut tag = String::from_str(" (");
    tag.append(finding.code.as_str());
    tag.append(")");
    tag
}

/// The last part of a finding's line.
pub fn detail(finding: &Finding) -> (text: String)
    ensures
        text@ == detail_of(finding@),
{
    let mut text = String::from_str(": ");
    text.append(finding.message.as_str());
    text.append(" [");
    match &finding.file_path {
        Some(path) => {
            text.append(path.as_str());
        },
        None => {
            text.append("N/A");
        },
    }
    let ghost before = text@;
    match finding.line_number {
        Some(n) => {
            let digits = decimal_text(n);
            text.append(digits.as_str());
        },
        None => {
            assert(text@ =~= before + Seq::<char>::empty());
        },
    }
    text.append("]");
    text
}

/// The line that the human form prints for a finding.
pub fn human_line(finding: &Finding) -> (line: String)
    ensures
        line@ == human_line_of(finding@),
{
    let mut line = severity_tag(finding);
    let code = code_tag(finding);
    let rest = detail(finding);
    line.append(code.as_str());
    line.append(rest.as_str());
    line
}

/// The line that closes a list of `count` findings.
pub fn summary_line(count: usize) -> (line: String)
    ensures
        line@ == "\nFound "@ + decimal(count as nat) + " issues:"@,
{
    let mut line = String::from_str("\nFound ");
    let digits = decimal_text(count);
    line.append(digits.as_str());
    line.append(" issues:");
    line
}

/// Some finding is an error or a warning.
pub open spec fn has_blocking(findings: Seq<FindingView>) -> bool {
    exists|i: int| 0 <= i < findings.len() && (#[trigger] findings[i]).severity.blocking()
}

/// The exit status of a run: 1 where some finding is an error or a warning, else 0.
pub open spec fn exit_status(findings: Seq<FindingView>) -> i32 {
    if has_blocking(findings) {
        1
    } else {
        0
    }
}

/// The exit status of a run with these findings.
pub fn exit_code(findings: &Vec<Finding>) -> (code: i32)
    ensures
        code == exit_status(views(findings@)),
{
    let ghost all = views(findings@);
    let mut i: usize = 0;
    while i < findings.len()
        invariant
            i <= findings.len(),
            all == views(findings@),
            forall|k: int| 0 <= k < i ==> !(#[trigger] all[k]).severity.blocking(),
        decreases findings.len() - i,
    {
        assert(all[i as int] == findings@[i as int]@);
        if findings[i].severity.is_blocking() {
            assert(all[i as int].severity.blocking());
            return 1;
        }
        i = i + 1;
    }
    0
}

/// Notes alone never fail a run, and one error or warning always does.
pub proof fn law_exit_status(findings: Seq<FindingView>)
    ensures
        (forall|i: int| 0 <= i < findings.len() ==> (#[trigger] findings[i]).severity
            == Severity::Note) ==> exit_status(findings) == 0,
        (exists|i: int|
            0 <= i < findings.len() && ((#[trigger] findings[i]).severity == Severity::Error
                || findings[i].severity == Severity::Warning)) ==> exit_status(findings) == 1,
{
    if exists|i: int|
        0 <= i < findings.len() && ((#[trigger] findings[i]).severity == Severity::Error
            || findings[i].severity == Severity::Warning) {
        let i = choose|i: int|
            0 <= i < findings.len() && ((#[trigger] findings[i]).severity == Severity::Error
                || findings[i].severity == Severity::Warning);
        assert(findings[i].severity.blocking());
    }
}

} // verus!
