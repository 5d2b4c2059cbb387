//! The finding model shared by every check.

use vstd::prelude::*;

verus! {

/// How serious a finding is. `Error` and `Warning` fail a run; `Note` never does.
#[derive(Debug, Clone, Copy, PartialEq, Eq, Structural)]
pub enum Severity {
    Error,
    Warning,
    Note,
}

impl Severity {
    /// Position in the order `Error > Warning > Note`.
    pub open spec fn rank(self) -> nat {
        match self {
            Severity::Error => 2,
            Severity::Warning => 1,
            Severity::Note => 0,
        }
    }

    /// Whether a finding of this severity fails the run.
    pub open spec fn blocking(self) -> bool {
        self.rank() >= 1
    }

    /// Whether a finding of this severity fails the run.
    pub fn is_blocking(&self) -> (b: bool)
        ensures
            b == self.blocking(),
            b == (*self == Severity::Error || *self == Severity::Warning),
    {
        match self {
            Severity::Error => true,
            Severity::Warning => true,
            Severity::Note => false,
        }
    }
}

/// The mathematical value of a [`Finding`].
pub struct FindingView {
    pub code: Seq<char>,
    pub message: Seq<char>,
    pub severity: Severity,
    pub file_path: Option<Seq<char>>,
    pub line_number: Option<nat>,
}

/// One reported issue.
#[derive(Debug)]
pub struct Finding {
    pub code: String,
    pub message: String,
    pub severity: Severity,
    pub file_path: Option<String>,
    pub line_number: Option<usize>,
}

/// The characters of a text that may be absent.
pub open spec fn view_opt_string(s: Option<String>) -> Option<Seq<char>> {
    match s {
        Some(t) => Some(t@),
        None => None,
    }
}

/// A line number that may be absent, as a natural number.
pub open spec fn view_opt_line(line: Option<usize>) -> Option<nat> {
    match line {
        Some(n) => Some(n as nat),
        None => None,
    }
}

impl View for Finding {
    type V = FindingView;

    open spec fn view(&self) -> FindingView {
        FindingView {
            code: self.code@,
            message: self.message@,
            severity: self.severity,
            file_path: view_opt_string(self.file_path),
            line_number: view_opt_line(self.line_number),
        }
    }
}

impl Clone for Finding {
    fn clone(&self) -> (copy: Finding)
        ensures
            copy@ == self@,
    {
        let file_path = match &self.file_path {
            Some(p) => Some(p.clone()),
            None => None,
        };
        Finding {
            code: self.code.clone(),
            message: self.message.clone(),
            severity: self.severity,
            file_path,
            line_number: self.line_number,
        }
    }
}

impl Finding {
    /// A finding without a line number.
    pub fn new(code: &str, message: String, severity: Severity, file_path: Option<String>) -> (f:
        Finding)
        ensures
            f@ == (FindingView {
                code: code@,
                message: message@,
                severity,
                file_path: view_opt_string(file_path),
                line_number: None,
            }),
    {
        Finding { code: code.to_owned(), message, severity, file_path, line_number: None }
    }

    /// The same finding on the given line.
    pub fn with_line(self, line: usize) -> (f: Finding)
        ensures
            f@ == (FindingView { line_number: Some(line as nat), ..self@ }),
    {
        let mut f = self;
        f.line_number = Some(line);
        f
    }
}

/// The values of a list of findings, in order.
pub open spec fn views(fs: Seq<Finding>) -> Seq<FindingView> {
    fs.map_values(|f: Finding| f@)
}

/// The values of a list with one more finding.
pub proof fn lemma_views_push(fs: Seq<Finding>, f: Finding)
    ensures
        views(fs.push(f)) == views(fs).push(f@),
{
    assert(views(fs.push(f)) =~= views(fs).push(f@));
}

/// The values of two lists in a row.
pub proof fn lemma_views_concat(a: Seq<Finding>, b: Seq<Finding>)
    ensures
        views(a + b) == views(a) + views(b),
{
    assert(views(a + b) =~= views(a) + views(b));
}

/// A finding without a line number.
pub open spec fn plain(
    code: Seq<char>,
    message: Seq<char>,
    severity: Severity,
    file_path: Option<Seq<char>>,
) -> FindingView {
    FindingView { code, message, severity, file_path, line_number: None }
}

/// The finding if the condition holds, else nothing.
pub open spec fn only_if(condition: bool, finding: FindingView) -> Seq<FindingView> {
    if condition {
        seq![finding]
    } else {
        seq![]
    }
}

/// Moves every finding of `more` to the end of `all`.
pub fn extend(all: &mut Vec<Finding>, more: Vec<Finding>)
    ensures
        views(final(all)@) == views(old(all)@) + views(more@),
{
    let mut more = more;
    proof {
        lemma_views_concat(all@, more@);
    }
    all.append(&mut more);
}

/// How many of the findings carry the code.
pub open spec fn count_code(fs: Seq<FindingView>, code: Seq<char>) -> nat
    decreases fs.len(),
{
    if fs.len() == 0 {
        0
    } else {
        count_code(fs.drop_last(), code) + (if fs.last().code == code {
            1nat
        } else {
            0nat
        })
    }
}

/// Counting in two lists in a row adds up.
pub proof fn lemma_count_concat(a: Seq<FindingView>, b: Seq<FindingView>, code: Seq<char>)
    ensures
        count_code(a + b, code) == count_code(a, code) + count_code(b, code),
    decreases b.len(),
{
    if b.len() == 0 {
        assert(a + b =~= a);
    } else {
        assert((a + b).drop_last() =~= a + b.drop_last());
        assert((a + b).last() == b.last());
        lemma_count_concat(a, b.drop_last(), code);
    }
}

/// Counting in a list of one finding, and in the empty list.
pub proof fn lemma_count_one(f: FindingView, code: Seq<char>)
    ensures
        count_code(seq![f], code) == (if f.code == code {
            1nat
        } else {
            0nat
        }),
        count_code(Seq::<FindingView>::empty(), code) == 0,
{
    assert(seq![f].drop_last() =~= Seq::<FindingView>::empty());
    assert(seq![f].last() == f);
    assert(count_code(Seq::<FindingView>::empty(), code) == 0);
    assert(count_code(seq![f].drop_last(), code) == 0);
}

} // verus!
