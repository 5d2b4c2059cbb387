//! Checks on source files and on the layout of the project's directory.

use crate::config::Config;
use crate::diagnostics::{
    count_code, lemma_count_concat, lemma_count_one, lemma_views_push, only_if, plain, views,
    Finding, FindingView, Severity,
};
use crate::manifest::{blank, CargoManifest, ReadmeField};
use crate::patterns::{regex_all_groups, regex_first_group, regex_is_match, PatternRules};
use crate::text::{
    chars_of, debug_text, lemma_texts_push, lines_of, pieces_of, quoted, split_lines, split_on,
    text_eq, texts, trim, trimmed,
};
use vstd::prelude::*;
use vstd::string::*;

verus! {

/// Code of the finding on a source file that cannot be read.
pub const IO_FILE_READ: &'static str = "IO001";

/// A path as the list of its components, root first.
pub type PathParts = Vec<String>;

/// Whether a file is held to the rules for library code.
#[derive(Debug, Clone, Copy, PartialEq, Eq, Structural)]
pub enum FileContext {
    Library,
    Application,
}

/// `file` lies at or below `base`.
pub open spec fn under(file: Seq<Seq<char>>, base: Seq<Seq<char>>) -> bool {
    base.len() <= file.len() && forall|i: int| 0 <= i < base.len() ==> file[i] == base[i]
}

/// The file lies in the project's `src` directory and is neither the
/// library root `src/lib.rs`, nor the entry point `src/main.rs`, nor a file
/// of the binaries directory `src/bin`.
pub open spec fn is_library(file: Seq<Seq<char>>, root: Seq<Seq<char>>) -> bool {
    &&& under(file, root.push("src"@))
    &&& file != root.push("src"@).push("lib.rs"@)
    &&& file != root.push("src"@).push("main.rs"@)
    &&& !under(file, root.push("src"@).push("bin"@))
}

/// The context of a file: library code is what `is_library` holds of, and
/// everything else has application context.
pub open spec fn context_of(file: Seq<Seq<char>>, root: Seq<Seq<char>>) -> FileContext {
    if is_library(file, root) {
        FileContext::Library
    } else {
        FileContext::Application
    }
}

fn is_under(file: &PathParts, base: &PathParts) -> (b: bool)
    ensures
        b == under(texts(file@), texts(base@)),
{
    if base.len() > file.len() {
        return false;
    }
    let mut i: usize = 0;
    while i < base.len()
        invariant
            i <= base.len() <= file.len(),
            forall|k: int| 0 <= k < i ==> texts(file@)[k] == texts(base@)[k],
        decreases base.len() - i,
    {
        if !text_eq(file[i].as_str(), base[i].as_str()) {
            assert(texts(file@)[i as int] != texts(base@)[i as int]);
            return false;
        }
        i = i + 1;
    }
    true
}

/// Whether a file counts as library code of the project rooted at `project_root`.
pub fn is_library_file(file: &PathParts, project_root: &PathParts) -> (b: bool)
    ensures
        b == is_library(texts(file@), texts(project_root@)),
{
    let ghost f = texts(file@);
    let ghost r = texts(project_root@);
    let ghost src = r.push("src"@);
    let n = project_root.len();
    if !is_under(file, project_root) || file.len() == n {
        assert(!under(f, src)) by {
            if under(f, src) {
                assert forall|i: int| 0 <= i < r.len() implies f[i] == r[i] by {
                    assert(src[i] == r[i]);
                }
            }
        }
        return false;
    }
    if !text_eq(file[n].as_str(), "src") {
        assert(src[n as int] == "src"@);
        return false;
    }
    assert(under(f, src)) by {
        assert forall|i: int| 0 <= i < src.len() implies f[i] == src[i] by {
            if i < r.len() {
                assert(src[i] == r[i]);
            }
        }
    }
    if file.len() - n == 1 {
        assert(f != src.push("lib.rs"@));
        assert(f != src.push("main.rs"@));
        assert(!under(f, src.push("bin"@)));
        return true;
    }
    let second = file[n + 1].as_str();
    let alone = file.len() - n == 2;
    let is_lib_root = alone && text_eq(second, "lib.rs");
    let is_entry_point = alone && text_eq(second, "main.rs");
    let in_binaries = text_eq(second, "bin");
    proof {
        let lib_root = src.push("lib.rs"@);
        let entry_point = src.push("main.rs"@);
        let binaries = src.push("bin"@);
        assert(lib_root[n as int + 1] == "lib.rs"@);
        assert(entry_point[n as int + 1] == "main.rs"@);
        assert(binaries[n as int + 1] == "bin"@);
        if is_lib_root {
            assert(f =~= lib_root);
        }
        if is_entry_point {
            assert(f =~= entry_point);
        }
        if in_binaries {
            assert forall|i: int| 0 <= i < binaries.len() implies f[i] == binaries[i] by {
                if i <= n {
                    assert(binaries[i] == src[i]);
                }
            }
        }
    }
    !is_lib_root && !is_entry_point && !in_binaries
}

/// The context that the scanner gives a file.
pub fn classify(file: &PathParts, project_root: &PathParts) -> (context: FileContext)
    ensures
        context == context_of(texts(file@), texts(project_root@)),
{
    if is_library_file(file, project_root) {
        FileContext::Library
    } else {
        FileContext::Application
    }
}

/// The text that spells a path: its components in a row, with `/` between
/// neighbours but not after a component that ends in `/`, as the root does.
pub open spec fn spelled(parts: Seq<Seq<char>>) -> Seq<char>
    decreases parts.len(),
{
    if parts.len() == 0 {
        Seq::empty()
    } else {
        let front = spelled(parts.drop_last());
        if front.len() == 0 || front.last() == '/' {
            front + parts.last()
        } else {
            front + seq!['/'] + parts.last()
        }
    }
}

/// Spells a path from its components.
pub fn spell(parts: &PathParts) -> (path: String)
    ensures
        path@ == spelled(texts(parts@)),
{
    let mut path = String::new();
    let mut open_end: bool = true;
    let mut i: usize = 0;
    assert(texts(parts@).take(0) =~= Seq::<Seq<char>>::empty());
    while i < parts.len()
        invariant
            i <= parts.len(),
            path@ == spelled(texts(parts@).take(i as int)),
            open_end == (path@.len() == 0 || path@.last() == '/'),
        decreases parts.len() - i,
    {
        let ghost next = texts(parts@).take(i as int + 1);
        assert(next.drop_last() =~= texts(parts@).take(i as int));
        assert(next.last() == parts@[i as int]@);
        let part = chars_of(parts[i].as_str());
        if !open_end {
            path.push('/');
        }
        let ghost joint = path@;
        path.append(parts[i].as_str());
        assert(path@ == joint + parts@[i as int]@);
        if part.len() > 0 {
            open_end = part[part.len() - 1] == '/';
        } else {
            assert(path@ =~= joint);
            open_end = true;
        }
        i = i + 1;
    }
    assert(texts(parts@).take(parts@.len() as int) =~= texts(parts@));
    path
}

/// A source file as the scanner gets it: the path as text and as
/// components, and the content or the reason why it could not be read.
/// The findings name the file by the text; its context goes by the components.
#[derive(Debug)]
pub struct SourceFile {
    pub path: String,
    pub components: PathParts,
    pub content: Result<String, String>,
}

impl SourceFile {
    /// The text of the path is what the components spell.
    pub open spec fn wf(&self) -> bool {
        self.path@ == spelled(texts(self.components@))
    }

    /// The file at the path that the components spell.
    pub fn new(components: PathParts, content: Result<String, String>) -> (file: SourceFile)
        ensures
            file.wf(),
            file.components == components,
            file.content == content,
    {
        let path = spell(&components);
        SourceFile { path, components, content }
    }
}

/// A list of files in which each file's path is what its components
/// spell, and no path occurs twice.
pub open spec fn sound_list(files: Seq<SourceFile>) -> bool {
    &&& forall|k: int| 0 <= k < files.len() ==> (#[trigger] files[k]).wf()
    &&& forall|i: int, j: int|
        0 <= i < j < files.len() ==> (#[trigger] files[i]).path@ != (#[trigger] files[j]).path@
}

/// The line rules of the scanner, in the order in which they are applied.
#[derive(Debug, Clone, Copy, PartialEq, Eq, Structural)]
pub enum LineRule {
    UnwrapCall,
    ExpectCall,
    DebugOutput,
    PendingWork,
}

impl LineRule {
    /// The code of the rule's findings.
    pub open spec fn code(self) -> Seq<char> {
        match self {
            LineRule::UnwrapCall => "CODE001"@,
            LineRule::ExpectCall => "CODE002"@,
            LineRule::DebugOutput => "CODE003"@,
            LineRule::PendingWork => "CODE004"@,
        }
    }

    /// The severity of the rule's findings.
    pub open spec fn severity(self) -> Severity {
        match self {
            LineRule::UnwrapCall => Severity::Warning,
            LineRule::ExpectCall => Severity::Note,
            LineRule::DebugOutput => Severity::Note,
            LineRule::PendingWork => Severity::Note,
        }
    }

    /// Whether the rule fires on a line of a file with the given context:
    /// the first three only in library code, the last one everywhere.
    pub open spec fn fires(self, rules: PatternRules, context: FileContext, line: Seq<char>) -> bool {
        match self {
            LineRule::UnwrapCall => context == FileContext::Library && regex_is_match(
                rules.unwrap_call.source(),
                line,
            ),
            LineRule::ExpectCall => context == FileContext::Library && regex_is_match(
                rules.expect_call.source(),
                line,
            ),
            LineRule::DebugOutput => context == FileContext::Library && regex_is_match(
                rules.debug_output.source(),
                line,
            ),
            LineRule::PendingWork => regex_first_group(rules.pending_work.source(), line) is Some,
        }
    }

    /// The message of the rule's finding. Only the rule on pending work
    /// quotes the marker that was found.
    pub open spec fn text(self, marker: Seq<char>) -> Seq<char> {
        match self {
            LineRule::UnwrapCall => "'.unwrap()' used in library context. Consider using '?' or pattern matching."@,
            LineRule::ExpectCall => "'.expect()' used in library context. While better than unwrap, prefer '?' or specific error handling."@,
            LineRule::DebugOutput => "Diagnostic macro (println! or dbg!) found in library context. Remove before release."@,
            LineRule::PendingWork => "Found '"@ + marker
                + "' comment. Address or create an issue for it."@,
        }
    }

    /// The rule's finding on line `number` of the file at `path`.
    pub open spec fn notice(self, marker: Seq<char>, path: Seq<char>, number: nat) -> FindingView {
        FindingView {
            code: self.code(),
            message: self.text(marker),
            severity: self.severity(),
            file_path: Some(path),
            line_number: Some(number),
        }
    }

    /// The rule's finding on a line, with the marker that the pattern for
    /// pending work finds on it.
    pub open spec fn finding(
        self,
        rules: PatternRules,
        path: Seq<char>,
        number: nat,
        line: Seq<char>,
    ) -> FindingView {
        self.notice(regex_first_group(rules.pending_work.source(), line)->0, path, number)
    }

    /// The rule's finding on a line if the rule fires there, else nothing.
    pub open spec fn applied(
        self,
        rules: PatternRules,
        context: FileContext,
        path: Seq<char>,
        number: nat,
        line: Seq<char>,
    ) -> Seq<FindingView> {
        only_if(self.fires(rules, context, line), self.finding(rules, path, number, line))
    }
}

/// The findings on one line, from what the patterns answered on it: in
/// library code one finding for each of the first three patterns that
/// matched, and in every file one for a marker of pending work; in the
/// rules' order.
pub open spec fn judged_line(
    context: FileContext,
    unwrap_call: bool,
    expect_call: bool,
    debug_output: bool,
    marker: Option<Seq<char>>,
    path: Seq<char>,
    number: nat,
) -> Seq<FindingView> {
    only_if(
        context == FileContext::Library && unwrap_call,
        LineRule::UnwrapCall.notice(Seq::empty(), path, number),
    ) + only_if(
        context == FileContext::Library && expect_call,
        LineRule::ExpectCall.notice(Seq::empty(), path, number),
    ) + only_if(
        context == FileContext::Library && debug_output,
        LineRule::DebugOutput.notice(Seq::empty(), path, number),
    ) + (match marker {
        Some(found) => seq![LineRule::PendingWork.notice(found, path, number)],
        None => seq![],
    })
}

/// The findings on one line: what the answers of the four patterns on
/// the line lead to.
pub open spec fn line_findings(
    rules: PatternRules,
    context: FileContext,
    path: Seq<char>,
    number: nat,
    line: Seq<char>,
) -> Seq<FindingView> {
    judged_line(
        context,
        regex_is_match(rules.unwrap_call.source(), line),
        regex_is_match(rules.expect_call.source(), line),
        regex_is_match(rules.debug_output.source(), line),
        regex_first_group(rules.pending_work.source(), line),
        path,
        number,
    )
}

/// The findings on one line are those of each rule that fires, in the rules' order.
pub proof fn lemma_line_by_rule(
    rules: PatternRules,
    context: FileContext,
    path: Seq<char>,
    number: nat,
    line: Seq<char>,
)
    ensures
        line_findings(rules, context, path, number, line) == LineRule::UnwrapCall.applied(
            rules,
            context,
            path,
            number,
            line,
        ) + LineRule::ExpectCall.applied(rules, context, path, number, line)
            + LineRule::DebugOutput.applied(rules, context, path, number, line)
            + LineRule::PendingWork.applied(rules, context, path, number, line),
{
    assert(line_findings(rules, context, path, number, line) =~= LineRule::UnwrapCall.applied(
        rules,
        context,
        path,
        number,
        line,
    ) + LineRule::ExpectCall.applied(rules, context, path, number, line)
        + LineRule::DebugOutput.applied(rules, context, path, number, line)
        + LineRule::PendingWork.applied(rules, context, path, number, line));
}

/// The findings on the lines of a file, by ascending line number, the first line being 1.
pub open spec fn lines_findings(
    rules: PatternRules,
    context: FileContext,
    path: Seq<char>,
    lines: Seq<Seq<char>>,
) -> Seq<FindingView>
    decreases lines.len(),
{
    if lines.len() == 0 {
        seq![]
    } else {
        lines_findings(rules, context, path, lines.drop_last()) + line_findings(
            rules,
            context,
            path,
            lines.len(),
            lines.last(),
        )
    }
}

/// The finding on a file that could not be read.
pub open spec fn read_failure(path: Seq<char>, reason: Seq<char>) -> FindingView {
    plain(
        IO_FILE_READ@,
        "Failed to read file "@ + debug_text(path) + ": "@ + reason,
        Severity::Warning,
        Some(path),
    )
}

/// The findings on one file: the read failure alone, or what the rules find on its lines.
pub open spec fn file_findings(rules: PatternRules, file: SourceFile, root: Seq<Seq<char>>) -> Seq<
    FindingView,
> {
    match file.content {
        Ok(text) => lines_findings(
            rules,
            context_of(texts(file.components@), root),
            file.path@,
            lines_of(text@),
        ),
        Err(reason) => seq![read_failure(file.path@, reason@)],
    }
}

/// The findings on a list of files, file by file in the list's order.
pub open spec fn pattern_findings(
    rules: PatternRules,
    files: Seq<SourceFile>,
    root: Seq<Seq<char>>,
) -> Seq<FindingView>
    decreases files.len(),
{
    if files.len() == 0 {
        seq![]
    } else {
        pattern_findings(rules, files.drop_last(), root) + file_findings(rules, files.last(), root)
    }
}

fn line_finding(code: &str, message: String, severity: Severity, path: &str, number: usize) -> (f:
    Finding)
    ensures
        f@ == (FindingView {
            code: code@,
            message: message@,
            severity,
            file_path: Some(path@),
            line_number: Some(number as nat),
        }),
{
    Finding::new(code, message, severity, Some(String::from_str(path))).with_line(number)
}

/// Judges one line from what the patterns answered on it.
pub fn judge_line(
    context: FileContext,
    unwrap_call: bool,
    expect_call: bool,
    debug_output: bool,
    marker: Option<&str>,
    path: &str,
    number: usize,
) -> (findings: Vec<Finding>)
    ensures
        views(findings@) == judged_line(
            context,
            unwrap_call,
            expect_call,
            debug_output,
            match marker {
                Some(found) => Some(found@),
                None => None,
            },
            path@,
            number as nat,
        ),
{
    let mut findings: Vec<Finding> = Vec::new();
    assert(views(findings@) =~= seq![]);
    let library = context == FileContext::Library;
    if library && unwrap_call {
        let f = line_finding(
            "CODE001",
            String::from_str(
                "'.unwrap()' used in library context. Consider using '?' or pattern matching.",
            ),
            Severity::Warning,
            path,
            number,
        );
        proof {
            lemma_views_push(findings@, f);
        }
        findings.push(f);
    }
    let ghost first = views(findings@);
    assert(first =~= only_if(
        library && unwrap_call,
        LineRule::UnwrapCall.notice(Seq::empty(), path@, number as nat),
    ));
    if library && expect_call {
        let f = line_finding(
            "CODE002",
            String::from_str(
                "'.expect()' used in library context. While better than unwrap, prefer '?' or specific error handling.",
            ),
            Severity::Note,
            path,
            number,
        );
        proof {
            lemma_views_push(findings@, f);
        }
        findings.push(f);
    }
    let ghost second = views(findings@);
    assert(second =~= first + only_if(
        library && expect_call,
        LineRule::ExpectCall.notice(Seq::empty(), path@, number as nat),
    ));
    if library && debug_output {
        let f = line_finding(
            "CODE003",
            String::from_str(
                "Diagnostic macro (println! or dbg!) found in library context. Remove before release.",
            ),
            Severity::Note,
            path,
            number,
        );
        proof {
            lemma_views_push(findings@, f);
        }
        findings.push(f);
    }
    let ghost third = views(findings@);
    assert(third =~= second + only_if(
        library && debug_output,
        LineRule::DebugOutput.notice(Seq::empty(), path@, number as nat),
    ));
    match marker {
        Some(found) => {
            let mut message = String::from_str("Found '");
            message.append(found);
            message.append("' comment. Address or create an issue for it.");
            let f = line_finding("CODE004", message, Severity::Note, path, number);
            proof {
                lemma_views_push(findings@, f);
            }
            findings.push(f);
            assert(views(findings@) =~= third + seq![
                LineRule::PendingWork.notice(found@, path@, number as nat),
            ]);
        },
        None => {
            assert(views(findings@) =~= third + Seq::<FindingView>::empty());
        },
    }
    findings
}

/// Asks the patterns about one line and judges it. In a file with
/// application context the three patterns for library code are not asked.
fn scan_line(
    rules: &PatternRules,
    context: FileContext,
    path: &str,
    number: usize,
    line: &str,
    findings: &mut Vec<Finding>,
)
    ensures
        views(final(findings)@) == views(old(findings)@) + line_findings(
            *rules,
            context,
            path@,
            number as nat,
            line@,
        ),
{
    let library = context == FileContext::Library;
    let unwrap_call = library && rules.unwrap_call.matches(line);
    let expect_call = library && rules.expect_call.matches(line);
    let debug_output = library && rules.debug_output.matches(line);
    let marker = rules.pending_work.first_group(line);
    let found = judge_line(
        context,
        unwrap_call,
        expect_call,
        debug_output,
        match &marker {
            Some(text) => Some(text.as_str()),
            None => None,
        },
        path,
        number,
    );
    assert(views(found@) =~= line_findings(*rules, context, path@, number as nat, line@));
    crate::diagnostics::extend(findings, found);
}

fn scan_into(
    rules: &PatternRules,
    file: &SourceFile,
    project_root: &PathParts,
    findings: &mut Vec<Finding>,
)
    ensures
        views(final(findings)@) == views(old(findings)@) + file_findings(
            *rules,
            *file,
            texts(project_root@),
        ),
{
    let ghost before = views(findings@);
    match &file.content {
        Ok(text) => {
            let context = classify(&file.components, project_root);
            let lines = split_lines(text.as_str());
            let ghost all = texts(lines@);
            let mut i: usize = 0;
            assert(all.take(0) =~= seq![]);
            assert(views(findings@) =~= before + lines_findings(
                *rules,
                context,
                file.path@,
                all.take(0),
            ));
            while i < lines.len()
                invariant
                    i <= lines.len(),
                    all == texts(lines@),
                    views(findings@) == before + lines_findings(
                        *rules,
                        context,
                        file.path@,
                        all.take(i as int),
                    ),
                decreases lines.len() - i,
            {
                let ghost next = all.take(i as int + 1);
                assert(next.drop_last() =~= all.take(i as int));
                assert(next.last() == lines@[i as int]@);
                scan_line(rules, context, file.path.as_str(), i + 1, lines[i].as_str(), findings);
                assert(views(findings@) =~= before + lines_findings(
                    *rules,
                    context,
                    file.path@,
                    next,
                ));
                i = i + 1;
            }
            assert(all.take(lines@.len() as int) =~= all);
        },
        Err(reason) => {
            let mut message = String::from_str("Failed to read file ");
            let shown = quoted(file.path.as_str());
            message.append(shown.as_str());
            message.append(": ");
            message.append(reason.as_str());
            let f = Finding::new(
                IO_FILE_READ,
                message,
                Severity::Warning,
                Some(file.path.clone()),
            );
            proof {
                lemma_views_push(findings@, f);
                assert(views(findings@.push(f)) =~= before + seq![
                    read_failure(file.path@, reason@),
                ]);
            }
            findings.push(f);
        },
    }
}

/// Scans one file.
pub fn scan_file(rules: &PatternRules, file: &SourceFile, project_root: &PathParts) -> (findings:
    Vec<Finding>)
    ensures
        views(findings@) == file_findings(*rules, *file, texts(project_root@)),
{
    let mut findings: Vec<Finding> = Vec::new();
    assert(views(findings@) =~= seq![]);
    scan_into(rules, file, project_root, &mut findings);
    assert(views(findings@) =~= file_findings(*rules, *file, texts(project_root@)));
    findings
}

/// Scans the files one after the other.
pub fn check_code_patterns(
    rules: &PatternRules,
    rust_files: &Vec<SourceFile>,
    project_root: &PathParts,
) -> (findings: Vec<Finding>)
    ensures
        views(findings@) == pattern_findings(*rules, rust_files@, texts(project_root@)),
{
    let mut findings: Vec<Finding> = Vec::new();
    let ghost root = texts(project_root@);
    let mut i: usize = 0;
    assert(rust_files@.take(0) =~= seq![]);
    assert(views(findings@) =~= pattern_findings(*rules, rust_files@.take(0), root));
    while i < rust_files.len()
        invariant
            i <= rust_files.len(),
            root == texts(project_root@),
            views(findings@) == pattern_findings(*rules, rust_files@.take(i as int), root),
        decreases rust_files.len() - i,
    {
        let ghost next = rust_files@.take(i as int + 1);
        assert(next.drop_last() =~= rust_files@.take(i as int));
        assert(next.last() == rust_files@[i as int]);
        scan_into(rules, &rust_files[i], project_root, &mut findings);
        i = i + 1;
    }
    assert(rust_files@.take(rust_files@.len() as int) =~= rust_files@);
    findings
}

/// How many of the lines a rule fires on.
pub open spec fn firing_lines(
    rule: LineRule,
    rules: PatternRules,
    context: FileContext,
    lines: Seq<Seq<char>>,
) -> nat
    decreases lines.len(),
{
    if lines.len() == 0 {
        0
    } else {
        firing_lines(rule, rules, context, lines.drop_last()) + (if rule.fires(
            rules,
            context,
            lines.last(),
        ) {
            1nat
        } else {
            0nat
        })
    }
}

proof fn lemma_codes_differ()
    ensures
        "CODE001"@ != "CODE002"@,
        "CODE001"@ != "CODE003"@,
        "CODE001"@ != "CODE004"@,
        "CODE002"@ != "CODE003"@,
        "CODE002"@ != "CODE004"@,
        "CODE003"@ != "CODE004"@,
        IO_FILE_READ@ != "CODE001"@,
        IO_FILE_READ@ != "CODE002"@,
        IO_FILE_READ@ != "CODE003"@,
        IO_FILE_READ@ != "CODE004"@,
{
    reveal_strlit("CODE001");
    reveal_strlit("CODE002");
    reveal_strlit("CODE003");
    reveal_strlit("CODE004");
    reveal_strlit("IO001");
    assert("CODE001"@[6] == '1');
    assert("CODE002"@[6] == '2');
    assert("CODE003"@[6] == '3');
    assert("CODE004"@[6] == '4');
    assert("IO001"@.len() == 5);
}

/// On one line a rule gives one finding with its code where it fires, and none where it does not.
proof fn lemma_line_count(
    rule: LineRule,
    rules: PatternRules,
    context: FileContext,
    path: Seq<char>,
    number: nat,
    line: Seq<char>,
)
    ensures
        count_code(line_findings(rules, context, path, number, line), rule.code()) == (
        if rule.fires(rules, context, line) {
            1nat
        } else {
            0nat
        }),
{
    lemma_codes_differ();
    lemma_line_by_rule(rules, context, path, number, line);
    let code = rule.code();
    let a = LineRule::UnwrapCall.applied(rules, context, path, number, line);
    let b = LineRule::ExpectCall.applied(rules, context, path, number, line);
    let c = LineRule::DebugOutput.applied(rules, context, path, number, line);
    let d = LineRule::PendingWork.applied(rules, context, path, number, line);
    lemma_count_concat(a + b + c, d, code);
    lemma_count_concat(a + b, c, code);
    lemma_count_concat(a, b, code);
    lemma_count_one(LineRule::UnwrapCall.finding(rules, path, number, line), code);
    lemma_count_one(LineRule::ExpectCall.finding(rules, path, number, line), code);
    lemma_count_one(LineRule::DebugOutput.finding(rules, path, number, line), code);
    lemma_count_one(LineRule::PendingWork.finding(rules, path, number, line), code);
}

/// A file's lines give as many findings with a rule's code as the rule fires on lines.
pub proof fn lemma_rule_count(
    rule: LineRule,
    rules: PatternRules,
    context: FileContext,
    path: Seq<char>,
    lines: Seq<Seq<char>>,
)
    ensures
        count_code(lines_findings(rules, context, path, lines), rule.code()) == firing_lines(
            rule,
            rules,
            context,
            lines,
        ),
    decreases lines.len(),
{
    if lines.len() > 0 {
        lemma_rule_count(rule, rules, context, path, lines.drop_last());
        lemma_line_count(rule, rules, context, path, lines.len(), lines.last());
        lemma_count_concat(
            lines_findings(rules, context, path, lines.drop_last()),
            line_findings(rules, context, path, lines.len(), lines.last()),
            rule.code(),
        );
    }
}

proof fn lemma_firing_none(
    rule: LineRule,
    rules: PatternRules,
    context: FileContext,
    lines: Seq<Seq<char>>,
)
    requires
        forall|j: int| 0 <= j < lines.len() ==> !rule.fires(rules, context, #[trigger] lines[j]),
    ensures
        firing_lines(rule, rules, context, lines) == 0,
    decreases lines.len(),
{
    if lines.len() > 0 {
        let front = lines.drop_last();
        assert forall|j: int| 0 <= j < front.len() implies !rule.fires(
            rules,
            context,
            #[trigger] front[j],
        ) by {
            assert(front[j] == lines[j]);
        }
        lemma_firing_none(rule, rules, context, front);
        assert(!rule.fires(rules, context, lines[lines.len() - 1]));
    }
}

proof fn lemma_firing_once(
    rule: LineRule,
    rules: PatternRules,
    context: FileContext,
    lines: Seq<Seq<char>>,
    i: int,
)
    requires
        0 <= i < lines.len(),
        rule.fires(rules, context, lines[i]),
        forall|j: int|
            0 <= j < lines.len() && j != i ==> !rule.fires(rules, context, #[trigger] lines[j]),
    ensures
        firing_lines(rule, rules, context, lines) == 1,
    decreases lines.len(),
{
    let front = lines.drop_last();
    if i == lines.len() - 1 {
        assert forall|j: int| 0 <= j < front.len() implies !rule.fires(
            rules,
            context,
            #[trigger] front[j],
        ) by {
            assert(front[j] == lines[j]);
        }
        lemma_firing_none(rule, rules, context, front);
    } else {
        assert(front[i] == lines[i]);
        assert forall|j: int| 0 <= j < front.len() && j != i implies !rule.fires(
            rules,
            context,
            #[trigger] front[j],
        ) by {
            assert(front[j] == lines[j]);
        }
        lemma_firing_once(rule, rules, context, front, i);
        assert(!rule.fires(rules, context, lines[lines.len() - 1]));
    }
}

/// Where a rule fires on line `i` (counted from 0), the findings hold the
/// rule's finding with the line number `i + 1`.
proof fn lemma_finding_present(
    rule: LineRule,
    rules: PatternRules,
    context: FileContext,
    path: Seq<char>,
    lines: Seq<Seq<char>>,
    i: int,
)
    requires
        0 <= i < lines.len(),
        rule.fires(rules, context, lines[i]),
    ensures
        lines_findings(rules, context, path, lines).contains(
            rule.finding(rules, path, (i + 1) as nat, lines[i]),
        ),
    decreases lines.len(),
{
    let front = lines_findings(rules, context, path, lines.drop_last());
    let here = line_findings(rules, context, path, lines.len(), lines.last());
    let wanted = rule.finding(rules, path, (i + 1) as nat, lines[i]);
    if i == lines.len() - 1 {
        lemma_line_by_rule(rules, context, path, lines.len(), lines.last());
        let a = LineRule::UnwrapCall.applied(rules, context, path, lines.len(), lines.last());
        let b = LineRule::ExpectCall.applied(rules, context, path, lines.len(), lines.last());
        let c = LineRule::DebugOutput.applied(rules, context, path, lines.len(), lines.last());
        let d = LineRule::PendingWork.applied(rules, context, path, lines.len(), lines.last());
        let k: int = match rule {
            LineRule::UnwrapCall => 0,
            LineRule::ExpectCall => a.len() as int,
            LineRule::DebugOutput => (a.len() + b.len()) as int,
            LineRule::PendingWork => (a.len() + b.len() + c.len()) as int,
        };
        assert(here[k] == wanted);
        assert((front + here)[front.len() + k] == wanted);
    } else {
        assert(lines.drop_last()[i] == lines[i]);
        lemma_finding_present(rule, rules, context, path, lines.drop_last(), i);
        let k = choose|k: int| 0 <= k < front.len() && front[k] == wanted;
        assert((front + here)[k] == wanted);
    }
}

/// Every finding on the lines of a file carries a line number between 1
/// and the number of lines, and the numbers never go down along the list.
pub proof fn law_ascending_lines(
    rules: PatternRules,
    context: FileContext,
    path: Seq<char>,
    lines: Seq<Seq<char>>,
)
    ensures
        forall|i: int|
            0 <= i < lines_findings(rules, context, path, lines).len() ==> {
                &&& (#[trigger] lines_findings(rules, context, path, lines)[i]).line_number is Some
                &&& 1 <= lines_findings(rules, context, path, lines)[i].line_number->0
                    <= lines.len()
            },
        forall|i: int, j: int|
            0 <= i <= j < lines_findings(rules, context, path, lines).len() ==> (
            #[trigger] lines_findings(rules, context, path, lines)[i]).line_number->0 <= (
            #[trigger] lines_findings(rules, context, path, lines)[j]).line_number->0,
    decreases lines.len(),
{
    if lines.len() > 0 {
        law_ascending_lines(rules, context, path, lines.drop_last());
        let front = lines_findings(rules, context, path, lines.drop_last());
        let here = line_findings(rules, context, path, lines.len(), lines.last());
        let all = lines_findings(rules, context, path, lines);
        assert(all == front + here);
        lemma_line_by_rule(rules, context, path, lines.len(), lines.last());
        assert forall|k: int| 0 <= k < here.len() implies (#[trigger] here[k]).line_number == Some(
            lines.len(),
        ) by {
            let a = LineRule::UnwrapCall.applied(rules, context, path, lines.len(), lines.last());
            let b = LineRule::ExpectCall.applied(rules, context, path, lines.len(), lines.last());
            let c = LineRule::DebugOutput.applied(rules, context, path, lines.len(), lines.last());
            let d = LineRule::PendingWork.applied(rules, context, path, lines.len(), lines.last());
            assert(here == a + b + c + d);
            if k < a.len() {
                assert(here[k] == a[k]);
            } else if k < a.len() + b.len() {
                assert(here[k] == b[k - a.len()]);
            } else if k < a.len() + b.len() + c.len() {
                assert(here[k] == c[k - a.len() - b.len()]);
            } else {
                assert(here[k] == d[k - a.len() - b.len() - c.len()]);
            }
        }
        assert forall|i: int| 0 <= i < all.len() implies {
            &&& (#[trigger] all[i]).line_number is Some
            &&& 1 <= all[i].line_number->0 <= lines.len()
        } by {
            if i < front.len() {
                assert(all[i] == front[i]);
            } else {
                assert(all[i] == here[i - front.len()]);
            }
        }
        assert forall|i: int, j: int| 0 <= i <= j < all.len() implies (#[trigger] all[i]).line_number->0
            <= (#[trigger] all[j]).line_number->0 by {
            if j < front.len() {
                assert(all[i] == front[i]);
                assert(all[j] == front[j]);
            } else {
                assert(all[j] == here[j - front.len()]);
                if i < front.len() {
                    assert(all[i] == front[i]);
                } else {
                    assert(all[i] == here[i - front.len()]);
                }
            }
        }
    }
}

/// Where a rule fires on exactly one line of a file that was read, the
/// file's findings hold exactly one finding with the rule's code: the
/// rule's finding, with its severity, on that line, the first line being 1.
pub proof fn law_one_instance_one_finding(
    rule: LineRule,
    rules: PatternRules,
    file: SourceFile,
    root: Seq<Seq<char>>,
    i: int,
)
    requires
        file.content is Ok,
        0 <= i < lines_of(file.content->Ok_0@).len(),
        rule.fires(
            rules,
            context_of(texts(file.components@), root),
            lines_of(file.content->Ok_0@)[i],
        ),
        forall|j: int|
            0 <= j < lines_of(file.content->Ok_0@).len() && j != i ==> !rule.fires(
                rules,
                context_of(texts(file.components@), root),
                #[trigger] lines_of(file.content->Ok_0@)[j],
            ),
    ensures
        count_code(file_findings(rules, file, root), rule.code()) == 1,
        file_findings(rules, file, root).contains(
            rule.finding(rules, file.path@, (i + 1) as nat, lines_of(file.content->Ok_0@)[i]),
        ),
        rule.finding(
            rules,
            file.path@,
            (i + 1) as nat,
            lines_of(file.content->Ok_0@)[i],
        ).severity == rule.severity(),
{
    let context = context_of(texts(file.components@), root);
    let lines = lines_of(file.content->Ok_0@);
    lemma_rule_count(rule, rules, context, file.path@, lines);
    lemma_firing_once(rule, rules, context, lines, i);
    lemma_finding_present(rule, rules, context, file.path@, lines, i);
}

/// In a file with application context the three rules for library code
/// give no finding, whatever the file holds, and the rule on pending work
/// fires on a line exactly when it would in library code.
pub proof fn law_application_context(
    rule: LineRule,
    rules: PatternRules,
    file: SourceFile,
    root: Seq<Seq<char>>,
)
    requires
        context_of(texts(file.components@), root) == FileContext::Application,
    ensures
        rule != LineRule::PendingWork ==> count_code(
            file_findings(rules, file, root),
            rule.code(),
        ) == 0,
        forall|line: Seq<char>|
            LineRule::PendingWork.fires(rules, FileContext::Application, line)
                == LineRule::PendingWork.fires(rules, FileContext::Library, line),
{
    if rule != LineRule::PendingWork {
        match file.content {
            Ok(text) => {
                let lines = lines_of(text@);
                lemma_rule_count(rule, rules, FileContext::Application, file.path@, lines);
                lemma_firing_none(rule, rules, FileContext::Application, lines);
            },
            Err(reason) => {
                lemma_codes_differ();
                lemma_count_one(read_failure(file.path@, reason@), rule.code());
            },
        }
    }
}

/// Every file was read, and no line rule fires on any line of any of them.
pub open spec fn free_of_matches(
    rules: PatternRules,
    files: Seq<SourceFile>,
    root: Seq<Seq<char>>,
) -> bool {
    forall|k: int|
        0 <= k < files.len() ==> (#[trigger] files[k]).content is Ok && firing_lines_of(
            rules,
            files[k],
            root,
        ) == 0
}

/// On how many lines of a file that was read some rule fires, rule by rule.
pub open spec fn firing_lines_of(rules: PatternRules, file: SourceFile, root: Seq<Seq<char>>) -> nat {
    let context = context_of(texts(file.components@), root);
    let lines = lines_of(file.content->Ok_0@);
    firing_lines(LineRule::UnwrapCall, rules, context, lines) + firing_lines(
        LineRule::ExpectCall,
        rules,
        context,
        lines,
    ) + firing_lines(LineRule::DebugOutput, rules, context, lines) + firing_lines(
        LineRule::PendingWork,
        rules,
        context,
        lines,
    )
}

proof fn lemma_quiet_lines(
    rules: PatternRules,
    context: FileContext,
    path: Seq<char>,
    lines: Seq<Seq<char>>,
)
    requires
        firing_lines(LineRule::UnwrapCall, rules, context, lines) == 0,
        firing_lines(LineRule::ExpectCall, rules, context, lines) == 0,
        firing_lines(LineRule::DebugOutput, rules, context, lines) == 0,
        firing_lines(LineRule::PendingWork, rules, context, lines) == 0,
    ensures
        lines_findings(rules, context, path, lines) == Seq::<FindingView>::empty(),
    decreases lines.len(),
{
    if lines.len() > 0 {
        lemma_quiet_lines(rules, context, path, lines.drop_last());
        lemma_line_by_rule(rules, context, path, lines.len(), lines.last());
        assert(lines_findings(rules, context, path, lines) =~= Seq::<FindingView>::empty());
    }
}

/// Files that were read and on whose lines no rule fires give no finding.
pub proof fn lemma_free_of_matches(rules: PatternRules, files: Seq<SourceFile>, root: Seq<Seq<char>>)
    requires
        free_of_matches(rules, files, root),
    ensures
        pattern_findings(rules, files, root) == Seq::<FindingView>::empty(),
    decreases files.len(),
{
    if files.len() > 0 {
        let front = files.drop_last();
        assert forall|k: int| 0 <= k < front.len() implies (#[trigger] front[k]).content is Ok
            && firing_lines_of(rules, front[k], root) == 0 by {
            assert(front[k] == files[k]);
        }
        lemma_free_of_matches(rules, front, root);
        let last = files[files.len() - 1];
        assert(last.content is Ok && firing_lines_of(rules, last, root) == 0);
        lemma_quiet_lines(
            rules,
            context_of(texts(last.components@), root),
            last.path@,
            lines_of(last.content->Ok_0@),
        );
        assert(pattern_findings(rules, files, root) =~= Seq::<FindingView>::empty());
    }
}

/// Every finding of the lint check is a note with the code of that check.
pub proof fn lemma_lint_findings_are_notes(
    rules: PatternRules,
    targets: Seq<LintTarget>,
    config: Config,
)
    ensures
        forall|i: int|
            0 <= i < lint_findings(rules, targets, config).len() ==> (#[trigger] lint_findings(
                rules,
                targets,
                config,
            )[i]).severity == Severity::Note && lint_findings(rules, targets, config)[i].code
                == "LINT001"@,
    decreases targets.len(),
{
    if targets.len() > 0 {
        lemma_lint_findings_are_notes(rules, targets.drop_last(), config);
        let front = lint_findings(rules, targets.drop_last(), config);
        let all = lint_findings(rules, targets, config);
        assert forall|i: int| 0 <= i < all.len() implies (#[trigger] all[i]).severity
            == Severity::Note && all[i].code == "LINT001"@ by {
            if i < front.len() {
                assert(all[i] == front[i]);
            } else {
                assert(all[i] == missing_denial(targets.last()));
            }
        }
    }
}

/// The entry point `src/main.rs`, the files of the binaries directory
/// `src/bin`, the build script `build.rs` in the root, the library root
/// `src/lib.rs` and every file outside `src` have application context.
/// Every other file in `src` is library code, whatever it is called.
pub proof fn law_application_files(file: Seq<Seq<char>>, root: Seq<Seq<char>>)
    ensures
        (file == root.push("src"@).push("main.rs"@) || under(file, root.push("src"@).push("bin"@))
            || file == root.push("build.rs"@) || file == root.push("src"@).push("lib.rs"@)
            || !under(file, root.push("src"@))) <==> context_of(file, root)
            == FileContext::Application,
{
    reveal_strlit("src");
    reveal_strlit("build.rs");
    let src = root.push("src"@);
    let script = root.push("build.rs"@);
    assert(src[root.len() as int] == "src"@);
    assert(script[root.len() as int] == "build.rs"@);
    assert("src"@.len() != "build.rs"@.len());
    assert(!under(script, src));
    if under(file, src.push("bin"@)) && !under(file, src) {
        assert forall|i: int| 0 <= i < src.len() implies file[i] == src[i] by {
            assert(src.push("bin"@)[i] == src[i]);
        }
    }
}

/// How many of the findings carry the code and name the line of the file at the path.
pub open spec fn count_at(
    findings: Seq<FindingView>,
    path: Seq<char>,
    code: Seq<char>,
    number: nat,
) -> nat
    decreases findings.len(),
{
    if findings.len() == 0 {
        0
    } else {
        count_at(findings.drop_last(), path, code, number) + (if findings.last().file_path == Some(
            path,
        ) && findings.last().code == code && findings.last().line_number == Some(number) {
            1nat
        } else {
            0nat
        })
    }
}

proof fn lemma_count_at_concat(
    a: Seq<FindingView>,
    b: Seq<FindingView>,
    path: Seq<char>,
    code: Seq<char>,
    number: nat,
)
    ensures
        count_at(a + b, path, code, number) == count_at(a, path, code, number) + count_at(
            b,
            path,
            code,
            number,
        ),
    decreases b.len(),
{
    if b.len() == 0 {
        assert(a + b =~= a);
    } else {
        assert((a + b).drop_last() =~= a + b.drop_last());
        assert((a + b).last() == b.last());
        lemma_count_at_concat(a, b.drop_last(), path, code, number);
    }
}

proof fn lemma_count_at_one(f: FindingView, path: Seq<char>, code: Seq<char>, number: nat)
    ensures
        count_at(seq![f], path, code, number) == (if f.file_path == Some(path) && f.code == code
            && f.line_number == Some(number) {
            1nat
        } else {
            0nat
        }),
        count_at(Seq::<FindingView>::empty(), path, code, number) == 0,
{
    assert(seq![f].drop_last() =~= Seq::<FindingView>::empty());
    assert(seq![f].last() == f);
    assert(count_at(Seq::<FindingView>::empty(), path, code, number) == 0);
    assert(count_at(seq![f].drop_last(), path, code, number) == 0);
}

proof fn lemma_count_at_elsewhere(
    findings: Seq<FindingView>,
    path: Seq<char>,
    code: Seq<char>,
    number: nat,
)
    requires
        forall|i: int| 0 <= i < findings.len() ==> (#[trigger] findings[i]).file_path != Some(path),
    ensures
        count_at(findings, path, code, number) == 0,
    decreases findings.len(),
{
    if findings.len() > 0 {
        let front = findings.drop_last();
        assert forall|i: int| 0 <= i < front.len() implies (#[trigger] front[i]).file_path != Some(
            path,
        ) by {
            assert(front[i] == findings[i]);
        }
        lemma_count_at_elsewhere(front, path, code, number);
        assert(findings[findings.len() - 1].file_path != Some(path));
    }
}

/// A rule gives one finding on a line where it fires, and none where it does not.
proof fn lemma_line_count_at(
    rule: LineRule,
    rules: PatternRules,
    context: FileContext,
    path: Seq<char>,
    number: nat,
    line: Seq<char>,
    wanted: nat,
)
    ensures
        count_at(line_findings(rules, context, path, number, line), path, rule.code(), wanted) == (
        if wanted == number && rule.fires(rules, context, line) {
            1nat
        } else {
            0nat
        }),
{
    lemma_codes_differ();
    lemma_line_by_rule(rules, context, path, number, line);
    let code = rule.code();
    let a = LineRule::UnwrapCall.applied(rules, context, path, number, line);
    let b = LineRule::ExpectCall.applied(rules, context, path, number, line);
    let c = LineRule::DebugOutput.applied(rules, context, path, number, line);
    let d = LineRule::PendingWork.applied(rules, context, path, number, line);
    lemma_count_at_concat(a + b + c, d, path, code, wanted);
    lemma_count_at_concat(a + b, c, path, code, wanted);
    lemma_count_at_concat(a, b, path, code, wanted);
    lemma_count_at_one(LineRule::UnwrapCall.finding(rules, path, number, line), path, code, wanted);
    lemma_count_at_one(LineRule::ExpectCall.finding(rules, path, number, line), path, code, wanted);
    lemma_count_at_one(
        LineRule::DebugOutput.finding(rules, path, number, line),
        path,
        code,
        wanted,
    );
    lemma_count_at_one(
        LineRule::PendingWork.finding(rules, path, number, line),
        path,
        code,
        wanted,
    );
}

/// The lines of a file give one finding of a rule on each line where the rule fires.
proof fn lemma_lines_count_at(
    rule: LineRule,
    rules: PatternRules,
    context: FileContext,
    path: Seq<char>,
    lines: Seq<Seq<char>>,
    n: int,
)
    requires
        0 <= n < lines.len(),
    ensures
        count_at(
            lines_findings(rules, context, path, lines),
            path,
            rule.code(),
            (n + 1) as nat,
        ) == (if rule.fires(rules, context, lines[n]) {
            1nat
        } else {
            0nat
        }),
    decreases lines.len(),
{
    let front = lines_findings(rules, context, path, lines.drop_last());
    let here = line_findings(rules, context, path, lines.len(), lines.last());
    lemma_count_at_concat(front, here, path, rule.code(), (n + 1) as nat);
    lemma_line_count_at(rule, rules, context, path, lines.len(), lines.last(), (n + 1) as nat);
    if n == lines.len() - 1 {
        law_ascending_lines(rules, context, path, lines.drop_last());
        assert(count_at(front, path, rule.code(), (n + 1) as nat) == 0) by {
            lemma_count_at_beyond(front, path, rule.code(), (n + 1) as nat);
        }
    } else {
        assert(lines.drop_last()[n] == lines[n]);
        lemma_lines_count_at(rule, rules, context, path, lines.drop_last(), n);
    }
}

proof fn lemma_count_at_beyond(
    findings: Seq<FindingView>,
    path: Seq<char>,
    code: Seq<char>,
    number: nat,
)
    requires
        forall|i: int|
            0 <= i < findings.len() ==> (#[trigger] findings[i]).line_number != Some(number),
    ensures
        count_at(findings, path, code, number) == 0,
    decreases findings.len(),
{
    if findings.len() > 0 {
        let front = findings.drop_last();
        assert forall|i: int| 0 <= i < front.len() implies (#[trigger] front[i]).line_number
            != Some(number) by {
            assert(front[i] == findings[i]);
        }
        lemma_count_at_beyond(front, path, code, number);
        assert(findings[findings.len() - 1].line_number != Some(number));
    }
}

/// Every finding on the lines of a file names the file, and in a file
/// with application context it carries the code of the rule on pending work.
proof fn lemma_lines_members(
    rules: PatternRules,
    context: FileContext,
    path: Seq<char>,
    lines: Seq<Seq<char>>,
)
    ensures
        forall|i: int|
            0 <= i < lines_findings(rules, context, path, lines).len() ==> (
            #[trigger] lines_findings(rules, context, path, lines)[i]).file_path == Some(path) && (
            context == FileContext::Application ==> lines_findings(
                rules,
                context,
                path,
                lines,
            )[i].code == LineRule::PendingWork.code()),
    decreases lines.len(),
{
    if lines.len() > 0 {
        lemma_lines_members(rules, context, path, lines.drop_last());
        lemma_line_by_rule(rules, context, path, lines.len(), lines.last());
        let front = lines_findings(rules, context, path, lines.drop_last());
        let here = line_findings(rules, context, path, lines.len(), lines.last());
        let all = lines_findings(rules, context, path, lines);
        let a = LineRule::UnwrapCall.applied(rules, context, path, lines.len(), lines.last());
        let b = LineRule::ExpectCall.applied(rules, context, path, lines.len(), lines.last());
        let c = LineRule::DebugOutput.applied(rules, context, path, lines.len(), lines.last());
        let d = LineRule::PendingWork.applied(rules, context, path, lines.len(), lines.last());
        assert forall|i: int| 0 <= i < all.len() implies (#[trigger] all[i]).file_path == Some(path)
            && (context == FileContext::Application ==> all[i].code
            == LineRule::PendingWork.code()) by {
            if i < front.len() {
                assert(all[i] == front[i]);
            } else {
                let k = i - front.len();
                assert(all[i] == here[k]);
                if k < a.len() {
                    assert(here[k] == a[k]);
                } else if k < a.len() + b.len() {
                    assert(here[k] == b[k - a.len()]);
                } else if k < a.len() + b.len() + c.len() {
                    assert(here[k] == c[k - a.len() - b.len()]);
                } else {
                    assert(here[k] == d[k - a.len() - b.len() - c.len()]);
                }
            }
        }
    }
}

/// Every finding on a file names the file.
proof fn lemma_file_members(rules: PatternRules, file: SourceFile, root: Seq<Seq<char>>)
    ensures
        forall|i: int|
            0 <= i < file_findings(rules, file, root).len() ==> (#[trigger] file_findings(
                rules,
                file,
                root,
            )[i]).file_path == Some(file.path@) && (file.content is Ok && context_of(
                texts(file.components@),
                root,
            ) == FileContext::Application ==> file_findings(rules, file, root)[i].code
                == LineRule::PendingWork.code()),
{
    if file.content is Ok {
        lemma_lines_members(
            rules,
            context_of(texts(file.components@), root),
            file.path@,
            lines_of(file.content->Ok_0@),
        );
    }
}

/// Every finding on a list of files is a finding on one of the files.
proof fn lemma_list_members(rules: PatternRules, files: Seq<SourceFile>, root: Seq<Seq<char>>)
    ensures
        forall|i: int|
            0 <= i < pattern_findings(rules, files, root).len() ==> exists|j: int|
                0 <= j < files.len() && (#[trigger] file_findings(rules, files[j], root)).contains(
                    #[trigger] pattern_findings(rules, files, root)[i],
                ),
    decreases files.len(),
{
    if files.len() > 0 {
        let front_files = files.drop_last();
        lemma_list_members(rules, front_files, root);
        let front = pattern_findings(rules, front_files, root);
        let here = file_findings(rules, files.last(), root);
        let all = pattern_findings(rules, files, root);
        assert forall|i: int| 0 <= i < all.len() implies exists|j: int|
            0 <= j < files.len() && (#[trigger] file_findings(rules, files[j], root)).contains(
                #[trigger] all[i],
            ) by {
            if i < front.len() {
                assert(all[i] == front[i]);
                let j = choose|j: int|
                    0 <= j < front_files.len() && (#[trigger] file_findings(
                        rules,
                        front_files[j],
                        root,
                    )).contains(front[i]);
                assert(front_files[j] == files[j]);
                assert(file_findings(rules, files[j], root).contains(all[i]));
            } else {
                assert(all[i] == here[i - front.len()]);
                assert(files[files.len() - 1] == files.last());
                assert(file_findings(rules, files[files.len() - 1], root).contains(all[i]));
            }
        }
    }
}

/// In a list without a path twice, the findings that name a file are those on that file.
proof fn lemma_list_count_at(
    rules: PatternRules,
    files: Seq<SourceFile>,
    root: Seq<Seq<char>>,
    k: int,
    code: Seq<char>,
    number: nat,
)
    requires
        0 <= k < files.len(),
        forall|i: int, j: int|
            0 <= i < j < files.len() ==> (#[trigger] files[i]).path@ != (#[trigger] files[j]).path@,
    ensures
        count_at(pattern_findings(rules, files, root), files[k].path@, code, number) == count_at(
            file_findings(rules, files[k], root),
            files[k].path@,
            code,
            number,
        ),
    decreases files.len(),
{
    let path = files[k].path@;
    let front_files = files.drop_last();
    let front = pattern_findings(rules, front_files, root);
    let here = file_findings(rules, files.last(), root);
    lemma_count_at_concat(front, here, path, code, number);
    if k == files.len() - 1 {
        lemma_list_members(rules, front_files, root);
        assert forall|i: int| 0 <= i < front.len() implies (#[trigger] front[i]).file_path != Some(
            path,
        ) by {
            let j = choose|j: int|
                0 <= j < front_files.len() && (#[trigger] file_findings(
                    rules,
                    front_files[j],
                    root,
                )).contains(front[i]);
            lemma_file_members(rules, front_files[j], root);
            assert(front_files[j] == files[j]);
            assert(files[j].path@ != files[k].path@);
        }
        lemma_count_at_elsewhere(front, path, code, number);
    } else {
        assert(front_files[k] == files[k]);
        assert forall|i: int, j: int| 0 <= i < j < front_files.len() implies (
        #[trigger] front_files[i]).path@ != (#[trigger] front_files[j]).path@ by {
            assert(front_files[i] == files[i]);
            assert(front_files[j] == files[j]);
        }
        lemma_list_count_at(rules, front_files, root, k, code, number);
        lemma_file_members(rules, files.last(), root);
        assert(files[files.len() - 1].path@ != files[k].path@);
        lemma_count_at_elsewhere(here, path, code, number);
    }
}

/// In the findings on a sound list of files, each rule has exactly one
/// finding that names a line of a file that was read where the rule fires
/// on that line, and none where it does not.
pub proof fn law_one_finding_per_firing_line(
    rule: LineRule,
    rules: PatternRules,
    files: Seq<SourceFile>,
    root: Seq<Seq<char>>,
    k: int,
    n: int,
)
    requires
        sound_list(files),
        0 <= k < files.len(),
        files[k].content is Ok,
        0 <= n < lines_of(files[k].content->Ok_0@).len(),
    ensures
        count_at(
            pattern_findings(rules, files, root),
            files[k].path@,
            rule.code(),
            (n + 1) as nat,
        ) == (if rule.fires(
            rules,
            context_of(texts(files[k].components@), root),
            lines_of(files[k].content->Ok_0@)[n],
        ) {
            1nat
        } else {
            0nat
        }),
{
    lemma_list_count_at(rules, files, root, k, rule.code(), (n + 1) as nat);
    lemma_lines_count_at(
        rule,
        rules,
        context_of(texts(files[k].components@), root),
        files[k].path@,
        lines_of(files[k].content->Ok_0@),
        n,
    );
}

/// In the findings on a sound list of files, no finding of a rule for
/// library code names a file with application context that was read,
/// whatever the file holds: every finding that names such a file is one
/// on pending work. And each of its lines with a marker of pending work
/// has exactly one such finding.
pub proof fn law_application_files_in_a_list(
    rules: PatternRules,
    files: Seq<SourceFile>,
    root: Seq<Seq<char>>,
    k: int,
)
    requires
        sound_list(files),
        0 <= k < files.len(),
        files[k].content is Ok,
        context_of(texts(files[k].components@), root) == FileContext::Application,
    ensures
        forall|i: int|
            0 <= i < pattern_findings(rules, files, root).len() && (#[trigger] pattern_findings(
                rules,
                files,
                root,
            )[i]).file_path == Some(files[k].path@) ==> {
                &&& pattern_findings(rules, files, root)[i].code == LineRule::PendingWork.code()
                &&& pattern_findings(rules, files, root)[i].code != LineRule::UnwrapCall.code()
                &&& pattern_findings(rules, files, root)[i].code != LineRule::ExpectCall.code()
                &&& pattern_findings(rules, files, root)[i].code != LineRule::DebugOutput.code()
            },
        forall|n: int|
            0 <= n < lines_of(files[k].content->Ok_0@).len() && LineRule::PendingWork.fires(
                rules,
                FileContext::Application,
                #[trigger] lines_of(files[k].content->Ok_0@)[n],
            ) ==> count_at(
                pattern_findings(rules, files, root),
                files[k].path@,
                LineRule::PendingWork.code(),
                (n + 1) as nat,
            ) == 1,
{
    lemma_codes_differ();
    lemma_list_members(rules, files, root);
    let all = pattern_findings(rules, files, root);
    assert forall|i: int| 0 <= i < all.len() && (#[trigger] all[i]).file_path == Some(
        files[k].path@,
    ) implies all[i].code == LineRule::PendingWork.code() by {
        let j = choose|j: int|
            0 <= j < files.len() && (#[trigger] file_findings(rules, files[j], root)).contains(
                all[i],
            );
        lemma_file_members(rules, files[j], root);
        if j < k {
            assert(files[j].path@ != files[k].path@);
        } else if k < j {
            assert(files[k].path@ != files[j].path@);
        }
    }
    assert forall|n: int|
        0 <= n < lines_of(files[k].content->Ok_0@).len() && LineRule::PendingWork.fires(
            rules,
            FileContext::Application,
            #[trigger] lines_of(files[k].content->Ok_0@)[n],
        ) implies count_at(all, files[k].path@, LineRule::PendingWork.code(), (n + 1) as nat)
        == 1 by {
        law_one_finding_per_firing_line(LineRule::PendingWork, rules, files, root, k, n);
    }
}

/// What the project's directory holds, as far as the structure check asks.
#[derive(Debug, Clone)]
pub struct ProjectLayout {
    /// `src/lib.rs` is a file.
    pub has_lib_rs: bool,
    /// `src/main.rs` is a file.
    pub has_main_rs: bool,
    /// `src/bin` is a directory.
    pub has_bin_dir: bool,
    /// `README.md` or `README.rst` is a file in the root.
    pub has_readme: bool,
    /// The manifest's `readme` key names a path, and that path is a file.
    pub readme_target_exists: bool,
    /// One of [`license_file_names`] is a file in the root.
    pub has_license_file: bool,
    /// Where `README.md` would stand, for the finding that misses it.
    pub readme_path: String,
}

/// The subdirectories of the root in which source files are looked for.
pub fn source_roots() -> (roots: Vec<String>)
    ensures
        texts(roots@) == seq!["src"@, "tests"@, "examples"@, "benches"@],
{
    let mut roots: Vec<String> = Vec::new();
    roots.push(String::from_str("src"));
    roots.push(String::from_str("tests"));
    roots.push(String::from_str("examples"));
    roots.push(String::from_str("benches"));
    assert(texts(roots@) =~= seq!["src"@, "tests"@, "examples"@, "benches"@]);
    roots
}

/// The file names that count as a license file.
pub fn license_file_names() -> (names: Vec<String>)
    ensures
        texts(names@) == seq![
            "LICENSE"@,
            "license"@,
            "LICENSE.txt"@,
            "LICENSE.TXT"@,
            "license.txt"@,
            "LICENSE-MIT"@,
            "license-mit"@,
            "LICENSE-APACHE"@,
            "license-apache"@,
            "COPYING"@,
            "copying"@,
            "UNLICENSE"@,
            "unlicense"@,
        ],
{
    let mut names: Vec<String> = Vec::new();
    names.push(String::from_str("LICENSE"));
    names.push(String::from_str("license"));
    names.push(String::from_str("LICENSE.txt"));
    names.push(String::from_str("LICENSE.TXT"));
    names.push(String::from_str("license.txt"));
    names.push(String::from_str("LICENSE-MIT"));
    names.push(String::from_str("license-mit"));
    names.push(String::from_str("LICENSE-APACHE"));
    names.push(String::from_str("license-apache"));
    names.push(String::from_str("COPYING"));
    names.push(String::from_str("copying"));
    names.push(String::from_str("UNLICENSE"));
    names.push(String::from_str("unlicense"));
    assert(texts(names@) =~= seq![
        "LICENSE"@,
        "license"@,
        "LICENSE.txt"@,
        "LICENSE.TXT"@,
        "license.txt"@,
        "LICENSE-MIT"@,
        "license-mit"@,
        "LICENSE-APACHE"@,
        "license-apache"@,
        "COPYING"@,
        "copying"@,
        "UNLICENSE"@,
        "unlicense"@,
    ]);
    names
}

/// The path that the manifest's `readme` key names, if it names one.
pub open spec fn readme_target_of(manifest: CargoManifest) -> Option<Seq<char>> {
    match manifest.package {
        Some(package) => match package.readme {
            Some(ReadmeField::Path(path)) => Some(path@),
            _ => None,
        },
        None => None,
    }
}

/// The path that the manifest's `readme` key names, if it names one.
pub fn readme_target(manifest: &CargoManifest) -> (target: Option<&str>)
    ensures
        match target {
            Some(path) => readme_target_of(*manifest) == Some(path@),
            None => readme_target_of(*manifest) is None,
        },
{
    match &manifest.package {
        Some(package) => match &package.readme {
            Some(ReadmeField::Path(path)) => Some(path.as_str()),
            _ => None,
        },
        None => None,
    }
}

/// The manifest switches the readme off, or names one that exists.
pub open spec fn readme_excused(readme: Option<ReadmeField>, layout: ProjectLayout) -> bool {
    match readme {
        Some(ReadmeField::Flag(on)) => !on,
        Some(ReadmeField::Path(_)) => layout.readme_target_exists,
        _ => false,
    }
}

/// The finding on a package without any source file.
pub open spec fn no_sources() -> FindingView {
    plain(
        "STRUCT001"@,
        "Project has neither src/lib.rs, src/main.rs, nor src/bin/ directory. Is it a virtual workspace or missing source files?"@,
        Severity::Warning,
        Some("Cargo.toml"@),
    )
}

/// The finding on a project without a readme.
pub open spec fn no_readme(readme_path: Seq<char>) -> FindingView {
    plain(
        "STRUCT002"@,
        "Missing README.md file in project root. Consider adding one."@,
        Severity::Note,
        Some(readme_path),
    )
}

/// The finding on a project without a license file.
pub open spec fn no_license() -> FindingView {
    plain(
        "STRUCT003"@,
        "Missing LICENSE file in project root. Consider adding one (e.g., LICENSE-MIT or LICENSE-APACHE)."@,
        Severity::Warning,
        Some("Project Root"@),
    )
}

/// The findings on the layout of a project with a package section: no
/// library root, entry point or binaries directory; no readme, unless the
/// manifest excuses it; no license file, unless the manifest names a license.
/// A manifest without a package section gives none.
pub open spec fn structure_findings(layout: ProjectLayout, manifest: Option<CargoManifest>) -> Seq<
    FindingView,
> {
    match manifest {
        Some(m) => match m.package {
            Some(package) => only_if(
                !layout.has_lib_rs && !layout.has_main_rs && !layout.has_bin_dir,
                no_sources(),
            ) + only_if(
                !layout.has_readme && !readme_excused(package.readme, layout),
                no_readme(layout.readme_path@),
            ) + only_if(!layout.has_license_file && blank(package.license), no_license()),
            None => seq![],
        },
        None => seq![],
    }
}

/// Checks the layout of the project's directory.
pub fn check_project_structure(layout: &ProjectLayout, manifest_data: Option<&CargoManifest>) -> (
    findings: Vec<Finding>)
    ensures
        views(findings@) == structure_findings(
            *layout,
            match manifest_data {
                Some(m) => Some(*m),
                None => None,
            },
        ),
{
    let mut findings: Vec<Finding> = Vec::new();
    assert(views(findings@) =~= seq![]);
    let package = match manifest_data {
        Some(m) => match &m.package {
            Some(package) => package,
            None => {
                return findings;
            },
        },
        None => {
            return findings;
        },
    };
    if !layout.has_lib_rs && !layout.has_main_rs && !layout.has_bin_dir {
        let f = Finding::new(
            "STRUCT001",
            String::from_str(
                "Project has neither src/lib.rs, src/main.rs, nor src/bin/ directory. Is it a virtual workspace or missing source files?",
            ),
            Severity::Warning,
            Some(String::from_str("Cargo.toml")),
        );
        proof {
            lemma_views_push(findings@, f);
        }
        findings.push(f);
    }
    let ghost first = views(findings@);
    assert(first =~= only_if(
        !layout.has_lib_rs && !layout.has_main_rs && !layout.has_bin_dir,
        no_sources(),
    ));
    let excused = match &package.readme {
        Some(ReadmeField::Flag(on)) => !*on,
        Some(ReadmeField::Path(_)) => layout.readme_target_exists,
        _ => false,
    };
    if !layout.has_readme && !excused {
        let f = Finding::new(
            "STRUCT002",
            String::from_str("Missing README.md file in project root. Consider adding one."),
            Severity::Note,
            Some(layout.readme_path.clone()),
        );
        proof {
            lemma_views_push(findings@, f);
        }
        findings.push(f);
    }
    let ghost second = views(findings@);
    assert(second =~= first + only_if(
        !layout.has_readme && !readme_excused(package.readme, *layout),
        no_readme(layout.readme_path@),
    ));
    let license_blank = match &package.license {
        Some(text) => text.as_str().is_empty(),
        None => true,
    };
    if !layout.has_license_file && license_blank {
        let f = Finding::new(
            "STRUCT003",
            String::from_str(
                "Missing LICENSE file in project root. Consider adding one (e.g., LICENSE-MIT or LICENSE-APACHE).",
            ),
            Severity::Warning,
            Some(String::from_str("Project Root")),
        );
        proof {
            lemma_views_push(findings@, f);
        }
        findings.push(f);
    }
    assert(views(findings@) =~= second + only_if(
        !layout.has_license_file && blank(package.license),
        no_license(),
    ));
    findings
}

/// A crate root that the lint check looks at: the path as text, the file
/// name, and the content where the file could be read.
#[derive(Debug, Clone)]
pub struct LintTarget {
    pub path: String,
    pub file_name: String,
    pub content: Option<String>,
}

/// The lint that a crate root should deny.
pub const RECOMMENDED_DENIAL: &'static str = "warnings";

/// A comma-separated list names the lint, white space around the names aside.
pub open spec fn lists_lint(list: Seq<char>, lint: Seq<char>) -> bool {
    exists|k: int| 0 <= k < pieces_of(list, ',').len() && trimmed(#[trigger] pieces_of(list, ',')[k]) == lint
}

/// One of the lists names the lint. A list that is absent names nothing.
pub open spec fn named_in(lists: Seq<Option<Seq<char>>>, lint: Seq<char>) -> bool {
    exists|k: int|
        0 <= k < lists.len() && (#[trigger] lists[k]) is Some && lists_lint(lists[k]->0, lint)
}

/// Some `deny` attribute of the text names the lint.
pub open spec fn denies(rules: PatternRules, content: Seq<char>, lint: Seq<char>) -> bool {
    named_in(regex_all_groups(rules.denied_lints.source(), content), lint)
}

/// The finding on a crate root that does not deny warnings.
pub open spec fn missing_denial(target: LintTarget) -> FindingView {
    plain(
        "LINT001"@,
        "Consider adding `#![deny("@ + RECOMMENDED_DENIAL@ + ")]` to the top of "@ + debug_text(
            target.file_name@,
        ) + " for stricter linting."@,
        Severity::Note,
        Some(target.path@),
    )
}

/// The finding on each crate root that was read and denies no warnings; none where the check is disabled.
pub open spec fn lint_findings(rules: PatternRules, targets: Seq<LintTarget>, config: Config) -> Seq<
    FindingView,
>
    decreases targets.len(),
{
    if targets.len() == 0 {
        seq![]
    } else {
        lint_findings(rules, targets.drop_last(), config) + only_if(
            config.enabled("LINT001"@) && targets.last().content is Some && !denies(
                rules,
                targets.last().content->0@,
                RECOMMENDED_DENIAL@,
            ),
            missing_denial(targets.last()),
        )
    }
}

/// Whether a comma-separated list names the lint.
pub fn list_names(list: &str, lint: &str) -> (b: bool)
    ensures
        b == lists_lint(list@, lint@),
{
    let pieces = split_on(list, ',');
    let mut k: usize = 0;
    while k < pieces.len()
        invariant
            k <= pieces.len(),
            texts(pieces@) == pieces_of(list@, ','),
            forall|j: int| 0 <= j < k ==> trimmed(#[trigger] pieces_of(list@, ',')[j]) != lint@,
        decreases pieces.len() - k,
    {
        let name = trim(pieces[k].as_str());
        assert(texts(pieces@)[k as int] == pieces@[k as int]@);
        if text_eq(name.as_str(), lint) {
            assert(trimmed(pieces_of(list@, ',')[k as int]) == lint@);
            return true;
        }
        k = k + 1;
    }
    false
}

/// The lists of lints as sequences of characters.
pub open spec fn list_views(lists: Seq<Option<String>>) -> Seq<Option<Seq<char>>> {
    lists.map_values(|g: Option<String>| crate::diagnostics::view_opt_string(g))
}

/// Whether one of the lists that the `deny` attributes of a text hold
/// names the lint.
pub fn lint_is_named(lists: &Vec<Option<String>>, lint: &str) -> (b: bool)
    ensures
        b == named_in(list_views(lists@), lint@),
{
    let ghost all = list_views(lists@);
    let mut k: usize = 0;
    while k < lists.len()
        invariant
            k <= lists.len(),
            all == list_views(lists@),
            forall|j: int|
                0 <= j < k ==> !((#[trigger] all[j]) is Some && lists_lint(all[j]->0, lint@)),
        decreases lists.len() - k,
    {
        assert(all[k as int] == crate::diagnostics::view_opt_string(lists@[k as int]));
        match &lists[k] {
            Some(list) => {
                if list_names(list.as_str(), lint) {
                    assert(all[k as int] is Some && lists_lint(all[k as int]->0, lint@));
                    return true;
                }
            },
            None => {},
        }
        k = k + 1;
    }
    false
}

fn content_denies(rules: &PatternRules, content: &str, lint: &str) -> (b: bool)
    ensures
        b == denies(*rules, content@, lint@),
{
    let lists = rules.denied_lints.all_groups(content);
    assert(list_views(lists@) == regex_all_groups(rules.denied_lints.source(), content@));
    lint_is_named(&lists, lint)
}

/// Checks that the crate roots deny warnings.
pub fn check_missing_denied_lints(
    rules: &PatternRules,
    targets: &Vec<LintTarget>,
    config: &Config,
) -> (findings: Vec<Finding>)
    ensures
        views(findings@) == lint_findings(*rules, targets@, *config),
{
    let mut findings: Vec<Finding> = Vec::new();
    let mut i: usize = 0;
    assert(targets@.take(0) =~= seq![]);
    assert(views(findings@) =~= lint_findings(*rules, targets@.take(0), *config));
    while i < targets.len()
        invariant
            i <= targets.len(),
            views(findings@) == lint_findings(*rules, targets@.take(i as int), *config),
        decreases targets.len() - i,
    {
        let ghost next = targets@.take(i as int + 1);
        assert(next.drop_last() =~= targets@.take(i as int));
        assert(next.last() == targets@[i as int]);
        let target = &targets[i];
        if config.is_check_enabled("LINT001") {
            match &target.content {
                Some(content) => {
                    if !content_denies(rules, content.as_str(), RECOMMENDED_DENIAL) {
                        let mut message = String::from_str("Consider adding `#![deny(");
                        message.append(RECOMMENDED_DENIAL);
                        message.append(")]` to the top of ");
                        let shown = quoted(target.file_name.as_str());
                        message.append(shown.as_str());
                        message.append(" for stricter linting.");
                        let f = Finding::new(
                            "LINT001",
                            message,
                            Severity::Note,
                            Some(target.path.clone()),
                        );
                        proof {
                            lemma_views_push(findings@, f);
                        }
                        findings.push(f);
                    }
                },
                None => {},
            }
        }
        assert(views(findings@) =~= lint_findings(*rules, next, *config));
        i = i + 1;
    }
    assert(targets@.take(targets@.len() as int) =~= targets@);
    findings
}

/// What a walk through a directory reports of one entry.
#[derive(Debug, Clone)]
pub struct WalkedEntry {
    pub path: String,
    pub file_name: String,
    pub is_file: bool,
}

/// The file name has the extension `rs`: it ends in `.rs`, and more than the dot stands before it.
pub open spec fn rust_name(name: Seq<char>) -> bool {
    name.len() > 3 && name[name.len() - 3] == '.' && name[name.len() - 2] == 'r' && name[name.len()
        - 1] == 's'
}

/// A regular file with the extension `rs`.
pub open spec fn is_rust_entry(entry: WalkedEntry) -> bool {
    entry.is_file && rust_name(entry.file_name@)
}

/// The paths of the source files among the entries, each once, in the
/// order in which they first occur.
pub open spec fn collected(entries: Seq<WalkedEntry>) -> Seq<Seq<char>>
    decreases entries.len(),
{
    if entries.len() == 0 {
        seq![]
    } else {
        let front = collected(entries.drop_last());
        if is_rust_entry(entries.last()) && !front.contains(entries.last().path@) {
            front.push(entries.last().path@)
        } else {
            front
        }
    }
}

/// Whether a file name has the extension `rs`.
pub fn has_rust_extension(file_name: &str) -> (b: bool)
    ensures
        b == rust_name(file_name@),
{
    let v = chars_of(file_name);
    let n = v.len();
    n > 3 && v[n - 3] == '.' && v[n - 2] == 'r' && v[n - 1] == 's'
}

/// Whether a walked entry is a source file.
pub fn is_rust_file(entry: &WalkedEntry) -> (b: bool)
    ensures
        b == is_rust_entry(*entry),
{
    entry.is_file && has_rust_extension(entry.file_name.as_str())
}

fn holds(paths: &Vec<String>, path: &str) -> (b: bool)
    ensures
        b == texts(paths@).contains(path@),
{
    let mut i: usize = 0;
    while i < paths.len()
        invariant
            i <= paths.len(),
            forall|k: int| 0 <= k < i ==> texts(paths@)[k] != path@,
        decreases paths.len() - i,
    {
        if text_eq(paths[i].as_str(), path) {
            assert(texts(paths@)[i as int] == path@);
            return true;
        }
        i = i + 1;
    }
    false
}

/// What was collected holds no path twice, and holds exactly the paths of the source files.
pub proof fn lemma_collected(entries: Seq<WalkedEntry>)
    ensures
        collected(entries).no_duplicates(),
        forall|path: Seq<char>| #[trigger]
            collected(entries).contains(path) <==> exists|i: int|
                0 <= i < entries.len() && is_rust_entry(#[trigger] entries[i]) && entries[i].path@
                    == path,
    decreases entries.len(),
{
    if entries.len() == 0 {
    } else {
        let front_entries = entries.drop_last();
        let front = collected(front_entries);
        let last = entries.last();
        lemma_collected(front_entries);
        let all = collected(entries);
        assert forall|path: Seq<char>| #[trigger]
            all.contains(path) <==> exists|i: int|
                0 <= i < entries.len() && is_rust_entry(#[trigger] entries[i]) && entries[i].path@
                    == path by {
            if all.contains(path) {
                let k = choose|k: int| 0 <= k < all.len() && all[k] == path;
                if k < front.len() {
                    assert(front[k] == path);
                    assert(front.contains(path));
                    let i = choose|i: int|
                        0 <= i < front_entries.len() && is_rust_entry(#[trigger] front_entries[i])
                            && front_entries[i].path@ == path;
                    assert(entries[i] == front_entries[i]);
                } else {
                    assert(entries[entries.len() - 1] == last);
                }
            }
            if exists|i: int|
                0 <= i < entries.len() && is_rust_entry(#[trigger] entries[i]) && entries[i].path@
                    == path {
                let i = choose|i: int|
                    0 <= i < entries.len() && is_rust_entry(#[trigger] entries[i])
                        && entries[i].path@ == path;
                if i < entries.len() - 1 {
                    assert(front_entries[i] == entries[i]);
                    assert(front.contains(path));
                    let k = choose|k: int| 0 <= k < front.len() && front[k] == path;
                    assert(all[k] == path);
                } else {
                    if front.contains(path) {
                        let k = choose|k: int| 0 <= k < front.len() && front[k] == path;
                        assert(all[k] == path);
                    } else {
                        assert(all[all.len() - 1] == path);
                    }
                }
            }
        }
    }
}

/// Picks the source files among the entries of a walk, each path once.
pub fn collect_rust_files(entries: &Vec<WalkedEntry>) -> (rust_files: Vec<String>)
    ensures
        texts(rust_files@) == collected(entries@),
        texts(rust_files@).no_duplicates(),
{
    let mut rust_files: Vec<String> = Vec::new();
    let mut i: usize = 0;
    assert(entries@.take(0) =~= seq![]);
    assert(texts(rust_files@) =~= collected(entries@.take(0)));
    while i < entries.len()
        invariant
            i <= entries.len(),
            texts(rust_files@) == collected(entries@.take(i as int)),
        decreases entries.len() - i,
    {
        let ghost next = entries@.take(i as int + 1);
        assert(next.drop_last() =~= entries@.take(i as int));
        assert(next.last() == entries@[i as int]);
        let entry = &entries[i];
        if is_rust_file(entry) && !holds(&rust_files, entry.path.as_str()) {
            let path = entry.path.clone();
            proof {
                lemma_texts_push(rust_files@, path);
            }
            rust_files.push(path);
        }
        i = i + 1;
    }
    assert(entries@.take(entries@.len() as int) =~= entries@);
    proof {
        lemma_collected(entries@);
    }
    rust_files
}

} // verus!
