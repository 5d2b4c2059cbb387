//! Static analysis of a Rust project's sources and manifest: every check
//! reports its results as [`diagnostics::Finding`] values, and the pipeline
//! merges them, applies the configuration and decides the exit status.
//!
//! The checks work on a [`ProjectSnapshot`]: what was read from the
//! project's directory, from the registry and from the audit tool.

use crate::code_checks::{
    check_code_patterns, check_missing_denied_lints, check_project_structure, denies,
    free_of_matches, lemma_free_of_matches, lemma_lint_findings_are_notes, lint_findings,
    missing_denial, pattern_findings, structure_findings, LintTarget, PathParts, ProjectLayout,
    SourceFile, RECOMMENDED_DENIAL,
};
use crate::config::Config;
use crate::dependency_analysis::{
    audit_findings, check_outdated_dependencies, check_vulnerability, fetch_failure,
    law_unreachable_registry, outdated_findings, AuditOutcome, AuditOutput, LookupOutcome,
    API_FETCH_FAILED,
};
use crate::diagnostics::{
    count_code, extend, lemma_views_push, only_if, views, Finding, FindingView,
};
use crate::manifest::{
    check_dependency_versions, check_missing_metadata, check_rust_edition, edition_findings,
    exemplary, law_complete_manifest_is_clean, metadata_findings, section_wildcards,
    table_wildcards, validator_findings, wildcard_finding, wildcard_findings, CargoManifest,
    Dependency,
};
use crate::patterns::PatternRules;
use crate::report::{exit_code, exit_status, OutputFormat};
use crate::diagnostics::Severity;
use crate::text::{text_eq, texts};
use vstd::prelude::*;

pub mod code_checks;
pub mod config;
pub mod crates_io_api;
pub mod dependency_analysis;
pub mod diagnostics;
pub mod manifest;
pub mod patterns;
pub mod report;
pub mod text;

verus! {

/// Why a run gave no findings, or, for callers that treat findings as a
/// failure, the findings themselves.
#[derive(Debug)]
pub enum MyError {
    /// The directory holds no manifest.
    NotRustProject,
    /// The project path could not be resolved.
    UnresolvableProjectPath,
    /// The manifest file is there but cannot be read as a manifest; the
    /// text says why.
    UnreadableManifest(String),
    /// The run found errors or warnings.
    HasIssues(Vec<Finding>),
}

/// Everything the checks read: the state of the project's directory, the
/// registry's answers and the run of the audit tool.
#[derive(Debug)]
pub struct ProjectSnapshot {
    /// The project path could be resolved.
    pub path_resolved: bool,
    /// The resolved path is a directory.
    pub is_directory: bool,
    /// The directory holds a manifest file.
    pub has_manifest_file: bool,
    /// The resolved path.
    pub root: PathParts,
    pub config: Config,
    /// The source files that were collected, read or not.
    pub sources: Vec<SourceFile>,
    /// The manifest, or the reason why the file could not be read as one.
    pub manifest: Result<CargoManifest, String>,
    pub layout: ProjectLayout,
    /// The registry's answers, where the dependency graph could be had.
    pub lookups: Option<Vec<LookupOutcome>>,
    pub audit: AuditOutcome,
    /// Where the lock file stands, for the findings of the audit.
    pub lock_path: String,
    /// The crate roots that exist.
    pub lint_targets: Vec<LintTarget>,
}

/// The stages of a run, in their order.
#[derive(Debug, Clone, Copy, PartialEq, Eq, Structural)]
pub enum Stage {
    Init,
    Collecting,
    Checking,
    Merging,
    Filtering,
    Reported,
    Terminal,
}

impl Stage {
    /// The position of the stage in a run.
    pub open spec fn rank(self) -> nat {
        match self {
            Stage::Init => 0,
            Stage::Collecting => 1,
            Stage::Checking => 2,
            Stage::Merging => 3,
            Stage::Filtering => 4,
            Stage::Reported => 5,
            Stage::Terminal => 6,
        }
    }

    /// The stage that follows: a run only moves forward, one stage at a
    /// time, and stays in the last one.
    pub fn next(self) -> (following: Stage)
        ensures
            self != Stage::Terminal ==> following.rank() == self.rank() + 1,
            self == Stage::Terminal ==> following == Stage::Terminal,
    {
        match self {
            Stage::Init => Stage::Collecting,
            Stage::Collecting => Stage::Checking,
            Stage::Checking => Stage::Merging,
            Stage::Merging => Stage::Filtering,
            Stage::Filtering => Stage::Reported,
            Stage::Reported => Stage::Terminal,
            Stage::Terminal => Stage::Terminal,
        }
    }

    /// Whether the run has ended.
    pub fn is_terminal(self) -> (b: bool)
        ensures
            b == (self == Stage::Terminal),
    {
        match self {
            Stage::Terminal => true,
            _ => false,
        }
    }
}

/// A directory with a manifest file is a Rust project.
pub fn is_rust_project(is_directory: bool, has_manifest_file: bool) -> (b: bool)
    ensures
        b == (is_directory && has_manifest_file),
{
    if !is_directory {
        return false;
    }
    has_manifest_file
}

/// The codes of the findings on what exists in the project's directory.
/// The configuration cannot switch these off.
pub open spec fn structural_code(code: Seq<char>) -> bool {
    code == "STRUCT001"@ || code == "STRUCT002"@ || code == "STRUCT003"@
}

/// A finding stays unless the configuration disables its code; a structural finding always stays.
pub open spec fn kept(finding: FindingView, config: Config) -> bool {
    structural_code(finding.code) || config.enabled(finding.code)
}

/// The findings that stay, in their order.
pub open spec fn filtered(findings: Seq<FindingView>, config: Config) -> Seq<FindingView>
    decreases findings.len(),
{
    if findings.len() == 0 {
        seq![]
    } else {
        filtered(findings.drop_last(), config) + only_if(
            kept(findings.last(), config),
            findings.last(),
        )
    }
}

fn is_structural(code: &str) -> (b: bool)
    ensures
        b == structural_code(code@),
{
    text_eq(code, "STRUCT001") || text_eq(code, "STRUCT002") || text_eq(code, "STRUCT003")
}

/// Removes the findings whose code the configuration disables.
pub fn filter_findings(findings: &Vec<Finding>, config: &Config) -> (remaining: Vec<Finding>)
    ensures
        views(remaining@) == filtered(views(findings@), *config),
{
    let mut remaining: Vec<Finding> = Vec::new();
    let ghost all = views(findings@);
    let mut i: usize = 0;
    assert(all.take(0) =~= seq![]);
    assert(views(remaining@) =~= filtered(all.take(0), *config));
    while i < findings.len()
        invariant
            i <= findings.len(),
            all == views(findings@),
            views(remaining@) == filtered(all.take(i as int), *config),
        decreases findings.len() - i,
    {
        let ghost next = all.take(i as int + 1);
        assert(next.drop_last() =~= all.take(i as int));
        assert(next.last() == findings@[i as int]@);
        let finding = &findings[i];
        if is_structural(finding.code.as_str()) || config.is_check_enabled(finding.code.as_str()) {
            let copy = finding.clone();
            proof {
                lemma_views_push(remaining@, copy);
            }
            remaining.push(copy);
        }
        assert(views(remaining@) =~= filtered(next, *config));
        i = i + 1;
    }
    assert(all.take(all.len() as int) =~= all);
    remaining
}

/// The findings on the layout of a project whose manifest was read.
pub open spec fn structure_part(snapshot: ProjectSnapshot) -> Seq<FindingView> {
    match snapshot.manifest {
        Ok(manifest) => structure_findings(snapshot.layout, Some(manifest)),
        Err(_) => seq![],
    }
}

/// The findings on the manifest that was read.
pub open spec fn manifest_part(snapshot: ProjectSnapshot) -> Seq<FindingView> {
    match snapshot.manifest {
        Ok(manifest) => validator_findings(manifest, snapshot.config),
        Err(_) => seq![],
    }
}

/// The findings on the dependencies: outdated ones, where the dependency
/// graph could be had, then those of the audit.
pub open spec fn dependency_part(snapshot: ProjectSnapshot) -> Seq<FindingView> {
    (match snapshot.lookups {
        Some(outcomes) => outdated_findings(outcomes@),
        None => seq![],
    }) + audit_findings(snapshot.audit, snapshot.lock_path@)
}

/// The findings of all checks in one list: source patterns, layout,
/// manifest, dependencies, lints.
pub open spec fn merged_findings(snapshot: ProjectSnapshot, rules: PatternRules) -> Seq<
    FindingView,
> {
    pattern_findings(rules, snapshot.sources@, texts(snapshot.root@)) + structure_part(snapshot)
        + manifest_part(snapshot) + dependency_part(snapshot) + lint_findings(
        rules,
        snapshot.lint_targets@,
        snapshot.config,
    )
}

/// What a run reports: the merged findings without those that the configuration disables.
pub open spec fn pipeline_findings(snapshot: ProjectSnapshot, rules: PatternRules) -> Seq<
    FindingView,
> {
    filtered(merged_findings(snapshot, rules), snapshot.config)
}

/// The path was resolved, it is a directory with a manifest file, and the
/// file was read as a manifest.
pub open spec fn analyzable(snapshot: ProjectSnapshot) -> bool {
    snapshot.path_resolved && snapshot.is_directory && snapshot.has_manifest_file
        && snapshot.manifest is Ok
}

/// The path was resolved to a directory with a manifest file, but the file
/// cannot be read as a manifest.
pub open spec fn manifest_unreadable(snapshot: ProjectSnapshot) -> bool {
    snapshot.path_resolved && snapshot.is_directory && snapshot.has_manifest_file
        && snapshot.manifest is Err
}

/// Runs every check on a snapshot whose manifest was read, and merges what they find.
fn run_checks(snapshot: &ProjectSnapshot, manifest: &CargoManifest, rules: &PatternRules) -> (findings:
    Vec<Finding>)
    requires
        snapshot.manifest == Ok::<CargoManifest, String>(*manifest),
    ensures
        views(findings@) == merged_findings(*snapshot, *rules),
{
    let mut findings = check_code_patterns(rules, &snapshot.sources, &snapshot.root);
    let ghost first = views(findings@);
    extend(&mut findings, check_project_structure(&snapshot.layout, Some(manifest)));
    let ghost second = views(findings@);
    extend(&mut findings, check_missing_metadata(manifest, &snapshot.config));
    extend(&mut findings, check_dependency_versions(manifest, &snapshot.config));
    extend(&mut findings, check_rust_edition(manifest));
    assert(views(findings@) =~= second + manifest_part(*snapshot));
    let ghost third = views(findings@);
    match &snapshot.lookups {
        Some(outcomes) => {
            extend(&mut findings, check_outdated_dependencies(outcomes));
        },
        None => {},
    }
    extend(&mut findings, check_vulnerability(&snapshot.audit, snapshot.lock_path.as_str()));
    assert(views(findings@) =~= third + dependency_part(*snapshot));
    extend(
        &mut findings,
        check_missing_denied_lints(rules, &snapshot.lint_targets, &snapshot.config),
    );
    findings
}

/// The error that ends a run before any finding is reported, if there is one.
///
/// - A path that could not be resolved.
/// - A path that is no directory, or a directory without a manifest file.
/// - A manifest file that cannot be read as a manifest.
pub open spec fn refused(outcome: Result<Seq<FindingView>, MyError>, snapshot: ProjectSnapshot) -> bool {
    if !snapshot.path_resolved {
        outcome matches Err(MyError::UnresolvableProjectPath)
    } else if !(snapshot.is_directory && snapshot.has_manifest_file) {
        outcome matches Err(MyError::NotRustProject)
    } else if snapshot.manifest is Err {
        outcome matches Err(MyError::UnreadableManifest(reason)) && reason@
            == snapshot.manifest->Err_0@
    } else {
        outcome is Ok
    }
}

/// What a run comes to, with the findings as values.
pub open spec fn outcome_view(outcome: Result<Vec<Finding>, MyError>) -> Result<
    Seq<FindingView>,
    MyError,
> {
    match outcome {
        Ok(findings) => Ok(views(findings@)),
        Err(e) => Err(e),
    }
}

/// Analyzes a project and hands back what was found.
///
/// A path that could not be resolved, a directory without a manifest file
/// and a manifest file that cannot be read as a manifest each end the run
/// in an error, without any finding. Otherwise the run succeeds, whatever
/// the single checks met with.
pub fn analyze_project_for_test(snapshot: &ProjectSnapshot, rules: &PatternRules) -> (outcome:
    Result<Vec<Finding>, MyError>)
    ensures
        refused(outcome_view(outcome), *snapshot),
        outcome is Ok <==> analyzable(*snapshot),
        outcome matches Ok(findings) ==> views(findings@) == pipeline_findings(*snapshot, *rules),
{
    if !snapshot.path_resolved {
        return Err(MyError::UnresolvableProjectPath);
    }
    if !is_rust_project(snapshot.is_directory, snapshot.has_manifest_file) {
        return Err(MyError::NotRustProject);
    }
    match &snapshot.manifest {
        Ok(manifest) => {
            let merged = run_checks(snapshot, manifest, rules);
            Ok(filter_findings(&merged, &snapshot.config))
        },
        Err(reason) => Err(MyError::UnreadableManifest(reason.clone())),
    }
}

/// What a run hands to the one who prints it.
#[derive(Debug)]
pub struct AnalysisReport {
    pub findings: Vec<Finding>,
    pub format: OutputFormat,
    /// 1 where some finding is an error or a warning, else 0.
    pub exit_code: i32,
}

/// What a run comes to, with the report's findings as values.
pub open spec fn report_view(outcome: Result<AnalysisReport, MyError>) -> Result<
    Seq<FindingView>,
    MyError,
> {
    match outcome {
        Ok(report) => Ok(views(report.findings@)),
        Err(e) => Err(e),
    }
}

/// Analyzes a project: the findings, the form to print them in and the
/// exit status. The run ends in an error, without any finding, on the same
/// snapshots as [`analyze_project_for_test`].
pub fn analyze_project(snapshot: &ProjectSnapshot, rules: &PatternRules, output_format: &str) -> (
    outcome: Result<AnalysisReport, MyError>)
    ensures
        refused(report_view(outcome), *snapshot),
        outcome is Ok <==> analyzable(*snapshot),
        outcome matches Ok(report) ==> {
            &&& views(report.findings@) == pipeline_findings(*snapshot, *rules)
            &&& report.exit_code == exit_status(pipeline_findings(*snapshot, *rules))
            &&& report.format == (if output_format@ == "json"@ {
                OutputFormat::Json
            } else {
                OutputFormat::Human
            })
        },
{
    match analyze_project_for_test(snapshot, rules) {
        Ok(findings) => {
            let code = exit_code(&findings);
            Ok(
                AnalysisReport {
                    findings,
                    format: OutputFormat::from_name(output_format),
                    exit_code: code,
                },
            )
        },
        Err(e) => Err(e),
    }
}

/// The findings without those that carry the code, in their order.
pub open spec fn without_code(findings: Seq<FindingView>, code: Seq<char>) -> Seq<FindingView>
    decreases findings.len(),
{
    if findings.len() == 0 {
        seq![]
    } else {
        without_code(findings.drop_last(), code) + only_if(
            findings.last().code != code,
            findings.last(),
        )
    }
}

/// The codes of the findings, as a multiset.
pub open spec fn code_multiset(findings: Seq<FindingView>) -> vstd::multiset::Multiset<Seq<char>> {
    findings.map_values(|f: FindingView| f.code).to_multiset()
}

proof fn lemma_without_code_push(findings: Seq<FindingView>, f: FindingView, code: Seq<char>)
    ensures
        without_code(findings.push(f), code) == without_code(findings, code) + only_if(
            f.code != code,
            f,
        ),
        without_code(findings + only_if(true, f), code) == without_code(findings, code) + only_if(
            f.code != code,
            f,
        ),
        without_code(findings + only_if(false, f), code) == without_code(findings, code),
{
    assert(findings.push(f).drop_last() =~= findings);
    assert(findings + only_if(true, f) =~= findings.push(f));
    assert(findings + only_if(false, f) =~= findings);
}

/// Disabling the code of a check in the configuration removes every
/// finding with that code from what stays of a list of findings, and
/// changes nothing else. This holds of every code but the structural ones,
/// whose findings stay whatever the configuration says.
pub proof fn law_disabling_removes_code(
    findings: Seq<FindingView>,
    before: Config,
    after: Config,
    code: Seq<char>,
)
    requires
        !structural_code(code),
        !after.enabled(code),
        forall|other: Seq<char>| other != code ==> after.enabled(other) == before.enabled(other),
    ensures
        filtered(findings, after) == without_code(filtered(findings, before), code),
        count_code(filtered(findings, after), code) == 0,
    decreases findings.len(),
{
    if findings.len() > 0 {
        let front = findings.drop_last();
        let last = findings.last();
        law_disabling_removes_code(front, before, after, code);
        lemma_without_code_push(filtered(front, before), last, code);
        crate::diagnostics::lemma_count_concat(
            filtered(front, after),
            only_if(kept(last, after), last),
            code,
        );
        crate::diagnostics::lemma_count_one(last, code);
        if last.code == code {
            assert(!kept(last, after));
            assert(filtered(findings, after) =~= filtered(front, after));
        } else {
            assert(kept(last, after) == kept(last, before));
            assert(filtered(findings, after) =~= without_code(filtered(findings, before), code));
        }
    }
}

/// Two runs on the same snapshot report the same findings, and so the
/// same codes, each as often in one as in the other.
pub proof fn law_runs_agree(
    snapshot: ProjectSnapshot,
    rules: PatternRules,
    first: Seq<Finding>,
    second: Seq<Finding>,
)
    requires
        views(first) == pipeline_findings(snapshot, rules),
        views(second) == pipeline_findings(snapshot, rules),
    ensures
        views(first) == views(second),
        code_multiset(views(first)) == code_multiset(views(second)),
{
}

/// The configuration `after` disables `code` and agrees with `before` on every other code.
pub open spec fn disables(before: Config, after: Config, code: Seq<char>) -> bool {
    &&& !after.enabled(code)
    &&& forall|other: Seq<char>| other != code ==> after.enabled(other) == before.enabled(other)
}

proof fn lemma_filtered_concat(a: Seq<FindingView>, b: Seq<FindingView>, config: Config)
    ensures
        filtered(a + b, config) == filtered(a, config) + filtered(b, config),
    decreases b.len(),
{
    if b.len() == 0 {
        assert(a + b =~= a);
        assert(filtered(a, config) + filtered(b, config) =~= filtered(a, config));
    } else {
        assert((a + b).drop_last() =~= a + b.drop_last());
        assert((a + b).last() == b.last());
        lemma_filtered_concat(a, b.drop_last(), config);
        assert(filtered(a + b, config) =~= filtered(a, config) + filtered(b, config));
    }
}

proof fn lemma_filtered_one(f: FindingView, config: Config)
    ensures
        filtered(seq![f], config) == only_if(kept(f, config), f),
        filtered(Seq::<FindingView>::empty(), config) == Seq::<FindingView>::empty(),
{
    assert(seq![f].drop_last() =~= Seq::<FindingView>::empty());
    assert(seq![f].last() == f);
    assert(filtered(seq![f].drop_last(), config) == Seq::<FindingView>::empty());
    assert(filtered(seq![f], config) =~= only_if(kept(f, config), f));
}

/// A finding that its own code gates stays or goes under `after`
/// whichever of the two configurations gated it.
proof fn lemma_gated(condition: bool, f: FindingView, before: Config, after: Config, code: Seq<char>)
    requires
        !structural_code(code),
        disables(before, after, code),
    ensures
        filtered(only_if(after.enabled(f.code) && condition, f), after) == filtered(
            only_if(before.enabled(f.code) && condition, f),
            after,
        ),
{
    lemma_filtered_one(f, after);
}

proof fn lemma_wildcards_share_a_code(
    pairs: Seq<(Seq<char>, Dependency)>,
    role: Seq<char>,
    config: Config,
)
    requires
        !kept(wildcard_finding(role, Seq::<char>::empty()), config),
    ensures
        filtered(table_wildcards(pairs, role), config) == Seq::<FindingView>::empty(),
    decreases pairs.len(),
{
    lemma_filtered_one(wildcard_finding(role, Seq::<char>::empty()), config);
    if pairs.len() > 0 {
        lemma_wildcards_share_a_code(pairs.drop_last(), role, config);
        let f = wildcard_finding(role, pairs.last().0);
        lemma_filtered_one(f, config);
        lemma_filtered_concat(
            table_wildcards(pairs.drop_last(), role),
            only_if(pairs.last().1.is_wildcard(), f),
            config,
        );
    }
}

proof fn lemma_wildcards_gated(manifest: CargoManifest, before: Config, after: Config, code: Seq<char>)
    requires
        !structural_code(code),
        disables(before, after, code),
    ensures
        filtered(wildcard_findings(manifest, after), after) == filtered(
            wildcard_findings(manifest, before),
            after,
        ),
{
    lemma_filtered_one(wildcard_finding("runtime"@, Seq::<char>::empty()), after);
    if code == "DP001"@ && before.enabled("DP001"@) {
        let a = section_wildcards(manifest.dependencies, "runtime"@);
        let b = section_wildcards(manifest.dev_dependencies, "dev"@);
        let c = section_wildcards(manifest.build_dependencies, "build"@);
        if manifest.dependencies is Some {
            lemma_wildcards_share_a_code(manifest.dependencies->0.pairs(), "runtime"@, after);
        }
        if manifest.dev_dependencies is Some {
            lemma_wildcards_share_a_code(manifest.dev_dependencies->0.pairs(), "dev"@, after);
        }
        if manifest.build_dependencies is Some {
            lemma_wildcards_share_a_code(manifest.build_dependencies->0.pairs(), "build"@, after);
        }
        lemma_filtered_concat(a + b, c, after);
        lemma_filtered_concat(a, b, after);
    }
}

proof fn lemma_metadata_gated(manifest: CargoManifest, before: Config, after: Config, code: Seq<char>)
    requires
        !structural_code(code),
        disables(before, after, code),
    ensures
        filtered(metadata_findings(manifest, after), after) == filtered(
            metadata_findings(manifest, before),
            after,
        ),
{
    match manifest.package {
        Some(package) => {
            let a1 = only_if(
                after.enabled("MD001"@) && crate::manifest::blank(package.description),
                crate::manifest::missing_description(),
            );
            let a0 = only_if(
                before.enabled("MD001"@) && crate::manifest::blank(package.description),
                crate::manifest::missing_description(),
            );
            let b1 = only_if(
                after.enabled("MD002"@) && crate::manifest::blank(package.license),
                crate::manifest::missing_license(),
            );
            let b0 = only_if(
                before.enabled("MD002"@) && crate::manifest::blank(package.license),
                crate::manifest::missing_license(),
            );
            let c1 = only_if(
                after.enabled("MD003"@) && crate::manifest::blank(package.repository),
                crate::manifest::missing_repository(),
            );
            let c0 = only_if(
                before.enabled("MD003"@) && crate::manifest::blank(package.repository),
                crate::manifest::missing_repository(),
            );
            let readme = crate::manifest::readme_findings(package.readme);
            let r1 = if after.enabled("MD004"@) {
                readme
            } else {
                Seq::<FindingView>::empty()
            };
            let r0 = if before.enabled("MD004"@) {
                readme
            } else {
                Seq::<FindingView>::empty()
            };
            lemma_gated(
                crate::manifest::blank(package.description),
                crate::manifest::missing_description(),
                before,
                after,
                code,
            );
            lemma_gated(
                crate::manifest::blank(package.license),
                crate::manifest::missing_license(),
                before,
                after,
                code,
            );
            lemma_gated(
                crate::manifest::blank(package.repository),
                crate::manifest::missing_repository(),
                before,
                after,
                code,
            );
            assert(filtered(r1, after) == filtered(r0, after)) by {
                lemma_filtered_one(crate::manifest::missing_readme(), after);
                if package.readme is Some {
                    lemma_filtered_one(
                        crate::manifest::malformed_readme(package.readme->0.shown()),
                        after,
                    );
                }
            }
            lemma_filtered_concat(a1 + b1 + c1, r1, after);
            lemma_filtered_concat(a1 + b1, c1, after);
            lemma_filtered_concat(a1, b1, after);
            lemma_filtered_concat(a0 + b0 + c0, r0, after);
            lemma_filtered_concat(a0 + b0, c0, after);
            lemma_filtered_concat(a0, b0, after);
        },
        None => {
            lemma_gated(true, crate::manifest::missing_package(), before, after, code);
        },
    }
}

proof fn lemma_lints_gated(
    rules: PatternRules,
    targets: Seq<LintTarget>,
    before: Config,
    after: Config,
    code: Seq<char>,
)
    requires
        !structural_code(code),
        disables(before, after, code),
    ensures
        filtered(lint_findings(rules, targets, after), after) == filtered(
            lint_findings(rules, targets, before),
            after,
        ),
    decreases targets.len(),
{
    if targets.len() > 0 {
        let last = targets.last();
        let condition = last.content is Some && !denies(
            rules,
            last.content->0@,
            RECOMMENDED_DENIAL@,
        );
        lemma_lints_gated(rules, targets.drop_last(), before, after, code);
        lemma_gated(condition, missing_denial(last), before, after, code);
        lemma_filtered_concat(
            lint_findings(rules, targets.drop_last(), after),
            only_if(after.enabled("LINT001"@) && condition, missing_denial(last)),
            after,
        );
        lemma_filtered_concat(
            lint_findings(rules, targets.drop_last(), before),
            only_if(before.enabled("LINT001"@) && condition, missing_denial(last)),
            after,
        );
    }
}

/// Disabling a check's code in the configuration of a project removes
/// every finding with that code from what a run reports, and changes no
/// other finding. This holds of every code but the structural ones, whose
/// findings stay whatever the configuration says.
pub proof fn law_disabled_check(
    snapshot: ProjectSnapshot,
    changed: ProjectSnapshot,
    rules: PatternRules,
    code: Seq<char>,
)
    requires
        changed == (ProjectSnapshot { config: changed.config, ..snapshot }),
        !structural_code(code),
        disables(snapshot.config, changed.config, code),
    ensures
        pipeline_findings(changed, rules) == without_code(pipeline_findings(snapshot, rules), code),
        count_code(pipeline_findings(changed, rules), code) == 0,
{
    let before = snapshot.config;
    let after = changed.config;
    law_disabling_removes_code(merged_findings(snapshot, rules), before, after, code);
    law_disabling_removes_code(merged_findings(changed, rules), before, after, code);
    let p = pattern_findings(rules, snapshot.sources@, texts(snapshot.root@));
    let s = structure_part(snapshot);
    let d = dependency_part(snapshot);
    let m0 = manifest_part(snapshot);
    let m1 = manifest_part(changed);
    let l0 = lint_findings(rules, snapshot.lint_targets@, before);
    let l1 = lint_findings(rules, snapshot.lint_targets@, after);
    assert(structure_part(changed) == s);
    assert(dependency_part(changed) == d);
    assert(filtered(m1, after) == filtered(m0, after)) by {
        if snapshot.manifest is Ok {
            let manifest = snapshot.manifest->Ok_0;
            lemma_metadata_gated(manifest, before, after, code);
            lemma_wildcards_gated(manifest, before, after, code);
            let e = edition_findings(manifest);
            lemma_filtered_concat(
                metadata_findings(manifest, after) + wildcard_findings(manifest, after),
                e,
                after,
            );
            lemma_filtered_concat(
                metadata_findings(manifest, after),
                wildcard_findings(manifest, after),
                after,
            );
            lemma_filtered_concat(
                metadata_findings(manifest, before) + wildcard_findings(manifest, before),
                e,
                after,
            );
            lemma_filtered_concat(
                metadata_findings(manifest, before),
                wildcard_findings(manifest, before),
                after,
            );
        }
    }
    lemma_lints_gated(rules, snapshot.lint_targets@, before, after, code);
    lemma_filtered_concat(p + s + m1 + d, l1, after);
    lemma_filtered_concat(p + s + m1, d, after);
    lemma_filtered_concat(p + s, m1, after);
    lemma_filtered_concat(p + s + m0 + d, l0, after);
    lemma_filtered_concat(p + s + m0, d, after);
    lemma_filtered_concat(p + s, m0, after);
}

proof fn lemma_all_kept(findings: Seq<FindingView>, config: Config)
    requires
        forall|i: int| 0 <= i < findings.len() ==> kept(#[trigger] findings[i], config),
    ensures
        filtered(findings, config) == findings,
    decreases findings.len(),
{
    if findings.len() > 0 {
        let front = findings.drop_last();
        assert forall|i: int| 0 <= i < front.len() implies kept(#[trigger] front[i], config) by {
            assert(front[i] == findings[i]);
        }
        lemma_all_kept(front, config);
        assert(kept(findings[findings.len() - 1], config));
        assert(filtered(findings, config) =~= findings);
    }
}

proof fn lemma_none_kept(findings: Seq<FindingView>, config: Config)
    requires
        forall|i: int| 0 <= i < findings.len() ==> !kept(#[trigger] findings[i], config),
    ensures
        filtered(findings, config) == Seq::<FindingView>::empty(),
    decreases findings.len(),
{
    if findings.len() > 0 {
        let front = findings.drop_last();
        assert forall|i: int| 0 <= i < front.len() implies !kept(#[trigger] front[i], config) by {
            assert(front[i] == findings[i]);
        }
        lemma_none_kept(front, config);
        assert(!kept(findings[findings.len() - 1], config));
        assert(filtered(findings, config) =~= Seq::<FindingView>::empty());
    }
}

/// Whatever stays of a list of findings stood in the list.
proof fn lemma_filtered_members(findings: Seq<FindingView>, config: Config)
    ensures
        forall|i: int|
            0 <= i < filtered(findings, config).len() ==> findings.contains(
                #[trigger] filtered(findings, config)[i],
            ),
    decreases findings.len(),
{
    if findings.len() > 0 {
        let front = findings.drop_last();
        lemma_filtered_members(front, config);
        let kept_front = filtered(front, config);
        let all = filtered(findings, config);
        assert forall|i: int| 0 <= i < all.len() implies findings.contains(#[trigger] all[i]) by {
            if i < kept_front.len() {
                assert(all[i] == kept_front[i]);
                let j = choose|j: int| 0 <= j < front.len() && front[j] == kept_front[i];
                assert(findings[j] == front[j]);
            } else {
                assert(all[i] == findings[findings.len() - 1]);
            }
        }
    }
}

/// The audit tool ran, ended well and reported no vulnerability.
pub open spec fn quiet_audit(outcome: AuditOutcome) -> bool {
    outcome matches AuditOutcome::Finished { success, stdout_empty, stderr, output } && success
        && (output matches AuditOutput::Report(entries) ==> entries@.len()
        == 0)
}

/// A project in good order: it can be analyzed, every source was read and
/// no line rule fires in it, it has a library root, an entry point or a
/// binaries directory, a readme and a license file, its manifest is
/// exemplary, and the audit tool ended well with nothing to report.
pub open spec fn in_good_order(snapshot: ProjectSnapshot, rules: PatternRules) -> bool {
    &&& analyzable(snapshot)
    &&& free_of_matches(rules, snapshot.sources@, texts(snapshot.root@))
    &&& exemplary(snapshot.manifest->Ok_0)
    &&& (snapshot.layout.has_lib_rs || snapshot.layout.has_main_rs || snapshot.layout.has_bin_dir)
    &&& snapshot.layout.has_readme
    &&& snapshot.layout.has_license_file
    &&& quiet_audit(snapshot.audit)
}

/// No request to the registry was answered.
pub open spec fn registry_unreachable(snapshot: ProjectSnapshot) -> bool {
    snapshot.lookups matches Some(outcomes) ==> forall|i: int|
        0 <= i < outcomes@.len() ==> (#[trigger] outcomes@[i]).latest is Err
}

/// The warnings on the requests that the registry did not answer: one
/// for each dependency that was asked about, in the order of the
/// questions; none where the dependency graph could not be had.
pub open spec fn fetch_failures(snapshot: ProjectSnapshot) -> Seq<FindingView> {
    match snapshot.lookups {
        Some(outcomes) => outdated_findings(outcomes@),
        None => seq![],
    }
}

/// For a project in good order whose registry cannot be reached, a run
/// reports the warnings on the failed requests, unless the configuration
/// disables their code, and after them what the lint check notes; nothing
/// else. So every finding that is an error or a warning is the warning
/// on one failed request and names its dependency, at most one for each
/// dependency that was asked about; there is no error and no finding on
/// an outdated dependency.
pub proof fn law_unreachable_registry_only_warns(snapshot: ProjectSnapshot, rules: PatternRules)
    requires
        in_good_order(snapshot, rules),
        registry_unreachable(snapshot),
    ensures
        pipeline_findings(snapshot, rules) == (if snapshot.config.enabled(API_FETCH_FAILED@) {
            fetch_failures(snapshot)
        } else {
            Seq::<FindingView>::empty()
        }) + filtered(
            lint_findings(rules, snapshot.lint_targets@, snapshot.config),
            snapshot.config,
        ),
        forall|i: int|
            0 <= i < pipeline_findings(snapshot, rules).len() && (#[trigger] pipeline_findings(
                snapshot,
                rules,
            )[i]).severity.blocking() ==> {
                &&& snapshot.lookups is Some
                &&& i < snapshot.lookups->0@.len()
                &&& pipeline_findings(snapshot, rules)[i] == fetch_failure(
                    snapshot.lookups->0@[i].name@,
                    snapshot.lookups->0@[i].latest->Err_0@,
                )
            },
        forall|i: int|
            0 <= i < pipeline_findings(snapshot, rules).len() ==> (#[trigger] pipeline_findings(
                snapshot,
                rules,
            )[i]).severity != Severity::Error && pipeline_findings(snapshot, rules)[i].code
                != "DP002"@,
{
    crate::dependency_analysis::lemma_fetch_code_length();
    reveal_strlit("DP002");
    reveal_strlit("LINT001");
    reveal_strlit("STRUCT001");
    reveal_strlit("STRUCT002");
    reveal_strlit("STRUCT003");
    let config = snapshot.config;
    let failures = fetch_failures(snapshot);
    let lints = lint_findings(rules, snapshot.lint_targets@, config);
    let reported = if config.enabled(API_FETCH_FAILED@) {
        failures
    } else {
        Seq::<FindingView>::empty()
    };
    if snapshot.lookups is Some {
        law_unreachable_registry(snapshot.lookups->0@);
    }
    lemma_free_of_matches(rules, snapshot.sources@, texts(snapshot.root@));
    law_complete_manifest_is_clean(snapshot.manifest->Ok_0, config);
    assert(merged_findings(snapshot, rules) =~= failures + lints);
    lemma_filtered_concat(failures, lints, config);
    assert forall|i: int| 0 <= i < failures.len() implies (#[trigger] failures[i]) == fetch_failure(
        snapshot.lookups->0@[i].name@,
        snapshot.lookups->0@[i].latest->Err_0@,
    ) && snapshot.lookups is Some && i < snapshot.lookups->0@.len() by {
        assert(failures[i] == outdated_findings(snapshot.lookups->0@)[i]);
    }
    assert("STRUCT001"@.len() == 9 && "STRUCT002"@.len() == 9 && "STRUCT003"@.len() == 9);
    assert("DP002"@.len() == 5 && "LINT001"@.len() == 7);
    assert(!structural_code(API_FETCH_FAILED@));
    if config.enabled(API_FETCH_FAILED@) {
        assert forall|i: int| 0 <= i < failures.len() implies kept(#[trigger] failures[i], config) by {}
        lemma_all_kept(failures, config);
    } else {
        assert forall|i: int| 0 <= i < failures.len() implies !kept(
            #[trigger] failures[i],
            config,
        ) by {}
        lemma_none_kept(failures, config);
    }
    let remaining = filtered(lints, config);
    let all = pipeline_findings(snapshot, rules);
    assert(all == reported + remaining);
    lemma_filtered_members(lints, config);
    lemma_lint_findings_are_notes(rules, snapshot.lint_targets@, config);
    assert forall|i: int| reported.len() <= i < all.len() implies (#[trigger] all[i]).severity
        == Severity::Note && all[i].code == "LINT001"@ by {
        let found = remaining[i - reported.len()];
        assert(all[i] == found);
        assert(lints.contains(found));
        let j = choose|j: int| 0 <= j < lints.len() && lints[j] == found;
        assert(lints[j].severity == Severity::Note && lints[j].code == "LINT001"@);
    }
    assert forall|i: int| 0 <= i < reported.len() implies (#[trigger] all[i]) == failures[i] by {}
    assert forall|i: int| 0 <= i < all.len() implies (#[trigger] all[i]).severity
        != Severity::Error && all[i].code != "DP002"@ by {
        if i < reported.len() {
            assert(all[i] == failures[i]);
        }
    }
}

} // verus!
