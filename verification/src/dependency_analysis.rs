//! Checks on the resolved dependencies: whether the registry has a newer
//! version, and what the audit tool reports.

use crate::diagnostics::{
    lemma_views_push, only_if, plain, view_opt_string, views, Finding, FindingView, Severity,
};
use crate::text::{
    debug_text, head_chars, join, joined, lines_of, quoted, split_lines, text_eq, texts,
};
use vstd::prelude::*;
use vstd::string::*;

verus! {

/// Code of the finding on a registry that gave no answer.
pub const API_FETCH_FAILED: &'static str = "API001";

/// How many characters of a diagnostic a finding quotes at most.
pub const EXCERPT_LIMIT: usize = 200;

/// Whether `semver::Version::parse` accepts the text.
pub uninterp spec fn semver_parses(text: Seq<char>) -> bool;

/// Whether the version parsed from `current` is less than the one parsed
/// from `latest`, in the order of `semver::Version`.
pub uninterp spec fn semver_precedes(current: Seq<char>, latest: Seq<char>) -> bool;

/// What `Display` writes for the version parsed from the text.
pub uninterp spec fn semver_display(text: Seq<char>) -> Seq<char>;

/// `semver::Version::parse` on both texts and `<` on the two versions:
/// `None` where one of the texts is no version. The order is strict: a
/// version does not precede itself.
#[verifier::external_body]
fn version_precedes(current: &str, latest: &str) -> (older: Option<bool>)
    ensures
        older == (if semver_parses(current@) && semver_parses(latest@) {
            Some(semver_precedes(current@, latest@))
        } else {
            None
        }),
        current@ == latest@ ==> older != Some(true),
{
    match (
        cargo_metadata::semver::Version::parse(current),
        cargo_metadata::semver::Version::parse(latest),
    ) {
        (Ok(current), Ok(latest)) => Some(current < latest),
        _ => None,
    }
}

/// `semver::Version::parse` and `Display` for the version: `None` where the
/// text is no version.
#[verifier::external_body]
fn version_shown(text: &str) -> (shown: Option<String>)
    ensures
        view_opt_string(shown) == (if semver_parses(text@) {
            Some(semver_display(text@))
        } else {
            None
        }),
{
    match cargo_metadata::semver::Version::parse(text) {
        Ok(version) => Some(version.to_string()),
        Err(_) => None,
    }
}

/// A dependency as a member's manifest declares it, under the name of the
/// package that it asks for.
#[derive(Debug, Clone)]
pub struct DeclaredDependency {
    pub name: String,
    /// The dependency comes from the public registry.
    pub from_registry: bool,
}

/// A dependency as the resolver settled it for a member: the name of the
/// package that was chosen, as its own manifest writes it, and its version.
#[derive(Debug, Clone)]
pub struct ResolvedLink {
    pub name: String,
    pub version: String,
}

/// A member of the workspace.
#[derive(Debug, Clone)]
pub struct MemberPackage {
    pub dependencies: Vec<DeclaredDependency>,
    /// The member's dependencies in the resolve graph, where it has a node there.
    pub resolved: Option<Vec<ResolvedLink>>,
}

/// A question to the registry: the newest version of `name`, of which the
/// project uses `current_version`.
#[derive(Debug, Clone)]
pub struct PlannedLookup {
    pub name: String,
    pub current_version: String,
}

/// A question with the registry's answer: the newest version, or why none came.
#[derive(Debug)]
pub struct LookupOutcome {
    pub name: String,
    pub current_version: String,
    pub latest: Result<String, String>,
}

/// The version of the first link with the name.
pub open spec fn resolved_version(links: Seq<ResolvedLink>, name: Seq<char>) -> Option<Seq<char>>
    decreases links.len(),
{
    if links.len() == 0 {
        None
    } else if links[0].name@ == name {
        Some(links[0].version@)
    } else {
        resolved_version(links.drop_first(), name)
    }
}

/// The question that one declared dependency leads to: one for a
/// dependency from the registry that the resolver settled, none otherwise.
pub open spec fn lookup_for(
    dependency: DeclaredDependency,
    resolved: Option<Vec<ResolvedLink>>,
) -> Seq<(Seq<char>, Seq<char>)> {
    if dependency.from_registry && resolved is Some && resolved_version(
        resolved->0@,
        dependency.name@,
    ) is Some {
        seq![(dependency.name@, resolved_version(resolved->0@, dependency.name@)->0)]
    } else {
        seq![]
    }
}

/// The questions for a member's dependencies, in the order of their declaration.
pub open spec fn member_lookups(
    dependencies: Seq<DeclaredDependency>,
    resolved: Option<Vec<ResolvedLink>>,
) -> Seq<(Seq<char>, Seq<char>)>
    decreases dependencies.len(),
{
    if dependencies.len() == 0 {
        seq![]
    } else {
        member_lookups(dependencies.drop_last(), resolved) + lookup_for(
            dependencies.last(),
            resolved,
        )
    }
}

/// The questions for all members, member by member.
pub open spec fn planned_lookups(members: Seq<MemberPackage>) -> Seq<(Seq<char>, Seq<char>)>
    decreases members.len(),
{
    if members.len() == 0 {
        seq![]
    } else {
        planned_lookups(members.drop_last()) + member_lookups(
            members.last().dependencies@,
            members.last().resolved,
        )
    }
}

/// Name and version of each planned lookup.
pub open spec fn lookup_views(lookups: Seq<PlannedLookup>) -> Seq<(Seq<char>, Seq<char>)> {
    lookups.map_values(|l: PlannedLookup| (l.name@, l.current_version@))
}

fn find_resolved<'a>(links: &'a Vec<ResolvedLink>, name: &str) -> (found: Option<&'a str>)
    ensures
        match found {
            Some(version) => resolved_version(links@, name@) == Some(version@),
            None => resolved_version(links@, name@) is None,
        },
{
    let mut i: usize = 0;
    assert(links@.skip(0) =~= links@);
    while i < links.len()
        invariant
            i <= links.len(),
            resolved_version(links@, name@) == resolved_version(links@.skip(i as int), name@),
        decreases links.len() - i,
    {
        assert(links@.skip(i as int)[0] == links@[i as int]);
        assert(links@.skip(i as int).drop_first() =~= links@.skip(i as int + 1));
        if text_eq(links[i].name.as_str(), name) {
            return Some(links[i].version.as_str());
        }
        i = i + 1;
    }
    None
}

/// Lists the questions to put to the registry: one for each dependency
/// that a member declares from the registry and that the resolver settled.
pub fn registry_lookups(members: &Vec<MemberPackage>) -> (lookups: Vec<PlannedLookup>)
    ensures
        lookup_views(lookups@) == planned_lookups(members@),
{
    let mut lookups: Vec<PlannedLookup> = Vec::new();
    let mut m: usize = 0;
    assert(members@.take(0) =~= seq![]);
    assert(lookup_views(lookups@) =~= planned_lookups(members@.take(0)));
    while m < members.len()
        invariant
            m <= members.len(),
            lookup_views(lookups@) == planned_lookups(members@.take(m as int)),
        decreases members.len() - m,
    {
        let ghost next_members = members@.take(m as int + 1);
        assert(next_members.drop_last() =~= members@.take(m as int));
        assert(next_members.last() == members@[m as int]);
        let member = &members[m];
        let ghost before = lookup_views(lookups@);
        let mut d: usize = 0;
        assert(member.dependencies@.take(0) =~= seq![]);
        assert(lookup_views(lookups@) =~= before + member_lookups(
            member.dependencies@.take(0),
            member.resolved,
        ));
        while d < member.dependencies.len()
            invariant
                d <= member.dependencies.len(),
                lookup_views(lookups@) == before + member_lookups(
                    member.dependencies@.take(d as int),
                    member.resolved,
                ),
            decreases member.dependencies.len() - d,
        {
            let ghost next = member.dependencies@.take(d as int + 1);
            assert(next.drop_last() =~= member.dependencies@.take(d as int));
            assert(next.last() == member.dependencies@[d as int]);
            let dependency = &member.dependencies[d];
            if dependency.from_registry {
                match &member.resolved {
                    Some(links) => match find_resolved(links, dependency.name.as_str()) {
                        Some(version) => {
                            let lookup = PlannedLookup {
                                name: dependency.name.clone(),
                                current_version: String::from_str(version),
                            };
                            assert(lookup_views(lookups@.push(lookup)) =~= lookup_views(
                                lookups@,
                            ).push((lookup.name@, lookup.current_version@)));
                            lookups.push(lookup);
                        },
                        None => {},
                    },
                    None => {},
                }
            }
            assert(lookup_views(lookups@) =~= before + member_lookups(next, member.resolved));
            d = d + 1;
        }
        assert(member.dependencies@.take(member.dependencies@.len() as int)
            =~= member.dependencies@);
        m = m + 1;
    }
    assert(members@.take(members@.len() as int) =~= members@);
    lookups
}

/// The finding on a dependency of which the registry has a newer version.
pub open spec fn outdated(name: Seq<char>, current: Seq<char>, latest: Seq<char>) -> FindingView {
    plain(
        "DP002"@,
        "Direct dependency '"@ + name + "' is outdated. Current: "@ + current + ", Latest: "@
            + latest,
        Severity::Note,
        Some("Cargo.toml"@),
    )
}

/// The finding on a dependency for which the registry gave no answer.
pub open spec fn fetch_failure(name: Seq<char>, reason: Seq<char>) -> FindingView {
    plain(
        API_FETCH_FAILED@,
        "Failed to fetch latest version for dependency '"@ + name + "': "@ + reason,
        Severity::Warning,
        None,
    )
}

/// What a comparison of two versions leads to: a finding where the one in
/// use is older, nothing where it is not, and nothing where one of the two
/// is no version.
pub open spec fn verdict(
    name: Seq<char>,
    older: Option<bool>,
    current_shown: Seq<char>,
    latest_shown: Seq<char>,
) -> Seq<FindingView> {
    only_if(older == Some(true), outdated(name, current_shown, latest_shown))
}

/// The finding on one answered question.
pub open spec fn outcome_findings(outcome: LookupOutcome) -> Seq<FindingView> {
    match outcome.latest {
        Ok(latest) => verdict(
            outcome.name@,
            if semver_parses(outcome.current_version@) && semver_parses(latest@) {
                Some(semver_precedes(outcome.current_version@, latest@))
            } else {
                None
            },
            semver_display(outcome.current_version@),
            semver_display(latest@),
        ),
        Err(reason) => seq![fetch_failure(outcome.name@, reason@)],
    }
}

/// The findings on the answered questions, in their order.
pub open spec fn outdated_findings(outcomes: Seq<LookupOutcome>) -> Seq<FindingView>
    decreases outcomes.len(),
{
    if outcomes.len() == 0 {
        seq![]
    } else {
        outdated_findings(outcomes.drop_last()) + outcome_findings(outcomes.last())
    }
}

/// Decides on one dependency from the comparison of its two versions.
pub fn judge_versions(name: &str, older: Option<bool>, current_shown: &str, latest_shown: &str) -> (
    findings: Vec<Finding>)
    ensures
        views(findings@) == verdict(name@, older, current_shown@, latest_shown@),
{
    let mut findings: Vec<Finding> = Vec::new();
    assert(views(findings@) =~= seq![]);
    match older {
        Some(true) => {
            let mut message = String::from_str("Direct dependency '");
            message.append(name);
            message.append("' is outdated. Current: ");
            message.append(current_shown);
            message.append(", Latest: ");
            message.append(latest_shown);
            let f = Finding::new(
                "DP002",
                message,
                Severity::Note,
                Some(String::from_str("Cargo.toml")),
            );
            proof {
                lemma_views_push(findings@, f);
                assert(views(findings@.push(f)) =~= seq![
                    outdated(name@, current_shown@, latest_shown@),
                ]);
            }
            findings.push(f);
        },
        _ => {},
    }
    findings
}

/// Decides on one answered question. A dependency whose version in use
/// is the registry's newest is never reported as outdated.
pub fn check_dependency(outcome: &LookupOutcome) -> (findings: Vec<Finding>)
    ensures
        views(findings@) == outcome_findings(*outcome),
        (outcome.latest matches Ok(latest) && latest@ == outcome.current_version@)
            ==> findings@.len() == 0,
{
    match &outcome.latest {
        Ok(latest) => {
            let older = version_precedes(outcome.current_version.as_str(), latest.as_str());
            let current_shown = version_shown(outcome.current_version.as_str());
            let latest_shown = version_shown(latest.as_str());
            match (current_shown, latest_shown) {
                (Some(current), Some(newest)) => {
                    let findings = judge_versions(
                        outcome.name.as_str(),
                        older,
                        current.as_str(),
                        newest.as_str(),
                    );
                    assert(views(findings@).len() == findings@.len());
                    findings
                },
                _ => {
                    let findings: Vec<Finding> = Vec::new();
                    assert(views(findings@) =~= seq![]);
                    findings
                },
            }
        },
        Err(reason) => {
            let mut findings: Vec<Finding> = Vec::new();
            let mut message = String::from_str("Failed to fetch latest version for dependency '");
            message.append(outcome.name.as_str());
            message.append("': ");
            message.append(reason.as_str());
            let f = Finding::new(API_FETCH_FAILED, message, Severity::Warning, None);
            proof {
                lemma_views_push(findings@, f);
                assert(views(findings@.push(f)) =~= seq![
                    fetch_failure(outcome.name@, reason@),
                ]);
            }
            findings.push(f);
            findings
        },
    }
}

/// The registry's newest version of the dependency is the one in use.
pub open spec fn up_to_date(outcome: LookupOutcome) -> bool {
    outcome.latest matches Ok(latest) && latest@ == outcome.current_version@
}

/// Compares each dependency's version in use with the registry's newest.
/// A dependency whose version in use is the registry's newest gives no
/// finding; where that holds of all of them, there is no finding at all.
pub fn check_outdated_dependencies(outcomes: &Vec<LookupOutcome>) -> (findings: Vec<Finding>)
    ensures
        views(findings@) == outdated_findings(outcomes@),
        forall|i: int|
            0 <= i < outcomes@.len() && up_to_date(#[trigger] outcomes@[i]) ==> outcome_findings(
                outcomes@[i],
            ).len() == 0,
        (forall|i: int| 0 <= i < outcomes@.len() ==> up_to_date(#[trigger] outcomes@[i]))
            ==> findings@.len() == 0,
{
    let mut findings: Vec<Finding> = Vec::new();
    let mut i: usize = 0;
    assert(outcomes@.take(0) =~= seq![]);
    assert(views(findings@) =~= outdated_findings(outcomes@.take(0)));
    while i < outcomes.len()
        invariant
            i <= outcomes.len(),
            views(findings@) == outdated_findings(outcomes@.take(i as int)),
            forall|k: int|
                0 <= k < i && up_to_date(#[trigger] outcomes@[k]) ==> outcome_findings(
                    outcomes@[k],
                ).len() == 0,
            (forall|k: int| 0 <= k < i ==> up_to_date(#[trigger] outcomes@[k])) ==> findings@.len()
                == 0,
        decreases outcomes.len() - i,
    {
        let ghost next = outcomes@.take(i as int + 1);
        assert(next.drop_last() =~= outcomes@.take(i as int));
        assert(next.last() == outcomes@[i as int]);
        let ghost before = findings@;
        let more = check_dependency(&outcomes[i]);
        assert(views(more@).len() == more@.len());
        crate::diagnostics::extend(&mut findings, more);
        proof {
            assert(views(findings@).len() == findings@.len());
            assert(views(before).len() == before.len());
            if forall|k: int| 0 <= k < i + 1 ==> up_to_date(#[trigger] outcomes@[k]) {
                assert(up_to_date(outcomes@[i as int]));
                assert forall|k: int| 0 <= k < i implies up_to_date(#[trigger] outcomes@[k]) by {}
            }
        }
        i = i + 1;
    }
    assert(outcomes@.take(outcomes@.len() as int) =~= outcomes@);
    findings
}

/// One entry of the audit tool's report.
#[derive(Debug, Clone)]
pub struct Vulnerability {
    pub package: String,
    pub advisory_id: String,
    pub title: String,
    pub patched: Vec<String>,
}

/// What the audit tool wrote: a report, or text that is no report, with
/// the reason why it is none.
#[derive(Debug, Clone)]
pub enum AuditOutput {
    Report(Vec<Vulnerability>),
    Unparsed(String),
}

/// How the run of the audit tool ended: it could not be started, or it
/// ran and left an exit status and its two streams.
#[derive(Debug, Clone)]
pub enum AuditOutcome {
    NotStarted(String),
    Finished { success: bool, stdout_empty: bool, stderr: String, output: AuditOutput },
}

/// At most the first `EXCERPT_LIMIT` characters of a diagnostic.
pub open spec fn excerpt(text: Seq<char>) -> Seq<char> {
    text.take(
        if text.len() <= EXCERPT_LIMIT {
            text.len() as int
        } else {
            EXCERPT_LIMIT as int
        },
    )
}

/// The first line of what the tool wrote to its error stream, or a
/// fixed text where it wrote nothing.
pub open spec fn first_diagnostic(stderr: Seq<char>) -> Seq<char> {
    if lines_of(stderr).len() > 0 {
        lines_of(stderr)[0]
    } else {
        "Unknown error"@
    }
}

/// The finding on a run that failed and wrote no output.
pub open spec fn tool_failed(stderr: Seq<char>, lock_path: Seq<char>) -> FindingView {
    plain(
        "AUD001"@,
        "cargo-audit execution failed: "@ + excerpt(first_diagnostic(stderr)),
        Severity::Warning,
        Some(lock_path),
    )
}

/// The finding on a run that failed with an empty report.
pub open spec fn ambiguous_result(stderr: Seq<char>, lock_path: Seq<char>) -> FindingView {
    plain(
        "AUD002"@,
        "cargo-audit indicated an issue but no vulnerabilities found in JSON: "@ + stderr,
        Severity::Warning,
        Some(lock_path),
    )
}

/// The finding on a run that failed and wrote what is no report.
pub open spec fn unparsed_output(reason: Seq<char>, lock_path: Seq<char>) -> FindingView {
    plain(
        "AUD003"@,
        "Failed to parse cargo-audit JSON output: "@ + excerpt(reason),
        Severity::Warning,
        Some(lock_path),
    )
}

/// The finding on a tool that could not be started.
pub open spec fn tool_unavailable(reason: Seq<char>) -> FindingView {
    plain(
        "AUD004"@,
        "Failed to execute 'cargo audit'. Is it installed and in PATH? Error: "@ + reason,
        Severity::Warning,
        None,
    )
}

/// The finding on one reported vulnerability.
pub open spec fn vulnerable(entry: Vulnerability, lock_path: Seq<char>) -> FindingView {
    plain(
        "SEC001"@,
        "Vulnerability found in '"@ + entry.package@ + "': "@ + entry.title@ + " (ID: "@
            + entry.advisory_id@ + "). Patched in: "@ + debug_text(
            joined(texts(entry.patched@), ", "@),
        ) + "."@,
        Severity::Error,
        Some(lock_path),
    )
}

/// One finding for each entry of the report, in the report's order.
pub open spec fn vulnerability_findings(
    entries: Seq<Vulnerability>,
    lock_path: Seq<char>,
) -> Seq<FindingView> {
    entries.map_values(|entry: Vulnerability| vulnerable(entry, lock_path))
}

/// The findings on the run of the audit tool.
///
/// - The tool did not start: one warning.
/// - It failed and wrote nothing to its output: one warning with the first
///   line of its error stream.
/// - It wrote a report: one error for each entry; for a report without
///   entries after a failure, one warning.
/// - It failed and wrote something that is no report: one warning with the
///   reason.
/// - Otherwise nothing.
pub open spec fn audit_findings(outcome: AuditOutcome, lock_path: Seq<char>) -> Seq<FindingView> {
    match outcome {
        AuditOutcome::NotStarted(reason) => seq![tool_unavailable(reason@)],
        AuditOutcome::Finished { success, stdout_empty, stderr, output } => {
            if !success && stdout_empty {
                seq![tool_failed(stderr@, lock_path)]
            } else {
                match output {
                    AuditOutput::Report(entries) => if entries@.len() > 0 {
                        vulnerability_findings(entries@, lock_path)
                    } else {
                        only_if(!success, ambiguous_result(stderr@, lock_path))
                    },
                    AuditOutput::Unparsed(reason) => only_if(
                        !success,
                        unparsed_output(reason@, lock_path),
                    ),
                }
            }
        },
    }
}

fn lock_finding(code: &str, message: String, severity: Severity, lock_path: &str) -> (f: Finding)
    ensures
        f@ == plain(code@, message@, severity, Some(lock_path@)),
{
    Finding::new(code, message, severity, Some(String::from_str(lock_path)))
}

fn report_entry(entry: &Vulnerability, lock_path: &str) -> (f: Finding)
    ensures
        f@ == vulnerable(*entry, lock_path@),
{
    let mut message = String::from_str("Vulnerability found in '");
    message.append(entry.package.as_str());
    message.append("': ");
    message.append(entry.title.as_str());
    message.append(" (ID: ");
    message.append(entry.advisory_id.as_str());
    message.append("). Patched in: ");
    let patched = join(&entry.patched, ", ");
    let shown = quoted(patched.as_str());
    message.append(shown.as_str());
    message.append(".");
    lock_finding("SEC001", message, Severity::Error, lock_path)
}

/// Turns the run of the audit tool into findings.
pub fn check_vulnerability(outcome: &AuditOutcome, lock_path: &str) -> (findings: Vec<Finding>)
    ensures
        views(findings@) == audit_findings(*outcome, lock_path@),
{
    let mut findings: Vec<Finding> = Vec::new();
    assert(views(findings@) =~= seq![]);
    match outcome {
        AuditOutcome::NotStarted(reason) => {
            let mut message = String::from_str(
                "Failed to execute 'cargo audit'. Is it installed and in PATH? Error: ",
            );
            message.append(reason.as_str());
            let f = Finding::new("AUD004", message, Severity::Warning, None);
            proof {
                lemma_views_push(findings@, f);
                assert(views(findings@.push(f)) =~= seq![tool_unavailable(reason@)]);
            }
            findings.push(f);
        },
        AuditOutcome::Finished { success, stdout_empty, stderr, output } => {
            if !*success && *stdout_empty {
                let lines = split_lines(stderr.as_str());
                let mut message = String::from_str("cargo-audit execution failed: ");
                if lines.len() > 0 {
                    assert(texts(lines@)[0] == lines@[0]@);
                    let line = head_chars(lines[0].as_str(), EXCERPT_LIMIT);
                    message.append(line.as_str());
                } else {
                    let line = head_chars("Unknown error", EXCERPT_LIMIT);
                    message.append(line.as_str());
                }
                let f = lock_finding("AUD001", message, Severity::Warning, lock_path);
                proof {
                    lemma_views_push(findings@, f);
                    assert(views(findings@.push(f)) =~= seq![tool_failed(stderr@, lock_path@)]);
                }
                findings.push(f);
            } else {
                match output {
                    AuditOutput::Report(entries) => {
                        if entries.len() > 0 {
                            let mut i: usize = 0;
                            while i < entries.len()
                                invariant
                                    i <= entries.len(),
                                    views(findings@) == vulnerability_findings(
                                        entries@.take(i as int),
                                        lock_path@,
                                    ),
                                decreases entries.len() - i,
                            {
                                let f = report_entry(&entries[i], lock_path);
                                proof {
                                    lemma_views_push(findings@, f);
                                    assert(views(findings@.push(f)) =~= vulnerability_findings(
                                        entries@.take(i as int + 1),
                                        lock_path@,
                                    ));
                                }
                                findings.push(f);
                                i = i + 1;
                            }
                            assert(entries@.take(entries@.len() as int) =~= entries@);
                        } else if !*success {
                            let mut message = String::from_str(
                                "cargo-audit indicated an issue but no vulnerabilities found in JSON: ",
                            );
                            message.append(stderr.as_str());
                            let f = lock_finding("AUD002", message, Severity::Warning, lock_path);
                            proof {
                                lemma_views_push(findings@, f);
                                assert(views(findings@.push(f)) =~= seq![
                                    ambiguous_result(stderr@, lock_path@),
                                ]);
                            }
                            findings.push(f);
                        }
                    },
                    AuditOutput::Unparsed(reason) => {
                        if !*success {
                            let mut message = String::from_str(
                                "Failed to parse cargo-audit JSON output: ",
                            );
                            let shown = head_chars(reason.as_str(), EXCERPT_LIMIT);
                            message.append(shown.as_str());
                            let f = lock_finding("AUD003", message, Severity::Warning, lock_path);
                            proof {
                                lemma_views_push(findings@, f);
                                assert(views(findings@.push(f)) =~= seq![
                                    unparsed_output(reason@, lock_path@),
                                ]);
                            }
                            findings.push(f);
                        }
                    },
                }
            }
        },
    }
    findings
}

/// The tool reported no vulnerability.
pub open spec fn nothing_reported(outcome: AuditOutcome) -> bool {
    match outcome {
        AuditOutcome::NotStarted(_) => true,
        AuditOutcome::Finished { success, stdout_empty, stderr, output } => match output {
            AuditOutput::Report(entries) => entries@.len() == 0 || (!success && stdout_empty),
            AuditOutput::Unparsed(_) => true,
        },
    }
}

/// The tool did not start, or it ended in failure.
pub open spec fn degraded(outcome: AuditOutcome) -> bool {
    match outcome {
        AuditOutcome::NotStarted(_) => true,
        AuditOutcome::Finished { success, stdout_empty, stderr, output } => !success,
    }
}

/// A run that reports no vulnerability gives one warning where the tool
/// did not start or ended in failure, and nothing where it ended well. A
/// report with entries gives one error for each entry.
pub proof fn law_audit_degrades_to_warning(outcome: AuditOutcome, lock_path: Seq<char>)
    ensures
        nothing_reported(outcome) && degraded(outcome) ==> audit_findings(outcome, lock_path).len()
            == 1 && audit_findings(outcome, lock_path)[0].severity == Severity::Warning,
        nothing_reported(outcome) && !degraded(outcome) ==> audit_findings(
            outcome,
            lock_path,
        ).len() == 0,
        !nothing_reported(outcome) ==> audit_findings(outcome, lock_path).len()
            == outcome->Finished_output->Report_0@.len() && forall|i: int|
            0 <= i < audit_findings(outcome, lock_path).len() ==> (#[trigger] audit_findings(
                outcome,
                lock_path,
            )[i]).severity == Severity::Error,
{
}

/// The code of a failed request differs from the other codes by its length.
pub proof fn lemma_fetch_code_length()
    ensures
        API_FETCH_FAILED@.len() == 6,
{
    reveal_strlit("API001");
}

/// A question that the registry did not answer gives one warning that
/// names the dependency, and no finding on an outdated version.
pub proof fn law_failed_lookup(outcome: LookupOutcome)
    requires
        outcome.latest is Err,
    ensures
        outcome_findings(outcome) == seq![
            fetch_failure(outcome.name@, outcome.latest->Err_0@),
        ],
        outcome_findings(outcome)[0].severity == Severity::Warning,
        outcome_findings(outcome)[0].code == API_FETCH_FAILED@,
{
}

/// Where the registry answers no question, the findings are one warning
/// for each question, in the order of the questions.
pub proof fn law_unreachable_registry(outcomes: Seq<LookupOutcome>)
    requires
        forall|i: int| 0 <= i < outcomes.len() ==> (#[trigger] outcomes[i]).latest is Err,
    ensures
        outdated_findings(outcomes).len() == outcomes.len(),
        forall|i: int|
            0 <= i < outcomes.len() ==> #[trigger] outdated_findings(outcomes)[i] == fetch_failure(
                outcomes[i].name@,
                outcomes[i].latest->Err_0@,
            ),
    decreases outcomes.len(),
{
    if outcomes.len() > 0 {
        let front = outcomes.drop_last();
        assert forall|i: int| 0 <= i < front.len() implies (#[trigger] front[i]).latest is Err by {
            assert(front[i] == outcomes[i]);
        }
        law_unreachable_registry(front);
        assert(outcomes[outcomes.len() - 1].latest is Err);
        assert forall|i: int| 0 <= i < outcomes.len() implies #[trigger] outdated_findings(
            outcomes,
        )[i] == fetch_failure(outcomes[i].name@, outcomes[i].latest->Err_0@) by {
            if i < front.len() {
                assert(outdated_findings(outcomes)[i] == outdated_findings(front)[i]);
                assert(front[i] == outcomes[i]);
            }
        }
    }
}

} // verus!
