//! The project manifest and the checks on what it declares.

use crate::config::{Config, NameMap};
use crate::diagnostics::{
    lemma_views_push, only_if, plain, view_opt_string, views, Finding, FindingView, Severity,
};
use crate::text::text_eq;
use vstd::prelude::*;
use vstd::string::*;

verus! {

/// The edition that a manifest is compared against.
pub const LATEST_STABLE_EDITION: &'static str = "2024";

/// File that manifest findings point at.
pub const MANIFEST_FILE: &'static str = "Cargo.toml";

/// The `readme` key of a manifest: a path, a boolean, or a value of another
/// kind, kept as the text that the manifest language writes for it.
#[derive(Debug, Clone)]
pub enum ReadmeField {
    Path(String),
    Flag(bool),
    Other(String),
}

impl ReadmeField {
    /// A path, or `false`: the two forms that a manifest may use.
    pub open spec fn valid(&self) -> bool {
        match self {
            ReadmeField::Path(_) => true,
            ReadmeField::Flag(on) => !*on,
            ReadmeField::Other(_) => false,
        }
    }

    /// The text that a message shows for the value.
    pub open spec fn shown(&self) -> Seq<char> {
        match self {
            ReadmeField::Path(p) => p@,
            ReadmeField::Flag(on) => if *on {
                "true"@
            } else {
                "false"@
            },
            ReadmeField::Other(text) => text@,
        }
    }
}

/// The package section of a manifest.
#[derive(Debug, Clone)]
pub struct Package {
    pub name: String,
    pub version: String,
    pub edition: Option<String>,
    pub description: Option<String>,
    pub license: Option<String>,
    pub readme: Option<ReadmeField>,
    pub repository: Option<String>,
}

/// A dependency that is declared as a table.
#[derive(Debug, Clone)]
pub struct DetailedDependency {
    pub version: Option<String>,
    pub path: Option<String>,
    pub features: Option<Vec<String>>,
}

/// A dependency: a version requirement alone, or a table.
#[derive(Debug, Clone)]
pub enum Dependency {
    Version(String),
    Detailed(DetailedDependency),
}

impl Dependency {
    /// The version requirement that the dependency declares, if any.
    pub open spec fn version_text(&self) -> Option<Seq<char>> {
        match self {
            Dependency::Version(v) => Some(v@),
            Dependency::Detailed(d) => view_opt_string(d.version),
        }
    }

    /// A dependency with a path and no version lives in the project's own tree.
    pub open spec fn is_local(&self) -> bool {
        match self {
            Dependency::Version(_) => false,
            Dependency::Detailed(d) => d.path is Some && d.version is None,
        }
    }

    /// The declared version is exactly `*`.
    pub open spec fn is_wildcard(&self) -> bool {
        self.version_text() == Some("*"@)
    }

    /// Whether the declared version is exactly `*`.
    pub fn has_wildcard_version(&self) -> (b: bool)
        ensures
            b == self.is_wildcard(),
    {
        match self {
            Dependency::Version(v) => text_eq(v.as_str(), "*"),
            Dependency::Detailed(d) => match &d.version {
                Some(v) => text_eq(v.as_str(), "*"),
                None => false,
            },
        }
    }
}

/// A local dependency declares no version, so it never counts as a wildcard.
pub proof fn law_local_dependency_exempt(dep: Dependency)
    requires
        dep.is_local(),
    ensures
        !dep.is_wildcard(),
{
}

/// A manifest. One without a package section is a workspace manifest.
#[derive(Debug, Clone)]
pub struct CargoManifest {
    pub package: Option<Package>,
    pub dependencies: Option<NameMap<Dependency>>,
    pub dev_dependencies: Option<NameMap<Dependency>>,
    pub build_dependencies: Option<NameMap<Dependency>>,
}

/// The field is absent or empty.
pub open spec fn blank(field: Option<String>) -> bool {
    match field {
        Some(text) => text@.len() == 0,
        None => true,
    }
}

fn is_blank(field: &Option<String>) -> (b: bool)
    ensures
        b == blank(*field),
{
    match field {
        Some(text) => text.as_str().is_empty(),
        None => true,
    }
}

/// The file that manifest findings point at.
pub open spec fn manifest_path() -> Option<Seq<char>> {
    Some(MANIFEST_FILE@)
}

/// The finding on a package without a description.
pub open spec fn missing_description() -> FindingView {
    plain(
        "MD001"@,
        "Missing 'description' in [package] section of Cargo.toml."@,
        Severity::Warning,
        manifest_path(),
    )
}

/// The finding on a package without a license.
pub open spec fn missing_license() -> FindingView {
    plain(
        "MD002"@,
        "Missing 'license' (or 'license-file') in [package] section of Cargo.toml."@,
        Severity::Warning,
        manifest_path(),
    )
}

/// The finding on a package without a repository.
pub open spec fn missing_repository() -> FindingView {
    plain(
        "MD003"@,
        "Missing 'repository' in [package] section of Cargo.toml."@,
        Severity::Note,
        manifest_path(),
    )
}

/// The finding on a package without a `readme` key.
pub open spec fn missing_readme() -> FindingView {
    plain(
        "MD004"@,
        "Missing 'readme' field in [package] section of Cargo.toml. Consider adding `readme = \"README.md\"` or `readme = false`."@,
        Severity::Note,
        manifest_path(),
    )
}

/// The finding on a `readme` key that holds neither a path nor `false`.
pub open spec fn malformed_readme(shown: Seq<char>) -> FindingView {
    plain(
        "MD004"@,
        "The 'readme' field in Cargo.toml has an unexpected value ( '"@ + shown
            + "' ). Expected a file path string (e.g., \"README.md\") or `false`."@,
        Severity::Warning,
        manifest_path(),
    )
}

/// The finding on a manifest without a package section.
pub open spec fn missing_package() -> FindingView {
    plain("MD005"@, "Missing section [package]"@, Severity::Error, manifest_path())
}

/// What the `readme` key of a package gives rise to.
pub open spec fn readme_findings(readme: Option<ReadmeField>) -> Seq<FindingView> {
    match readme {
        None => seq![missing_readme()],
        Some(field) => only_if(!field.valid(), malformed_readme(field.shown())),
    }
}

/// The findings on a package's metadata, in the order description, license,
/// repository, readme; each only where its check is enabled.
pub open spec fn package_findings(package: Package, config: Config) -> Seq<FindingView> {
    only_if(config.enabled("MD001"@) && blank(package.description), missing_description()) + only_if(
        config.enabled("MD002"@) && blank(package.license),
        missing_license(),
    ) + only_if(config.enabled("MD003"@) && blank(package.repository), missing_repository()) + (
    if config.enabled("MD004"@) {
        readme_findings(package.readme)
    } else {
        seq![]
    })
}

/// The findings on the metadata that a manifest declares. Without a package
/// section there is one finding, and the fields are not looked at.
pub open spec fn metadata_findings(manifest: CargoManifest, config: Config) -> Seq<FindingView> {
    match manifest.package {
        Some(package) => package_findings(package, config),
        None => only_if(config.enabled("MD005"@), missing_package()),
    }
}

fn manifest_finding(code: &str, message: String, severity: Severity) -> (f: Finding)
    ensures
        f@ == plain(code@, message@, severity, manifest_path()),
{
    Finding::new(code, message, severity, Some(String::from_str(MANIFEST_FILE)))
}

fn show_readme(field: &ReadmeField) -> (s: String)
    ensures
        s@ == field.shown(),
{
    match field {
        ReadmeField::Path(p) => p.clone(),
        ReadmeField::Flag(on) => if *on {
            String::from_str("true")
        } else {
            String::from_str("false")
        },
        ReadmeField::Other(text) => text.clone(),
    }
}

fn readme_is_valid(field: &ReadmeField) -> (b: bool)
    ensures
        b == field.valid(),
{
    match field {
        ReadmeField::Path(_) => true,
        ReadmeField::Flag(on) => !*on,
        ReadmeField::Other(_) => false,
    }
}

/// Checks the metadata of the package section.
pub fn check_missing_metadata(manifest: &CargoManifest, config: &Config) -> (findings: Vec<Finding>)
    ensures
        views(findings@) == metadata_findings(*manifest, *config),
{
    let mut findings: Vec<Finding> = Vec::new();
    assert(views(findings@) =~= seq![]);
    match &manifest.package {
        Some(package) => {
            if config.is_check_enabled("MD001") && is_blank(&package.description) {
                let f = manifest_finding(
                    "MD001",
                    String::from_str("Missing 'description' in [package] section of Cargo.toml."),
                    Severity::Warning,
                );
                proof {
                    lemma_views_push(findings@, f);
                }
                findings.push(f);
            }
            let ghost after_description = views(findings@);
            assert(after_description =~= only_if(
                config.enabled("MD001"@) && blank(package.description),
                missing_description(),
            ));
            if config.is_check_enabled("MD002") && is_blank(&package.license) {
                let f = manifest_finding(
                    "MD002",
                    String::from_str(
                        "Missing 'license' (or 'license-file') in [package] section of Cargo.toml.",
                    ),
                    Severity::Warning,
                );
                proof {
                    lemma_views_push(findings@, f);
                }
                findings.push(f);
            }
            let ghost after_license = views(findings@);
            assert(after_license =~= after_description + only_if(
                config.enabled("MD002"@) && blank(package.license),
                missing_license(),
            ));
            if config.is_check_enabled("MD003") && is_blank(&package.repository) {
                let f = manifest_finding(
                    "MD003",
                    String::from_str("Missing 'repository' in [package] section of Cargo.toml."),
                    Severity::Note,
                );
                proof {
                    lemma_views_push(findings@, f);
                }
                findings.push(f);
            }
            let ghost after_repository = views(findings@);
            assert(after_repository =~= after_license + only_if(
                config.enabled("MD003"@) && blank(package.repository),
                missing_repository(),
            ));
            if config.is_check_enabled("MD004") {
                match &package.readme {
                    None => {
                        let f = manifest_finding(
                            "MD004",
                            String::from_str(
                                "Missing 'readme' field in [package] section of Cargo.toml. Consider adding `readme = \"README.md\"` or `readme = false`.",
                            ),
                            Severity::Note,
                        );
                        proof {
                            lemma_views_push(findings@, f);
                        }
                        findings.push(f);
                    },
                    Some(field) => {
                        if !readme_is_valid(field) {
                            let mut message = String::from_str(
                                "The 'readme' field in Cargo.toml has an unexpected value ( '",
                            );
                            let shown = show_readme(field);
                            message.append(shown.as_str());
                            message.append(
                                "' ). Expected a file path string (e.g., \"README.md\") or `false`.",
                            );
                            let f = manifest_finding("MD004", message, Severity::Warning);
                            proof {
                                lemma_views_push(findings@, f);
                            }
                            findings.push(f);
                        }
                    },
                }
            }
            assert(views(findings@) =~= after_repository + (if config.enabled("MD004"@) {
                readme_findings(package.readme)
            } else {
                seq![]
            }));
        },
        None => {
            if config.is_check_enabled("MD005") {
                let f = manifest_finding(
                    "MD005",
                    String::from_str("Missing section [package]"),
                    Severity::Error,
                );
                proof {
                    lemma_views_push(findings@, f);
                }
                findings.push(f);
            }
            assert(views(findings@) =~= only_if(config.enabled("MD005"@), missing_package()));
        },
    }
    findings
}

/// The finding on a wildcard version of the dependency `name` in the table `role`.
pub open spec fn wildcard_finding(role: Seq<char>, name: Seq<char>) -> FindingView {
    plain(
        "DP001"@,
        "Wildcard version \"*\" used for "@ + role + " dependency '"@ + name
            + "'. Specify a version range."@,
        Severity::Warning,
        manifest_path(),
    )
}

/// The wildcard findings of one dependency table, in the table's order.
pub open spec fn table_wildcards(
    pairs: Seq<(Seq<char>, Dependency)>,
    role: Seq<char>,
) -> Seq<FindingView>
    decreases pairs.len(),
{
    if pairs.len() == 0 {
        seq![]
    } else {
        table_wildcards(pairs.drop_last(), role) + only_if(
            pairs.last().1.is_wildcard(),
            wildcard_finding(role, pairs.last().0),
        )
    }
}

/// The wildcard findings of a table that may be absent.
pub open spec fn section_wildcards(
    table: Option<NameMap<Dependency>>,
    role: Seq<char>,
) -> Seq<FindingView> {
    match table {
        Some(t) => table_wildcards(t.pairs(), role),
        None => seq![],
    }
}

/// The wildcard findings of a manifest: runtime, then dev, then build
/// dependencies; none where the check is disabled.
pub open spec fn wildcard_findings(manifest: CargoManifest, config: Config) -> Seq<FindingView> {
    if config.enabled("DP001"@) {
        section_wildcards(manifest.dependencies, "runtime"@) + section_wildcards(
            manifest.dev_dependencies,
            "dev"@,
        ) + section_wildcards(manifest.build_dependencies, "build"@)
    } else {
        seq![]
    }
}

/// A table without a wildcard version gives no finding.
pub proof fn lemma_no_wildcards(pairs: Seq<(Seq<char>, Dependency)>, role: Seq<char>)
    requires
        forall|i: int| 0 <= i < pairs.len() ==> !(#[trigger] pairs[i]).1.is_wildcard(),
    ensures
        table_wildcards(pairs, role) == Seq::<FindingView>::empty(),
    decreases pairs.len(),
{
    if pairs.len() > 0 {
        let front = pairs.drop_last();
        assert forall|i: int| 0 <= i < front.len() implies !(#[trigger] front[i]).1.is_wildcard() by {
            assert(front[i] == pairs[i]);
        }
        lemma_no_wildcards(front, role);
        assert(!pairs[pairs.len() - 1].1.is_wildcard());
    }
}

fn scan_table(table: &Option<NameMap<Dependency>>, role: &str, findings: &mut Vec<Finding>)
    ensures
        views(final(findings)@) == views(old(findings)@) + section_wildcards(*table, role@),
{
    match table {
        Some(t) => {
            let ghost before = views(findings@);
            let mut i: usize = 0;
            assert(t.pairs().take(0) =~= seq![]);
            assert(views(findings@) =~= before + table_wildcards(t.pairs().take(0), role@));
            while i < t.len()
                invariant
                    i <= t.pairs().len(),
                    views(findings@) == before + table_wildcards(t.pairs().take(i as int), role@),
                decreases t.pairs().len() - i,
            {
                let ghost next = t.pairs().take(i as int + 1);
                assert(next.drop_last() =~= t.pairs().take(i as int));
                assert(next.last() == t.pairs()[i as int]);
                if t.value_at(i).has_wildcard_version() {
                    let mut message = String::from_str("Wildcard version \"*\" used for ");
                    message.append(role);
                    message.append(" dependency '");
                    message.append(t.name_at(i));
                    message.append("'. Specify a version range.");
                    let f = manifest_finding("DP001", message, Severity::Warning);
                    proof {
                        lemma_views_push(findings@, f);
                    }
                    findings.push(f);
                }
                assert(views(findings@) =~= before + table_wildcards(next, role@));
                i = i + 1;
            }
            assert(t.pairs().take(t.pairs().len() as int) =~= t.pairs());
        },
        None => {
            assert(views(findings@) =~= views(findings@) + seq![]);
        },
    }
}

/// Looks for wildcard versions in the three dependency tables.
pub fn check_dependency_versions(manifest: &CargoManifest, config: &Config) -> (findings: Vec<
    Finding,
>)
    ensures
        views(findings@) == wildcard_findings(*manifest, *config),
{
    let mut findings: Vec<Finding> = Vec::new();
    assert(views(findings@) =~= seq![]);
    if config.is_check_enabled("DP001") {
        scan_table(&manifest.dependencies, "runtime", &mut findings);
        scan_table(&manifest.dev_dependencies, "dev", &mut findings);
        scan_table(&manifest.build_dependencies, "build", &mut findings);
        assert(views(findings@) =~= wildcard_findings(*manifest, *config));
    }
    findings
}

/// The finding on an edition that is not the latest.
pub open spec fn outdated_edition(edition: Seq<char>) -> FindingView {
    plain(
        "ED001"@,
        "Project uses Rust edition '"@ + edition + "', consider updating to '"@
            + LATEST_STABLE_EDITION@ + "'."@,
        Severity::Note,
        manifest_path(),
    )
}

/// The finding on a package that declares no edition.
pub open spec fn missing_edition() -> FindingView {
    plain(
        "ED002"@,
        "Project does not specify a Rust edition (implicitly 2015), consider specifying and updating to '"@
            + LATEST_STABLE_EDITION@ + "'."@,
        Severity::Note,
        manifest_path(),
    )
}

/// The finding on the edition that a manifest declares: one where it
/// differs from the latest, another where the package declares none, and
/// nothing for a manifest without a package.
pub open spec fn edition_findings(manifest: CargoManifest) -> Seq<FindingView> {
    match manifest.package {
        Some(package) => match package.edition {
            Some(edition) => only_if(
                edition@ != LATEST_STABLE_EDITION@,
                outdated_edition(edition@),
            ),
            None => seq![missing_edition()],
        },
        None => seq![],
    }
}

/// Compares the declared edition with the latest stable one.
pub fn check_rust_edition(manifest: &CargoManifest) -> (findings: Vec<Finding>)
    ensures
        views(findings@) == edition_findings(*manifest),
{
    let mut findings: Vec<Finding> = Vec::new();
    assert(views(findings@) =~= seq![]);
    match &manifest.package {
        Some(package) => match &package.edition {
            Some(edition) => {
                if !text_eq(edition.as_str(), LATEST_STABLE_EDITION) {
                    let mut message = String::from_str("Project uses Rust edition '");
                    message.append(edition.as_str());
                    message.append("', consider updating to '");
                    message.append(LATEST_STABLE_EDITION);
                    message.append("'.");
                    let f = manifest_finding("ED001", message, Severity::Note);
                    proof {
                        lemma_views_push(findings@, f);
                    }
                    findings.push(f);
                    assert(views(findings@) =~= seq![outdated_edition(edition@)]);
                }
            },
            None => {
                let mut message = String::from_str(
                    "Project does not specify a Rust edition (implicitly 2015), consider specifying and updating to '",
                );
                message.append(LATEST_STABLE_EDITION);
                message.append("'.");
                let f = manifest_finding("ED002", message, Severity::Note);
                proof {
                    lemma_views_push(findings@, f);
                }
                findings.push(f);
                assert(views(findings@) =~= seq![missing_edition()]);
            },
        },
        None => {},
    }
    findings
}

/// Everything that the checks of this module find in a manifest: metadata,
/// then wildcard versions, then the edition.
pub open spec fn validator_findings(manifest: CargoManifest, config: Config) -> Seq<FindingView> {
    metadata_findings(manifest, config) + wildcard_findings(manifest, config) + edition_findings(
        manifest,
    )
}

/// Description, license and repository are filled in, the readme key holds a
/// path or `false`, and the edition is the latest stable one.
pub open spec fn complete(package: Package) -> bool {
    &&& !blank(package.description)
    &&& !blank(package.license)
    &&& !blank(package.repository)
    &&& package.readme is Some
    &&& package.readme->0.valid()
    &&& package.edition is Some
    &&& package.edition->0@ == LATEST_STABLE_EDITION@
}

/// No dependency of the table declares the version `*`.
pub open spec fn free_of_wildcards(table: Option<NameMap<Dependency>>) -> bool {
    match table {
        Some(t) => forall|i: int|
            0 <= i < t.pairs().len() ==> !(#[trigger] t.pairs()[i]).1.is_wildcard(),
        None => true,
    }
}

/// A package section with complete metadata, in a manifest without wildcard versions.
pub open spec fn exemplary(manifest: CargoManifest) -> bool {
    &&& manifest.package is Some
    &&& complete(manifest.package->0)
    &&& free_of_wildcards(manifest.dependencies)
    &&& free_of_wildcards(manifest.dev_dependencies)
    &&& free_of_wildcards(manifest.build_dependencies)
}

/// The manifest with another package section.
pub open spec fn with_package(manifest: CargoManifest, package: Package) -> CargoManifest {
    CargoManifest { package: Some(package), ..manifest }
}

proof fn lemma_wildcard_free(manifest: CargoManifest, config: Config)
    requires
        free_of_wildcards(manifest.dependencies),
        free_of_wildcards(manifest.dev_dependencies),
        free_of_wildcards(manifest.build_dependencies),
    ensures
        wildcard_findings(manifest, config) == Seq::<FindingView>::empty(),
{
    if manifest.dependencies is Some {
        lemma_no_wildcards(manifest.dependencies->0.pairs(), "runtime"@);
    }
    if manifest.dev_dependencies is Some {
        lemma_no_wildcards(manifest.dev_dependencies->0.pairs(), "dev"@);
    }
    if manifest.build_dependencies is Some {
        lemma_no_wildcards(manifest.build_dependencies->0.pairs(), "build"@);
    }
    assert(wildcard_findings(manifest, config) =~= Seq::<FindingView>::empty());
}

/// A manifest with complete metadata and no wildcard version gives no
/// finding, whatever the configuration.
pub proof fn law_complete_manifest_is_clean(manifest: CargoManifest, config: Config)
    requires
        exemplary(manifest),
    ensures
        validator_findings(manifest, config) == Seq::<FindingView>::empty(),
{
    lemma_wildcard_free(manifest, config);
    assert(validator_findings(manifest, config) =~= Seq::<FindingView>::empty());
}

/// Taking one metadata field out of such a manifest gives the finding of
/// that field and no other, where the field's check is enabled. The check
/// on a missing edition cannot be disabled.
pub proof fn law_one_missing_field(manifest: CargoManifest, config: Config)
    requires
        exemplary(manifest),
    ensures
        config.enabled("MD001"@) ==> validator_findings(
            with_package(manifest, Package { description: None, ..manifest.package->0 }),
            config,
        ) == seq![missing_description()],
        config.enabled("MD002"@) ==> validator_findings(
            with_package(manifest, Package { license: None, ..manifest.package->0 }),
            config,
        ) == seq![missing_license()],
        config.enabled("MD003"@) ==> validator_findings(
            with_package(manifest, Package { repository: None, ..manifest.package->0 }),
            config,
        ) == seq![missing_repository()],
        config.enabled("MD004"@) ==> validator_findings(
            with_package(manifest, Package { readme: None, ..manifest.package->0 }),
            config,
        ) == seq![missing_readme()],
        validator_findings(
            with_package(manifest, Package { edition: None, ..manifest.package->0 }),
            config,
        ) == seq![missing_edition()],
{
    let package = manifest.package->0;
    let a = with_package(manifest, Package { description: None, ..package });
    let b = with_package(manifest, Package { license: None, ..package });
    let c = with_package(manifest, Package { repository: None, ..package });
    let d = with_package(manifest, Package { readme: None, ..package });
    let e = with_package(manifest, Package { edition: None, ..package });
    lemma_wildcard_free(a, config);
    lemma_wildcard_free(b, config);
    lemma_wildcard_free(c, config);
    lemma_wildcard_free(d, config);
    lemma_wildcard_free(e, config);
    if config.enabled("MD001"@) {
        assert(validator_findings(a, config) =~= seq![missing_description()]);
    }
    if config.enabled("MD002"@) {
        assert(validator_findings(b, config) =~= seq![missing_license()]);
    }
    if config.enabled("MD003"@) {
        assert(validator_findings(c, config) =~= seq![missing_repository()]);
    }
    if config.enabled("MD004"@) {
        assert(validator_findings(d, config) =~= seq![missing_readme()]);
    }
    assert(validator_findings(e, config) =~= seq![missing_edition()]);
}

} // verus!
