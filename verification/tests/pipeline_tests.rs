use cargo_dokita::code_checks::{LintTarget, ProjectLayout, SourceFile};
use cargo_dokita::config::{Config, NameMap};
use cargo_dokita::dependency_analysis::{AuditOutcome, AuditOutput, LookupOutcome};
use cargo_dokita::diagnostics::{Finding, Severity};
use cargo_dokita::manifest::{CargoManifest, Dependency, Package, ReadmeField};
use cargo_dokita::patterns::PatternRules;
use cargo_dokita::{
    analyze_project, analyze_project_for_test, filter_findings, is_rust_project, MyError,
    ProjectSnapshot, Stage,
};

const ROOT: &str = "/work/project";

fn parts(names: &[&str]) -> Vec<String> {
    names.iter().map(|s| s.to_string()).collect()
}

fn source(relative: &[&str], content: &str) -> SourceFile {
    let mut components = parts(&["/", "work", "project"]);
    components.extend(parts(relative));
    let file = SourceFile::new(components, Ok(content.to_string()));
    assert_eq!(file.path, format!("{}/{}", ROOT, relative.join("/")));
    file
}

fn rules() -> PatternRules {
    PatternRules::standard().unwrap()
}

/// Builds the snapshot of a small project: a manifest with name, version
/// and edition, and a `src/main.rs`.
struct ProjectBuilder {
    name: String,
    edition: String,
    dependencies: Vec<(String, String)>,
    description: Option<String>,
    license: Option<String>,
}

impl ProjectBuilder {
    fn new(name: &str) -> Self {
        ProjectBuilder {
            name: name.to_string(),
            edition: "2021".to_string(),
            dependencies: Vec::new(),
            description: None,
            license: None,
        }
    }

    fn dependency(mut self, name: &str, version: &str) -> Self {
        self.dependencies.push((name.to_string(), version.to_string()));
        self
    }

    fn description(mut self, description: &str) -> Self {
        self.description = Some(description.to_string());
        self
    }

    fn license(mut self, license: &str) -> Self {
        self.license = Some(license.to_string());
        self
    }

    fn build(self) -> ProjectSnapshot {
        let dependencies = if self.dependencies.is_empty() {
            None
        } else {
            let mut map = NameMap::new();
            for (name, version) in &self.dependencies {
                map.insert(name.clone(), Dependency::Version(version.clone()));
            }
            Some(map)
        };
        let main = "fn main() {}\n";
        ProjectSnapshot {
            path_resolved: true,
            is_directory: true,
            has_manifest_file: true,
            root: parts(&["/", "work", "project"]),
            config: Config::default(),
            sources: vec![source(&["src", "main.rs"], main)],
            manifest: Ok(CargoManifest {
                package: Some(Package {
                    name: self.name,
                    version: "0.1.0".to_string(),
                    edition: Some(self.edition),
                    description: self.description,
                    license: self.license,
                    readme: None,
                    repository: None,
                }),
                dependencies,
                dev_dependencies: None,
                build_dependencies: None,
            }),
            layout: ProjectLayout {
                has_lib_rs: false,
                has_main_rs: true,
                has_bin_dir: false,
                has_readme: false,
                readme_target_exists: false,
                has_license_file: false,
                readme_path: format!("{}/README.md", ROOT),
            },
            lookups: Some(Vec::new()),
            audit: AuditOutcome::Finished {
                success: true,
                stdout_empty: false,
                stderr: String::new(),
                output: AuditOutput::Report(Vec::new()),
            },
            lock_path: format!("{}/Cargo.lock", ROOT),
            lint_targets: vec![LintTarget {
                path: format!("{}/src/main.rs", ROOT),
                file_name: "main.rs".to_string(),
                content: Some(main.to_string()),
            }],
        }
    }
}

/// A project that should pass all checks
fn create_perfect_project(name: &str) -> ProjectSnapshot {
    let mut snapshot = ProjectBuilder::new(name)
        .description("A well-documented test project")
        .license("MIT")
        .build();
    let main_content = r#"#![deny(warnings)]

fn main() {
    println!("Hello, world!");
}
"#;
    snapshot.layout.has_readme = true;
    snapshot.layout.has_license_file = true;
    snapshot.sources = vec![source(&["src", "main.rs"], main_content)];
    snapshot.lint_targets[0].content = Some(main_content.to_string());
    snapshot
}

fn create_non_rust_project() -> ProjectSnapshot {
    let mut snapshot = ProjectBuilder::new("none").build();
    snapshot.has_manifest_file = false;
    snapshot.manifest = Err("Failed to read Cargo.toml".to_string());
    snapshot.sources = Vec::new();
    snapshot.lint_targets = Vec::new();
    snapshot.layout.has_main_rs = false;
    snapshot.layout.has_readme = true;
    snapshot
}

fn create_workspace_project(members: &[&str]) -> ProjectSnapshot {
    let mut snapshot = ProjectBuilder::new("workspace").build();
    snapshot.manifest = Ok(CargoManifest {
        package: None,
        dependencies: None,
        dev_dependencies: None,
        build_dependencies: None,
    });
    snapshot.sources = Vec::new();
    snapshot.lint_targets = Vec::new();
    snapshot.layout.has_main_rs = false;
    assert_eq!(members.len(), 2);
    snapshot
}

fn analyze_project_text(snapshot: &ProjectSnapshot) -> Result<(), MyError> {
    match analyze_project_for_test(snapshot, &rules()) {
        Ok(findings) => {
            if findings
                .iter()
                .any(|f| matches!(f.severity, Severity::Error | Severity::Warning))
            {
                Err(MyError::HasIssues(findings))
            } else {
                Ok(())
            }
        }
        Err(e) => Err(e),
    }
}

fn analyze_project_expect_issues(snapshot: &ProjectSnapshot) -> Result<Vec<Finding>, MyError> {
    analyze_project_for_test(snapshot, &rules())
}

fn codes(findings: &[Finding]) -> Vec<&str> {
    findings.iter().map(|f| f.code.as_str()).collect()
}

#[test]
fn test_analyze_valid_rust_project() {
    // A perfect project that should pass all checks
    let snapshot = create_perfect_project("test-project");

    let result = analyze_project_text(&snapshot);
    assert!(result.is_ok(), "Expected project to pass all checks, but got: {:?}", result);
    let findings = analyze_project_expect_issues(&snapshot).unwrap();
    assert_eq!(codes(&findings), vec!["MD003", "MD004", "ED001"]);
}

#[test]
fn test_analyze_project_with_issues() {
    // A basic project that will have issues (missing metadata, etc.)
    let snapshot = ProjectBuilder::new("test-project").dependency("serde", "1.0").build();

    let result = analyze_project_text(&snapshot);
    // This should have issues (missing README, LICENSE, description, etc.)
    assert!(result.is_err(), "Expected project to have issues");

    // We can also check what issues were found
    let findings = analyze_project_expect_issues(&snapshot).unwrap();
    assert!(!findings.is_empty(), "Should have found some issues");
    assert_eq!(
        codes(&findings),
        vec!["STRUCT002", "STRUCT003", "MD001", "MD002", "MD003", "MD004", "ED001", "LINT001"]
    );
}

#[test]
fn test_analyze_non_rust_project() {
    let snapshot = create_non_rust_project();

    let result = analyze_project_text(&snapshot);
    assert!(matches!(result, Err(MyError::NotRustProject)));
}

#[test]
fn test_analyze_nonexistent_path() {
    let mut snapshot = ProjectBuilder::new("/nonexistent/path").build();
    snapshot.path_resolved = false;
    snapshot.is_directory = false;
    snapshot.has_manifest_file = false;
    let result = analyze_project(&snapshot, &rules(), "text");
    assert!(matches!(result, Err(MyError::UnresolvableProjectPath)));
}

#[test]
fn test_analyze_with_json_output() {
    // A perfect project that should pass all checks
    let snapshot = create_perfect_project("test-project");

    let result = analyze_project(&snapshot, &rules(), "json");
    assert!(result.is_ok());
    let report = result.unwrap();
    assert_eq!(report.format, cargo_dokita::report::OutputFormat::Json);
    assert_eq!(report.exit_code, 0);
    assert_eq!(report.findings.len(), 3);
}

#[test]
fn test_analyze_project_with_missing_metadata() {
    // A basic project with minimal metadata (will have issues)
    let snapshot = ProjectBuilder::new("test-project").build();

    let result = analyze_project_text(&snapshot);
    // Should have issues due to missing metadata
    assert!(result.is_err());
    let report = analyze_project(&snapshot, &rules(), "human").unwrap();
    assert_eq!(report.exit_code, 1);
    assert_eq!(report.format, cargo_dokita::report::OutputFormat::Human);
}

#[test]
fn test_analyze_project_with_unsafe_code() {
    let mut snapshot = ProjectBuilder::new("test-project").build();
    let unsafe_code = r#"
fn main() {
    unsafe {
        let x = 5;
    }
}
"#;
    snapshot.sources = vec![source(&["src", "main.rs"], unsafe_code)];

    let findings = analyze_project_expect_issues(&snapshot).unwrap();
    // Unsafe code itself is not flagged; the missing metadata is
    assert!(!findings.is_empty());
    assert!(!findings.iter().any(|f| f.code.starts_with("CODE")));
}

#[test]
fn test_analyze_project_with_config_file() {
    let mut snapshot = ProjectBuilder::new("test-project").build();
    let all = analyze_project_expect_issues(&snapshot).unwrap().len();

    // A config that disables some checks
    snapshot.config.checks.enabled.insert("MD001".to_string(), false);
    snapshot.config.checks.enabled.insert("MD002".to_string(), false);

    // Even with a permissive config there are still some issues
    let findings = analyze_project_expect_issues(&snapshot).unwrap();
    assert_eq!(findings.len(), all - 2);
    assert!(!findings.iter().any(|f| f.code == "MD001" || f.code == "MD002"));
}

#[test]
fn test_analyze_workspace_project() {
    // A workspace project
    let snapshot = create_workspace_project(&["member1", "member2"]);

    let findings = analyze_project_expect_issues(&snapshot).unwrap();
    assert_eq!(codes(&findings), vec!["MD005"]);
    assert_eq!(findings[0].severity, Severity::Error);
}

fn exemplary_project() -> ProjectSnapshot {
    let mut snapshot = create_perfect_project("test-project");
    {
        let package = snapshot.manifest.as_mut().unwrap().package.as_mut().unwrap();
        package.edition = Some("2024".to_string());
        package.repository = Some("https://github.com/user/repo".to_string());
        package.readme = Some(ReadmeField::Path("README.md".to_string()));
    }
    let mut dependencies = NameMap::new();
    dependencies.insert("serde".to_string(), Dependency::Version("1.0".to_string()));
    dependencies.insert("regex".to_string(), Dependency::Version("1".to_string()));
    snapshot.manifest.as_mut().unwrap().dependencies = Some(dependencies);
    snapshot
}

#[test]
fn unreachable_registry_gives_only_fetch_warnings() {
    let mut snapshot = exemplary_project();
    let unreachable = |name: &str| LookupOutcome {
        name: name.to_string(),
        current_version: "1.0.0".to_string(),
        latest: Err(format!(
            "Something went wrong - Failed to send request to crate.io for {}: connection refused",
            name
        )),
    };
    snapshot.lookups = Some(vec![unreachable("serde"), unreachable("regex")]);

    let outcome = analyze_project(&snapshot, &rules(), "human");
    assert!(outcome.is_ok());
    let report = outcome.unwrap();
    assert_eq!(codes(&report.findings), vec!["API001", "API001"]);
    assert!(report.findings.iter().all(|f| f.severity == Severity::Warning));
    assert_eq!(report.exit_code, 1);
    assert_eq!(
        report.findings[0].message,
        "Failed to fetch latest version for dependency 'serde': Something went wrong - Failed to send request to crate.io for serde: connection refused"
    );
}

#[test]
fn exemplary_project_has_no_finding() {
    let snapshot = exemplary_project();
    let report = analyze_project(&snapshot, &rules(), "human").unwrap();
    assert!(report.findings.is_empty());
    assert_eq!(report.exit_code, 0);
}

#[test]
fn missing_dependency_graph_skips_the_freshness_check_only() {
    let mut snapshot = exemplary_project();
    snapshot.lookups = None;
    snapshot.audit = AuditOutcome::NotStarted("not found".to_string());
    let findings = analyze_project_for_test(&snapshot, &rules()).unwrap();
    assert_eq!(codes(&findings), vec!["AUD004"]);
}

#[test]
fn unreadable_manifest_is_a_hard_error() {
    let mut snapshot = ProjectBuilder::new("test-project").build();
    let reason = "Failed to parse Cargo.toml at \"/work/project/Cargo.toml\": invalid toml content [[[";
    snapshot.manifest = Err(reason.to_string());
    match analyze_project_for_test(&snapshot, &rules()) {
        Err(MyError::UnreadableManifest(text)) => assert_eq!(text, reason),
        other => panic!("expected the manifest error, got {:?}", other),
    }
    match analyze_project(&snapshot, &rules(), "human") {
        Err(MyError::UnreadableManifest(text)) => assert_eq!(text, reason),
        other => panic!("expected the manifest error, got {:?}", other),
    }
}

#[test]
fn errors_come_in_the_order_path_project_manifest() {
    let mut snapshot = ProjectBuilder::new("test-project").build();
    snapshot.manifest = Err("no manifest".to_string());
    snapshot.has_manifest_file = false;
    assert!(matches!(
        analyze_project_for_test(&snapshot, &rules()),
        Err(MyError::NotRustProject)
    ));
    snapshot.has_manifest_file = true;
    snapshot.is_directory = false;
    assert!(matches!(
        analyze_project_for_test(&snapshot, &rules()),
        Err(MyError::NotRustProject)
    ));
    snapshot.path_resolved = false;
    assert!(matches!(
        analyze_project_for_test(&snapshot, &rules()),
        Err(MyError::UnresolvableProjectPath)
    ));
}

#[test]
fn findings_are_merged_in_the_order_of_the_checks() {
    let mut snapshot = ProjectBuilder::new("test-project").dependency("anyhow", "*").build();
    snapshot.sources = vec![
        source(&["src", "util.rs"], "fn f() { g().unwrap(); }\n"),
        source(&["src", "main.rs"], "// TODO\nfn main() {}\n"),
    ];
    snapshot.lookups = Some(vec![LookupOutcome {
        name: "anyhow".to_string(),
        current_version: "1.0.0".to_string(),
        latest: Ok("1.0.1".to_string()),
    }]);
    snapshot.audit = AuditOutcome::NotStarted("not found".to_string());
    let reported = analyze_project_for_test(&snapshot, &rules()).unwrap();
    assert_eq!(
        codes(&reported),
        vec![
            "CODE001", "CODE004", "STRUCT002", "STRUCT003", "MD001", "MD002", "MD003", "MD004",
            "DP001", "ED001", "DP002", "AUD004", "LINT001"
        ]
    );
}

#[test]
fn disabling_a_code_removes_its_findings_and_no_others() {
    let mut snapshot = ProjectBuilder::new("test-project").dependency("anyhow", "*").build();
    snapshot.sources = vec![source(&["src", "util.rs"], "// TODO a\n// TODO b\nx.unwrap();\n")];
    let before = analyze_project_for_test(&snapshot, &rules()).unwrap();
    for code in ["CODE004", "CODE001", "MD003", "DP001", "ED001", "LINT001", "ABSENT"] {
        let mut changed = ProjectBuilder::new("test-project").dependency("anyhow", "*").build();
        changed.sources =
            vec![source(&["src", "util.rs"], "// TODO a\n// TODO b\nx.unwrap();\n")];
        changed.config.checks.enabled.insert(code.to_string(), false);
        let after = analyze_project_for_test(&changed, &rules()).unwrap();
        let expected: Vec<String> = before
            .iter()
            .filter(|f| f.code != code)
            .map(|f| format!("{:?}", f))
            .collect();
        let got: Vec<String> = after.iter().map(|f| format!("{:?}", f)).collect();
        assert_eq!(got, expected);
    }
}

#[test]
fn structural_findings_cannot_be_disabled() {
    let mut snapshot = ProjectBuilder::new("test-project").build();
    snapshot.layout.has_main_rs = false;
    snapshot.config.checks.enabled.insert("STRUCT001".to_string(), false);
    snapshot.config.checks.enabled.insert("STRUCT002".to_string(), false);
    snapshot.config.checks.enabled.insert("STRUCT003".to_string(), false);
    let findings = analyze_project_for_test(&snapshot, &rules()).unwrap();
    assert!(findings.iter().any(|f| f.code == "STRUCT001"));
    assert!(findings.iter().any(|f| f.code == "STRUCT002"));
    assert!(findings.iter().any(|f| f.code == "STRUCT003"));
}

#[test]
fn filter_keeps_order_and_enabled_codes() {
    let f = |code: &str| Finding::new(code, "m".to_string(), Severity::Note, None);
    let findings = vec![f("A"), f("B"), f("A"), f("STRUCT001"), f("C")];
    let mut config = Config::default();
    config.checks.enabled.insert("A".to_string(), false);
    config.checks.enabled.insert("STRUCT001".to_string(), false);
    config.checks.enabled.insert("C".to_string(), true);
    let remaining = filter_findings(&findings, &config);
    assert_eq!(codes(&remaining), vec!["B", "STRUCT001", "C"]);
    assert_eq!(filter_findings(&findings, &Config::default()).len(), 5);
    assert!(filter_findings(&Vec::new(), &config).is_empty());
}

#[test]
fn two_runs_report_the_same_codes() {
    let snapshot = ProjectBuilder::new("test-project").dependency("serde", "*").build();
    let first = analyze_project_for_test(&snapshot, &rules()).unwrap();
    let second = analyze_project_for_test(&snapshot, &rules()).unwrap();
    let mut a: Vec<String> = first.iter().map(|f| f.code.clone()).collect();
    let mut b: Vec<String> = second.iter().map(|f| f.code.clone()).collect();
    a.sort();
    b.sort();
    assert_eq!(a, b);
    assert!(!a.is_empty());
}

#[test]
fn rust_project_needs_directory_and_manifest() {
    assert!(is_rust_project(true, true));
    assert!(!is_rust_project(true, false));
    assert!(!is_rust_project(false, true));
    assert!(!is_rust_project(false, false));
}

#[test]
fn stages_move_forward_to_the_end() {
    let mut stage = Stage::Init;
    let mut seen = vec![stage];
    while !stage.is_terminal() {
        stage = stage.next();
        seen.push(stage);
    }
    assert_eq!(
        seen,
        vec![
            Stage::Init,
            Stage::Collecting,
            Stage::Checking,
            Stage::Merging,
            Stage::Filtering,
            Stage::Reported,
            Stage::Terminal
        ]
    );
    assert_eq!(Stage::Terminal.next(), Stage::Terminal);
}

#[test]
fn notes_alone_do_not_fail_the_run() {
    let mut snapshot = exemplary_project();
    snapshot.manifest.as_mut().unwrap().package.as_mut().unwrap().edition =
        Some("2018".to_string());
    let report = analyze_project(&snapshot, &rules(), "human").unwrap();
    assert_eq!(codes(&report.findings), vec!["ED001"]);
    assert_eq!(report.exit_code, 0);
}
