use cargo_dokita::code_checks::{
    check_code_patterns, check_missing_denied_lints, check_project_structure, classify,
    collect_rust_files, has_rust_extension, is_library_file, is_rust_file, judge_line,
    license_file_names, lint_is_named, list_names, readme_target, scan_file, source_roots, spell,
    FileContext, LintTarget, ProjectLayout, SourceFile, WalkedEntry,
};
use cargo_dokita::config::{ChecksConfig, Config, NameMap};
use cargo_dokita::diagnostics::Severity;
use cargo_dokita::manifest::{CargoManifest, Package, ReadmeField};
use cargo_dokita::patterns::{
    LinePattern, PatternRules, DEBUG_OUTPUT_PATTERN, DENY_LINT_PATTERN, EXPECT_PATTERN,
    PENDING_WORK_PATTERN, UNWRAP_PATTERN,
};

fn parts(names: &[&str]) -> Vec<String> {
    names.iter().map(|s| s.to_string()).collect()
}

fn root() -> Vec<String> {
    parts(&["/", "work", "project"])
}

fn below_root(names: &[&str]) -> Vec<String> {
    let mut all = root();
    all.extend(parts(names));
    all
}

fn path_text(components: &[String]) -> String {
    let mut text = String::new();
    for (i, c) in components.iter().enumerate() {
        if i > 1 {
            text.push('/');
        }
        text.push_str(c);
    }
    text
}

fn source(names: &[&str], content: &str) -> SourceFile {
    let components = below_root(names);
    let file = SourceFile::new(components, Ok(content.to_string()));
    assert_eq!(file.path, path_text(&file.components));
    file
}

fn rules() -> PatternRules {
    PatternRules::standard().unwrap()
}

// A config with the lint check switched on
fn create_test_config() -> Config {
    let mut enabled_checks = NameMap::new();
    enabled_checks.insert("LINT001".to_string(), true);

    Config { general: Default::default(), checks: ChecksConfig { enabled: enabled_checks } }
}

// A basic manifest
fn create_test_manifest(name: &str) -> CargoManifest {
    CargoManifest {
        package: Some(Package {
            name: name.to_string(),
            version: "0.1.0".to_string(),
            license: Some("MIT".to_string()),
            readme: None,
            description: Some("Test package".to_string()),
            edition: Some("2021".to_string()),
            repository: None,
        }),
        dependencies: None,
        dev_dependencies: None,
        build_dependencies: None,
    }
}

// A directory that holds nothing
fn empty_layout() -> ProjectLayout {
    ProjectLayout {
        has_lib_rs: false,
        has_main_rs: false,
        has_bin_dir: false,
        has_readme: false,
        readme_target_exists: false,
        has_license_file: false,
        readme_path: "/work/project/README.md".to_string(),
    }
}

#[test]
fn test_is_rust_file() {
    let rust_entry = WalkedEntry {
        path: "/work/test.rs".to_string(),
        file_name: "test.rs".to_string(),
        is_file: true,
    };
    let non_rust_entry = WalkedEntry {
        path: "/work/test.txt".to_string(),
        file_name: "test.txt".to_string(),
        is_file: true,
    };

    assert!(is_rust_file(&rust_entry));
    assert!(!is_rust_file(&non_rust_entry));
}

#[test]
fn rust_extension_edge_cases() {
    assert!(has_rust_extension("a.rs"));
    assert!(has_rust_extension("..rs"));
    assert!(has_rust_extension("lib.test.rs"));
    assert!(!has_rust_extension(".rs"));
    assert!(!has_rust_extension("rs"));
    assert!(!has_rust_extension(""));
    assert!(!has_rust_extension("a.RS"));
    assert!(!has_rust_extension("a.rs "));
    assert!(!has_rust_extension("a.rss"));
    let directory = WalkedEntry {
        path: "/work/dir.rs".to_string(),
        file_name: "dir.rs".to_string(),
        is_file: false,
    };
    assert!(!is_rust_file(&directory));
}

#[test]
fn test_collect_rust_files() {
    let entry = |dir: &str, name: &str, is_file: bool| WalkedEntry {
        path: format!("/work/project/{}/{}", dir, name),
        file_name: name.to_string(),
        is_file,
    };
    let entries = vec![
        entry("src", "lib.rs", true),
        entry("src", "main.rs", true),
        entry("src", "config.toml", true),
        entry("tests", "integration_test.rs", true),
        entry("examples", "example.rs", true),
        entry("examples", "nested.rs", false),
        entry("src", "lib.rs", true),
    ];

    let rust_files = collect_rust_files(&entries);

    assert_eq!(rust_files.len(), 4);
    assert!(rust_files.iter().any(|p| p.ends_with("lib.rs")));
    assert!(rust_files.iter().any(|p| p.ends_with("main.rs")));
    assert!(rust_files.iter().any(|p| p.ends_with("integration_test.rs")));
    assert!(rust_files.iter().any(|p| p.ends_with("example.rs")));
    assert_eq!(
        rust_files,
        vec![
            "/work/project/src/lib.rs".to_string(),
            "/work/project/src/main.rs".to_string(),
            "/work/project/tests/integration_test.rs".to_string(),
            "/work/project/examples/example.rs".to_string(),
        ]
    );
}

#[test]
fn source_roots_are_the_four_directories() {
    assert_eq!(source_roots(), vec!["src", "tests", "examples", "benches"]);
}

#[test]
fn test_is_library_file() {
    let project_root = root();

    let lib_rs = below_root(&["src", "lib.rs"]);
    let main_rs = below_root(&["src", "main.rs"]);
    let module_rs = below_root(&["src", "module.rs"]);
    let bin_file = below_root(&["src", "bin", "binary.rs"]);
    let build_rs = below_root(&["build.rs"]);

    assert!(!is_library_file(&lib_rs, &project_root)); // lib.rs is allowed
    assert!(!is_library_file(&main_rs, &project_root)); // main.rs is not library
    assert!(is_library_file(&module_rs, &project_root)); // module in src/ is library
    assert!(!is_library_file(&bin_file, &project_root)); // bin/ files are not library
    assert!(!is_library_file(&build_rs, &project_root)); // build.rs is not library
}

#[test]
fn library_context_edge_cases() {
    let project_root = root();
    assert!(is_library_file(&below_root(&["src", "a", "b", "deep.rs"]), &project_root));
    assert!(!is_library_file(&below_root(&["tests", "it.rs"]), &project_root));
    assert!(!is_library_file(&below_root(&["examples", "src", "x.rs"]), &project_root));
    // the check is on the path alone: the directory itself passes it
    assert!(is_library_file(&below_root(&["src"]), &project_root));
    assert!(!is_library_file(&project_root, &project_root));
    assert!(!is_library_file(&parts(&["/", "work"]), &project_root));
    assert!(!is_library_file(&parts(&["/", "other", "project", "src", "m.rs"]), &project_root));
    assert!(!is_library_file(&Vec::new(), &project_root));
    // only the three designated places are no library code, not every file called alike
    assert!(is_library_file(&below_root(&["src", "sub", "main.rs"]), &project_root));
    assert!(is_library_file(&below_root(&["src", "sub", "lib.rs"]), &project_root));
    assert!(is_library_file(&below_root(&["src", "build.rs"]), &project_root));
    assert!(is_library_file(&below_root(&["src", "binary", "x.rs"]), &project_root));
    assert!(is_library_file(&below_root(&["src", "sub", "bin", "x.rs"]), &project_root));
    assert!(is_library_file(&below_root(&["src", "lib.rs", "x.rs"]), &project_root));
    assert!(!is_library_file(&below_root(&["src", "bin"]), &project_root));
    assert!(!is_library_file(&below_root(&["src", "bin", "tool.rs"]), &project_root));
    assert!(!is_library_file(&below_root(&["src", "bin", "tool", "main.rs"]), &project_root));
    // a root that has a component called bin
    let bin_root = parts(&["/", "usr", "bin", "proj"]);
    assert!(is_library_file(&parts(&["/", "usr", "bin", "proj", "src", "x.rs"]), &bin_root));
    assert!(!is_library_file(&parts(&["/", "usr", "bin", "proj", "src", "bin", "x.rs"]), &bin_root));

    assert_eq!(classify(&below_root(&["src", "build.rs"]), &project_root), FileContext::Library);
    assert_eq!(classify(&below_root(&["src", "sub", "main.rs"]), &project_root), FileContext::Library);
    assert_eq!(classify(&below_root(&["src", "module.rs"]), &project_root), FileContext::Library);
    assert_eq!(classify(&below_root(&["src", "lib.rs"]), &project_root), FileContext::Application);
    assert_eq!(classify(&below_root(&["src", "main.rs"]), &project_root), FileContext::Application);
    assert_eq!(classify(&below_root(&["build.rs"]), &project_root), FileContext::Application);
    assert_eq!(classify(&below_root(&["tests", "it.rs"]), &project_root), FileContext::Application);
    assert_eq!(
        classify(&below_root(&["src", "bin", "tool.rs"]), &project_root),
        FileContext::Application
    );
}

#[test]
fn build_script_below_src_is_library_code() {
    let rust_files = vec![source(&["src", "build.rs"], "let v = f().unwrap();")];
    let findings = check_code_patterns(&rules(), &rust_files, &root());
    assert_eq!(findings.len(), 1);
    assert_eq!(findings[0].code, "CODE001");
    assert_eq!(findings[0].severity, Severity::Warning);
    assert_eq!(findings[0].line_number, Some(1));
}

#[test]
fn files_called_like_the_entry_point_are_library_code() {
    let content = "let v = f().unwrap();";
    for names in [vec!["src", "sub", "main.rs"], vec!["src", "sub", "bin", "x.rs"]] {
        let findings = scan_file(&rules(), &source(&names, content), &root());
        assert_eq!(findings.len(), 1);
        assert_eq!(findings[0].code, "CODE001");
    }
    let bin_root = parts(&["/", "usr", "bin", "proj"]);
    let file = SourceFile {
        path: "/usr/bin/proj/src/x.rs".to_string(),
        components: parts(&["/", "usr", "bin", "proj", "src", "x.rs"]),
        content: Ok(content.to_string()),
    };
    let findings = scan_file(&rules(), &file, &bin_root);
    assert_eq!(findings.len(), 1);
    assert_eq!(findings[0].code, "CODE001");
}

#[test]
fn paths_are_spelled_from_their_components() {
    assert_eq!(spell(&parts(&[])), "");
    assert_eq!(spell(&parts(&["/"])), "/");
    assert_eq!(spell(&parts(&["/", "work", "project", "src", "a.rs"])), "/work/project/src/a.rs");
    assert_eq!(spell(&parts(&[".", "src", "a.rs"])), "./src/a.rs");
    assert_eq!(spell(&parts(&["src"])), "src");
    assert_eq!(spell(&parts(&["..", "x"])), "../x");
    assert_eq!(spell(&parts(&["a", "", "b"])), "a/b");
    assert_eq!(spell(&parts(&["", "a"])), "a");
    let file = SourceFile::new(parts(&["/", "p", "src", "m.rs"]), Err("denied".to_string()));
    assert_eq!(file.path, "/p/src/m.rs");
    assert_eq!(file.components, parts(&["/", "p", "src", "m.rs"]));
    assert_eq!(file.content, Err("denied".to_string()));
}

#[test]
fn findings_in_a_list_name_their_own_file() {
    let content = "a().unwrap();\n// TODO x\n// nothing\n// FIXME y\n";
    let files = vec![
        source(&["src", "main.rs"], content),
        source(&["src", "lib_code.rs"], content),
        source(&["src", "bin", "tool.rs"], content),
        source(&["build.rs"], content),
    ];
    let findings = check_code_patterns(&rules(), &files, &root());
    for application in ["/work/project/src/main.rs", "/work/project/src/bin/tool.rs", "/work/project/build.rs"] {
        let named: Vec<_> =
            findings.iter().filter(|f| f.file_path.as_deref() == Some(application)).collect();
        assert!(named.iter().all(|f| f.code == "CODE004"));
        let lines: Vec<usize> = named.iter().map(|f| f.line_number.unwrap()).collect();
        assert_eq!(lines, vec![2, 4]);
    }
    let library: Vec<&str> = findings
        .iter()
        .filter(|f| f.file_path.as_deref() == Some("/work/project/src/lib_code.rs"))
        .map(|f| f.code.as_str())
        .collect();
    assert_eq!(library, vec!["CODE001", "CODE004", "CODE004"]);
}

#[test]
fn judge_line_goes_by_the_answers() {
    let all = judge_line(FileContext::Library, true, true, true, Some("TODO"), "src/a.rs", 7);
    let codes: Vec<&str> = all.iter().map(|f| f.code.as_str()).collect();
    assert_eq!(codes, vec!["CODE001", "CODE002", "CODE003", "CODE004"]);
    assert!(all.iter().all(|f| f.line_number == Some(7)));
    assert!(all.iter().all(|f| f.file_path.as_deref() == Some("src/a.rs")));
    assert_eq!(all[0].severity, Severity::Warning);
    assert_eq!(all[1].severity, Severity::Note);
    assert_eq!(all[2].severity, Severity::Note);
    assert_eq!(all[3].severity, Severity::Note);
    assert_eq!(all[3].message, "Found 'TODO' comment. Address or create an issue for it.");

    let application =
        judge_line(FileContext::Application, true, true, true, Some("XXX"), "src/main.rs", 1);
    assert_eq!(application.len(), 1);
    assert_eq!(application[0].code, "CODE004");
    assert_eq!(application[0].message, "Found 'XXX' comment. Address or create an issue for it.");

    assert!(judge_line(FileContext::Library, false, false, false, None, "p", 1).is_empty());
    assert!(judge_line(FileContext::Application, true, true, true, None, "p", 1).is_empty());
    let one = judge_line(FileContext::Library, false, true, false, None, "p", 3);
    assert_eq!(one.len(), 1);
    assert_eq!(one[0].code, "CODE002");
    let empty_marker = judge_line(FileContext::Application, false, false, false, Some(""), "p", 1);
    assert_eq!(empty_marker[0].message, "Found '' comment. Address or create an issue for it.");
}

#[test]
fn lint_lists() {
    assert!(list_names("warnings", "warnings"));
    assert!(list_names(" clippy::all ,\twarnings ", "warnings"));
    assert!(list_names("a,,warnings,", "warnings"));
    assert!(!list_names("", "warnings"));
    assert!(list_names("", ""));
    assert!(!list_names("warnings2, unused warnings", "warnings"));
    assert!(!list_names("war nings", "warnings"));
    let lists = |v: &[Option<&str>]| -> Vec<Option<String>> {
        v.iter().map(|g| g.map(|s| s.to_string())).collect()
    };
    assert!(!lint_is_named(&lists(&[]), "warnings"));
    assert!(!lint_is_named(&lists(&[None, None]), "warnings"));
    assert!(lint_is_named(&lists(&[None, Some("a"), Some("b, warnings")]), "warnings"));
    assert!(!lint_is_named(&lists(&[Some("a"), Some("b")]), "warnings"));
    assert!(lint_is_named(&lists(&[Some("warnings"), None]), "warnings"));
}

#[test]
fn test_check_code_patterns_unwrap_detection() {
    let test_content = r#"
fn test_function() {
    let result = some_operation().unwrap(); // This should be flagged
    let other = another_op().expect("failed"); // This should be flagged too
    println!("Debug output"); // This should be flagged in library context
    // TODO: Fix this later // This should be flagged
}
"#;
    let rust_files = vec![source(&["src", "module.rs"], test_content)];
    let findings = check_code_patterns(&rules(), &rust_files, &root());

    // Should find unwrap, expect, println, and TODO
    assert!(findings.iter().any(|f| f.code == "CODE001")); // unwrap
    assert!(findings.iter().any(|f| f.code == "CODE002")); // expect
    assert!(findings.iter().any(|f| f.code == "CODE003")); // println
    assert!(findings.iter().any(|f| f.code == "CODE004")); // TODO

    // Check that line numbers are correct
    let unwrap_finding = findings.iter().find(|f| f.code == "CODE001").unwrap();
    assert_eq!(unwrap_finding.line_number, Some(3));
}

#[test]
fn one_instance_of_each_rule_gives_one_finding_each() {
    let content = "fn f() {\n    a().unwrap();\n    b().expect(\"x\");\n    dbg!(c);\n    // FIXME later\n}\n";
    let file = source(&["src", "module.rs"], content);
    let findings = scan_file(&rules(), &file, &root());
    assert_eq!(findings.len(), 4);
    let expected = [
        ("CODE001", 2usize, Severity::Warning, "'.unwrap()' used in library context. Consider using '?' or pattern matching."),
        ("CODE002", 3, Severity::Note, "'.expect()' used in library context. While better than unwrap, prefer '?' or specific error handling."),
        ("CODE003", 4, Severity::Note, "Diagnostic macro (println! or dbg!) found in library context. Remove before release."),
        ("CODE004", 5, Severity::Note, "Found 'FIXME' comment. Address or create an issue for it."),
    ];
    for (f, (code, line, severity, message)) in findings.iter().zip(expected.iter()) {
        assert_eq!(f.code, *code);
        assert_eq!(f.line_number, Some(*line));
        assert_eq!(f.severity, *severity);
        assert_eq!(f.message, *message);
        assert_eq!(f.file_path.as_deref(), Some("/work/project/src/module.rs"));
    }
}

#[test]
fn all_rules_on_one_line_come_in_rule_order() {
    let content = "x.unwrap(); y.expect(\"e\"); println!(\"p\"); // XXX";
    let file = source(&["src", "module.rs"], content);
    let findings = scan_file(&rules(), &file, &root());
    let codes: Vec<&str> = findings.iter().map(|f| f.code.as_str()).collect();
    assert_eq!(codes, vec!["CODE001", "CODE002", "CODE003", "CODE004"]);
    assert!(findings.iter().all(|f| f.line_number == Some(1)));
    assert_eq!(findings[3].message, "Found 'XXX' comment. Address or create an issue for it.");
}

#[test]
fn findings_come_in_ascending_line_order() {
    let content = "// TODO a\r\nlet x = y.unwrap();\r\n\r\n// TODO b\n\nz.unwrap()";
    let file = source(&["src", "module.rs"], content);
    let findings = scan_file(&rules(), &file, &root());
    let lines: Vec<usize> = findings.iter().map(|f| f.line_number.unwrap()).collect();
    assert_eq!(lines, vec![1, 2, 4, 6]);
}

#[test]
fn application_files_get_only_the_pending_work_rule() {
    let content = "fn main() {\n    a().unwrap();\n    b().expect(\"x\");\n    println!(\"p\");\n    // TODO later\n}\n";
    for names in [
        vec!["src", "main.rs"],
        vec!["src", "bin", "tool.rs"],
        vec!["build.rs"],
        vec!["src", "lib.rs"],
        vec!["tests", "it.rs"],
    ] {
        let file = source(&names, content);
        let findings = scan_file(&rules(), &file, &root());
        assert_eq!(findings.len(), 1);
        assert_eq!(findings[0].code, "CODE004");
        assert_eq!(findings[0].line_number, Some(5));
        assert_eq!(findings[0].message, "Found 'TODO' comment. Address or create an issue for it.");
    }
}

#[test]
fn test_check_code_patterns_build_script_exclusion() {
    let build_content = r#"
fn main() {
    let result = some_operation().unwrap(); // This should NOT be flagged in build.rs
    println!("Building..."); // This should NOT be flagged in build.rs
}
"#;
    let rust_files = vec![source(&["build.rs"], build_content)];
    let findings = check_code_patterns(&rules(), &rust_files, &root());

    // Should not find CODE001, CODE002, or CODE003 in build.rs
    assert!(!findings.iter().any(|f| f.code == "CODE001"));
    assert!(!findings.iter().any(|f| f.code == "CODE002"));
    assert!(!findings.iter().any(|f| f.code == "CODE003"));
}

#[test]
fn test_check_code_patterns_file_read_error() {
    let components = below_root(&["nonexistent.rs"]);
    let non_existent_file = SourceFile {
        path: path_text(&components),
        components,
        content: Err("No such file or directory (os error 2)".to_string()),
    };
    let rust_files = vec![non_existent_file];

    let findings = check_code_patterns(&rules(), &rust_files, &root());

    assert_eq!(findings.len(), 1);
    assert_eq!(findings[0].code, "IO001");
    assert_eq!(findings[0].severity, Severity::Warning);
    assert_eq!(
        findings[0].message,
        "Failed to read file \"/work/project/nonexistent.rs\": No such file or directory (os error 2)"
    );
    assert_eq!(findings[0].file_path.as_deref(), Some("/work/project/nonexistent.rs"));
    assert_eq!(findings[0].line_number, None);
}

#[test]
fn test_check_project_structure_missing_source_files() {
    // A manifest but no source files
    let manifest = create_test_manifest("test-project");

    let findings = check_project_structure(&empty_layout(), Some(&manifest));

    assert!(findings.iter().any(|f| f.code == "STRUCT001"));
}

#[test]
fn test_check_project_structure_missing_readme() {
    let layout = ProjectLayout { has_main_rs: true, ..empty_layout() };

    let manifest = create_test_manifest("test-project");

    let findings = check_project_structure(&layout, Some(&manifest));

    assert!(findings.iter().any(|f| f.code == "STRUCT002"));
    assert!(!findings.iter().any(|f| f.code == "STRUCT001"));
}

#[test]
fn test_check_project_structure_missing_license() {
    let layout = ProjectLayout { has_main_rs: true, ..empty_layout() };

    let mut manifest = create_test_manifest("test-project");
    manifest.package.as_mut().unwrap().license = None; // No license specified

    let findings = check_project_structure(&layout, Some(&manifest));

    assert!(findings.iter().any(|f| f.code == "STRUCT003"));
}

#[test]
fn test_check_project_structure_with_readme_and_license() {
    let layout = ProjectLayout {
        has_main_rs: true,
        has_readme: true,
        has_license_file: true,
        ..empty_layout()
    };

    let manifest = create_test_manifest("test-project");

    let findings = check_project_structure(&layout, Some(&manifest));

    // Should not flag missing README or LICENSE
    assert!(!findings.iter().any(|f| f.code == "STRUCT002"));
    assert!(!findings.iter().any(|f| f.code == "STRUCT003"));
    assert!(findings.is_empty());
}

#[test]
fn structure_findings_in_full() {
    let mut manifest = create_test_manifest("test-project");
    manifest.package.as_mut().unwrap().license = Some("".to_string());
    let findings = check_project_structure(&empty_layout(), Some(&manifest));
    assert_eq!(findings.len(), 3);
    assert_eq!(findings[0].code, "STRUCT001");
    assert_eq!(findings[0].severity, Severity::Warning);
    assert_eq!(findings[0].file_path.as_deref(), Some("Cargo.toml"));
    assert_eq!(
        findings[0].message,
        "Project has neither src/lib.rs, src/main.rs, nor src/bin/ directory. Is it a virtual workspace or missing source files?"
    );
    assert_eq!(findings[1].code, "STRUCT002");
    assert_eq!(findings[1].severity, Severity::Note);
    assert_eq!(findings[1].file_path.as_deref(), Some("/work/project/README.md"));
    assert_eq!(findings[1].message, "Missing README.md file in project root. Consider adding one.");
    assert_eq!(findings[2].code, "STRUCT003");
    assert_eq!(findings[2].severity, Severity::Warning);
    assert_eq!(findings[2].file_path.as_deref(), Some("Project Root"));
    assert_eq!(
        findings[2].message,
        "Missing LICENSE file in project root. Consider adding one (e.g., LICENSE-MIT or LICENSE-APACHE)."
    );
}

#[test]
fn structure_readme_excuses() {
    let layout = ProjectLayout { has_lib_rs: true, has_license_file: true, ..empty_layout() };
    let with_readme = |readme: Option<ReadmeField>, target_exists: bool| {
        let mut manifest = create_test_manifest("test-project");
        manifest.package.as_mut().unwrap().readme = readme;
        let layout = ProjectLayout { readme_target_exists: target_exists, ..layout.clone() };
        check_project_structure(&layout, Some(&manifest)).len()
    };
    assert_eq!(with_readme(None, false), 1);
    assert_eq!(with_readme(Some(ReadmeField::Flag(false)), false), 0);
    assert_eq!(with_readme(Some(ReadmeField::Flag(true)), false), 1);
    assert_eq!(with_readme(Some(ReadmeField::Path("docs/intro.md".to_string())), true), 0);
    assert_eq!(with_readme(Some(ReadmeField::Path("docs/intro.md".to_string())), false), 1);
    assert_eq!(with_readme(Some(ReadmeField::Other("123".to_string())), true), 1);
}

#[test]
fn structure_without_manifest_or_package_gives_nothing() {
    assert!(check_project_structure(&empty_layout(), None).is_empty());
    let workspace = CargoManifest {
        package: None,
        dependencies: None,
        dev_dependencies: None,
        build_dependencies: None,
    };
    assert!(check_project_structure(&empty_layout(), Some(&workspace)).is_empty());
}

#[test]
fn readme_target_is_the_path_of_the_manifest() {
    let mut manifest = create_test_manifest("test-project");
    assert_eq!(readme_target(&manifest), None);
    manifest.package.as_mut().unwrap().readme = Some(ReadmeField::Path("docs/a.md".to_string()));
    assert_eq!(readme_target(&manifest), Some("docs/a.md"));
    manifest.package.as_mut().unwrap().readme = Some(ReadmeField::Flag(false));
    assert_eq!(readme_target(&manifest), None);
}

#[test]
fn license_names_cover_the_common_spellings() {
    let names = license_file_names();
    assert_eq!(names.len(), 13);
    for name in ["LICENSE", "LICENSE.txt", "LICENSE-MIT", "LICENSE-APACHE", "COPYING", "UNLICENSE"] {
        assert!(names.iter().any(|n| n == name));
        assert!(names.iter().any(|n| *n == name.to_uppercase()));
        assert!(names.iter().any(|n| *n == name.to_lowercase()));
    }
}

fn lint_target(name: &str, content: Option<&str>) -> LintTarget {
    LintTarget {
        path: format!("/work/project/src/{}", name),
        file_name: name.to_string(),
        content: content.map(|s| s.to_string()),
    }
}

#[test]
fn test_check_missing_denied_lints_missing_warnings() {
    let lib_content = r#"
// No deny attributes here
pub fn hello() {
    println!("Hello, world!");
}
"#;
    let targets = vec![lint_target("lib.rs", Some(lib_content))];

    let config = create_test_config();
    let findings = check_missing_denied_lints(&rules(), &targets, &config);

    assert!(findings.iter().any(|f| f.code == "LINT001"));
    assert_eq!(findings.len(), 1);
    assert_eq!(
        findings[0].message,
        "Consider adding `#![deny(warnings)]` to the top of \"lib.rs\" for stricter linting."
    );
    assert_eq!(findings[0].severity, Severity::Note);
    assert_eq!(findings[0].file_path.as_deref(), Some("/work/project/src/lib.rs"));
}

#[test]
fn test_check_missing_denied_lints_has_warnings() {
    let lib_content = r#"
#![deny(warnings)]

pub fn hello() {
    println!("Hello, world!");
}
"#;
    let targets = vec![lint_target("lib.rs", Some(lib_content))];

    let config = create_test_config();
    let findings = check_missing_denied_lints(&rules(), &targets, &config);

    // Should not flag missing warnings denial
    assert!(!findings.iter().any(|f| f.code == "LINT001"));
}

#[test]
fn test_check_missing_denied_lints_disabled_check() {
    let targets = vec![lint_target("lib.rs", Some("pub fn hello() {}"))];

    // LINT001 disabled
    let mut config = Config::default();
    config.checks.enabled.insert("LINT001".to_string(), false);

    let findings = check_missing_denied_lints(&rules(), &targets, &config);

    // Should not flag anything when check is disabled
    assert!(!findings.iter().any(|f| f.code == "LINT001"));
}

#[test]
fn denied_lints_in_lists_and_several_attributes() {
    let config = Config::default();
    let found = |content: &str| {
        check_missing_denied_lints(&rules(), &vec![lint_target("main.rs", Some(content))], &config)
            .len()
    };
    assert_eq!(found("#![deny(clippy::all, warnings)]"), 0);
    assert_eq!(found("#![deny(clippy::all,warnings  )]"), 0);
    assert_eq!(found("#![deny(clippy::all)]\n#![deny( warnings )]"), 0);
    assert_eq!(found("#![deny(clippy::all)]"), 1);
    assert_eq!(found("#![deny(warnings2)]"), 1);
    assert_eq!(found("#![deny(missing_docs, unused warnings)]"), 1);
    assert_eq!(found("#![warn(warnings)]"), 1);
    assert_eq!(found(""), 1);
}

#[test]
fn unreadable_lint_target_gives_nothing_and_each_target_is_checked() {
    let config = Config::default();
    let targets = vec![
        lint_target("lib.rs", None),
        lint_target("main.rs", Some("fn main() {}")),
        lint_target("lib.rs", Some("#![deny(warnings)]")),
    ];
    let findings = check_missing_denied_lints(&rules(), &targets, &config);
    assert_eq!(findings.len(), 1);
    assert_eq!(findings[0].file_path.as_deref(), Some("/work/project/src/main.rs"));
    assert!(findings[0].message.contains("\"main.rs\""));
}

#[test]
fn test_regex_patterns() {
    let unwrap_regex = LinePattern::compile(UNWRAP_PATTERN).unwrap();
    let expect_regex = LinePattern::compile(EXPECT_PATTERN).unwrap();
    let println_dbg_regex = LinePattern::compile(DEBUG_OUTPUT_PATTERN).unwrap();
    let todo_comment_regex = LinePattern::compile(PENDING_WORK_PATTERN).unwrap();
    let deny_lint_regex = LinePattern::compile(DENY_LINT_PATTERN).unwrap();

    assert!(unwrap_regex.matches("result.unwrap()"));
    assert!(unwrap_regex.matches("some_func().unwrap()"));
    assert!(!unwrap_regex.matches("unwrap_or_default()"));

    assert!(expect_regex.matches(r#"result.expect("failed")"#));
    assert!(expect_regex.matches("result.expect("));
    assert!(!expect_regex.matches("expected_value"));

    assert!(println_dbg_regex.matches("println!(\"hello\")"));
    assert!(println_dbg_regex.matches("dbg!(value)"));
    assert!(!println_dbg_regex.matches("print_value()"));

    assert!(todo_comment_regex.matches("// TODO: fix this"));
    assert!(todo_comment_regex.matches("// FIXME: broken"));
    assert!(todo_comment_regex.matches("//XXX urgent"));
    assert!(!todo_comment_regex.matches("// NOTE: this is fine"));

    assert!(deny_lint_regex.matches("#![deny(warnings)]"));
    assert!(deny_lint_regex.matches("#![deny(clippy::all, warnings)]"));
}

#[test]
fn pattern_groups() {
    let todo = LinePattern::compile(PENDING_WORK_PATTERN).unwrap();
    assert_eq!(todo.first_group("let x = 1; //   FIXME: y"), Some("FIXME".to_string()));
    assert_eq!(todo.first_group("// TODO then // XXX"), Some("TODO".to_string()));
    assert_eq!(todo.first_group("// NOTE"), None);
    let deny = LinePattern::compile(DENY_LINT_PATTERN).unwrap();
    assert_eq!(
        deny.all_groups("#![deny(a, b)]\n#![deny(c)]\n#![deny()]"),
        vec![Some("a, b".to_string()), Some("c".to_string())]
    );
    assert!(deny.all_groups("nothing").is_empty());
    assert!(LinePattern::compile("(unclosed").is_none());
    assert!(PatternRules::compile("a", "b", "(", "d", "e").is_none());
    assert!(PatternRules::compile("a", "b", "c", "d", "e").is_some());
}

#[test]
fn test_parallel_processing() {
    // Several files, each with one unwrap and one TODO
    let mut rust_files = Vec::new();
    for i in 0..10 {
        let name = format!("module_{}.rs", i);
        let content = format!(
            r#"
// TODO: implement module {}
pub fn function_{}() {{
    let result = some_operation().unwrap();
}}
"#,
            i, i
        );
        rust_files.push(source(&["src", name.as_str()], &content));
    }

    let findings = check_code_patterns(&rules(), &rust_files, &root());

    // Should find issues in all files
    assert_eq!(findings.iter().filter(|f| f.code == "CODE001").count(), 10); // unwrap
    assert_eq!(findings.iter().filter(|f| f.code == "CODE004").count(), 10); // TODO

    // file by file, in the order of the list
    for (i, pair) in findings.chunks(2).enumerate() {
        let path = format!("/work/project/src/module_{}.rs", i);
        assert_eq!(pair[0].code, "CODE004");
        assert_eq!(pair[0].line_number, Some(2));
        assert_eq!(pair[0].file_path.as_deref(), Some(path.as_str()));
        assert_eq!(pair[1].code, "CODE001");
        assert_eq!(pair[1].line_number, Some(4));
        assert_eq!(pair[1].file_path.as_deref(), Some(path.as_str()));
    }
}
