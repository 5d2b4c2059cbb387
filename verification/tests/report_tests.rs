use cargo_dokita::diagnostics::{Finding, Severity};
use cargo_dokita::report::{
    code_tag, detail, exit_code, human_line, severity_label, severity_tag, summary_line,
    OutputFormat, HEALTHY_MESSAGE,
};

fn finding(severity: Severity) -> Finding {
    Finding::new("X001", "message".to_string(), severity, None)
}

#[test]
fn format_flag_is_read_without_regard_to_case() {
    assert_eq!(OutputFormat::from_flag("json"), OutputFormat::Json);
    assert_eq!(OutputFormat::from_flag("JSON"), OutputFormat::Json);
    assert_eq!(OutputFormat::from_flag("Json"), OutputFormat::Json);
    assert_eq!(OutputFormat::from_flag("human"), OutputFormat::Human);
    assert_eq!(OutputFormat::from_flag("text"), OutputFormat::Human);
    assert_eq!(OutputFormat::from_flag(""), OutputFormat::Human);
    assert_eq!(OutputFormat::from_flag("jsonl"), OutputFormat::Human);
    assert_eq!(OutputFormat::from_flag(" json"), OutputFormat::Human);
    assert_eq!(OutputFormat::from_name("json"), OutputFormat::Json);
    assert_eq!(OutputFormat::from_name("JSON"), OutputFormat::Human);
    assert_eq!(OutputFormat::Json.name(), "json");
    assert_eq!(OutputFormat::Human.name(), "human");
}

#[test]
fn severity_labels() {
    assert_eq!(severity_label(Severity::Error), "ERROR");
    assert_eq!(severity_label(Severity::Warning), "WARNING");
    assert_eq!(severity_label(Severity::Note), "NOTE");
    assert!(Severity::Error.is_blocking());
    assert!(Severity::Warning.is_blocking());
    assert!(!Severity::Note.is_blocking());
}

#[test]
fn human_line_with_file_and_line() {
    let f = Finding::new(
        "CODE001",
        "'.unwrap()' used".to_string(),
        Severity::Warning,
        Some("src/a.rs".to_string()),
    )
    .with_line(15);
    assert_eq!(severity_tag(&f), "[WARNING]");
    assert_eq!(code_tag(&f), " (CODE001)");
    assert_eq!(detail(&f), ": '.unwrap()' used [src/a.rs15]");
    assert_eq!(human_line(&f), "[WARNING] (CODE001): '.unwrap()' used [src/a.rs15]");
}

#[test]
fn human_line_without_file() {
    let f = Finding::new("API001", "no answer".to_string(), Severity::Note, None);
    assert_eq!(human_line(&f), "[NOTE] (API001): no answer [N/A]");
    let f = Finding::new("MD005", "m".to_string(), Severity::Error, Some("Cargo.toml".to_string()));
    assert_eq!(human_line(&f), "[ERROR] (MD005): m [Cargo.toml]");
}

#[test]
fn summary_and_healthy_message() {
    assert_eq!(summary_line(0), "\nFound 0 issues:");
    assert_eq!(summary_line(12), "\nFound 12 issues:");
    assert_eq!(
        HEALTHY_MESSAGE,
        "No issues found. Your project looks healthy (based on current checks)!"
    );
}

#[test]
fn exit_code_fails_on_errors_and_warnings_only() {
    assert_eq!(exit_code(&vec![]), 0);
    assert_eq!(exit_code(&vec![finding(Severity::Note), finding(Severity::Note)]), 0);
    assert_eq!(exit_code(&vec![finding(Severity::Note), finding(Severity::Warning)]), 1);
    assert_eq!(exit_code(&vec![finding(Severity::Error)]), 1);
    assert_eq!(exit_code(&vec![finding(Severity::Warning), finding(Severity::Note)]), 1);
}

#[test]
fn finding_builders() {
    let f = Finding::new("A", "m".to_string(), Severity::Note, Some("p".to_string()));
    assert_eq!(f.line_number, None);
    let g = f.clone().with_line(3);
    assert_eq!(g.line_number, Some(3));
    assert_eq!(g.code, "A");
    assert_eq!(g.message, "m");
    assert_eq!(g.file_path.as_deref(), Some("p"));
    assert_eq!(g.severity, Severity::Note);
    let h = g.with_line(usize::MAX);
    assert_eq!(h.line_number, Some(usize::MAX));
}
