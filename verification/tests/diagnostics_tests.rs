use cargo_dokita::diagnostics::{Finding, Severity};

#[test]
fn create_finding_with_file_path() {
    let code = "ML001";
    let message = String::from("No version specified in Cargo.toml");
    let severity = Severity::Error;
    let file_path = Some(String::from("/Cargo.toml"));

    let findings = Finding::new(code, message.clone(), severity, file_path.clone());

    assert_eq!(code, findings.code);
    assert_eq!(message, findings.message);
    assert_eq!(file_path, findings.file_path);
    assert_eq!(Severity::Error, findings.severity);
}

#[test]
fn create_finding_without_file_path() {
    let finding = Finding::new("ML002", "Test message".to_string(), Severity::Warning, None);
    assert_eq!(None, finding.file_path);
}
