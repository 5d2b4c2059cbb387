use cargo_dokita::crates_io_api::{
    get_latest_versions_from_crates_io, registry_url, CrateData, CrateVersion, CratesIoCrate,
    RegistryReply, CRATES_IO_API_BASE, REQUEST_TIMEOUT_SECS, USER_AGENT,
};

fn answer(max_version: &str, versions: &[(&str, bool)]) -> CratesIoCrate {
    CratesIoCrate::new(
        CrateData { max_version: max_version.to_string() },
        versions.iter().map(|(n, y)| CrateVersion { num: n.to_string(), yanked: *y }).collect(),
    )
}

fn answered(status: &str, success: bool, body: Result<CratesIoCrate, &str>) -> RegistryReply {
    RegistryReply::Answered {
        success,
        status: status.to_string(),
        body: body.map_err(|e| e.to_string()),
    }
}

#[test]
fn test_successful_api_call() {
    let reply = answered(
        "200 OK",
        true,
        Ok(answer("1.2.3", &[("1.2.3", false), ("1.2.2", false), ("1.2.1", true)])),
    );
    let result = get_latest_versions_from_crates_io("serde", &reply);

    assert!(result.is_ok());
    assert_eq!(result.unwrap(), "1.2.3");
}

#[test]
fn test_successful_api_call_with_prerelease() {
    let reply =
        answered("200 OK", true, Ok(answer("2.0.0-beta.1", &[("2.0.0-beta.1", false), ("1.9.9", false)])));
    let result = get_latest_versions_from_crates_io("tokio", &reply);

    assert!(result.is_ok());
    assert_eq!(result.unwrap(), "2.0.0-beta.1");
}

#[test]
fn test_api_returns_404() {
    let reply = answered("404 Not Found", false, Err("Not Found"));
    let result = get_latest_versions_from_crates_io("nonexistent-crate", &reply);

    assert!(result.is_err());
    let error_msg = result.unwrap_err();
    assert!(error_msg
        .contains("crates.io API request for nonexistent-crate failed with status: 404"));
    assert_eq!(
        error_msg,
        "crates.io API request for nonexistent-crate failed with status: 404 Not Found"
    );
}

#[test]
fn test_api_returns_500() {
    let reply = answered("500 Internal Server Error", false, Err("Internal Server Error"));
    let result = get_latest_versions_from_crates_io("some-crate", &reply);

    assert!(result.is_err());
    let error_msg = result.unwrap_err();
    assert!(error_msg.contains("crates.io API request for some-crate failed with status: 500"));
}

#[test]
fn failed_status_wins_over_a_readable_body() {
    let reply = answered("503 Service Unavailable", false, Ok(answer("1.0.0", &[])));
    assert!(get_latest_versions_from_crates_io("x", &reply).is_err());
}

#[test]
fn test_invalid_json_response() {
    let reply = answered("200 OK", true, Err("key must be a string at line 1 column 3"));
    let result = get_latest_versions_from_crates_io("invalid-json-crate", &reply);

    assert!(result.is_err());
    let error_msg = result.unwrap_err();
    assert!(error_msg
        .contains("Failed to parse JSON response from crates.io for invalid-json-crate"));
    assert_eq!(
        error_msg,
        "Failed to parse JSON response from crates.io for invalid-json-crate: key must be a string at line 1 column 3"
    );
}

#[test]
fn unreachable_registry() {
    let reply = RegistryReply::Unreachable("connection refused".to_string());
    let result = get_latest_versions_from_crates_io("serde", &reply);
    assert_eq!(
        result.unwrap_err(),
        "Something went wrong - Failed to send request to crate.io for serde: connection refused"
    );
}

#[test]
fn test_crate_name_with_special_characters() {
    let reply = answered("200 OK", true, Ok(answer("1.2.3", &[("1.2.3", false)])));
    let result = get_latest_versions_from_crates_io("my-special_crate.name", &reply);

    assert!(result.is_ok());
    assert_eq!(result.unwrap(), "1.2.3");
    assert_eq!(
        registry_url("http://127.0.0.1:5000", "my-special_crate.name"),
        "http://127.0.0.1:5000/my-special_crate.name"
    );
}

#[test]
fn test_real_world_response_structure() {
    let parsed = answer("1.0.210", &[("1.0.210", false), ("1.0.209", false), ("1.0.208", true)]);
    assert_eq!(parsed.max_version(), "1.0.210");
    assert_eq!(parsed.versions().len(), 3);

    // The first version matches max_version
    assert_eq!(parsed.versions()[0].num, parsed.max_version());
    assert!(!parsed.versions()[0].yanked);

    // The yanked version
    assert!(parsed.versions()[2].yanked);
}

#[test]
fn test_constants() {
    assert_eq!(CRATES_IO_API_BASE, "https://crates.io/api/v1/crates");
    assert!(USER_AGENT.contains("cargo-dokita"));
    assert!(USER_AGENT.contains("0.1.0"));
    assert_eq!(REQUEST_TIMEOUT_SECS, 30);
}

#[test]
fn test_user_agent_format() {
    let user_agent = USER_AGENT;
    assert!(user_agent.contains("/"));
    let parts: Vec<&str> = user_agent.split('/').collect();
    assert_eq!(parts.len(), 2);
    assert!(!parts[0].is_empty()); // package name
    assert!(!parts[1].is_empty()); // version
}

#[test]
fn test_url_construction_logic() {
    let base = "http://example.com";
    let crate_name = "serde";
    let expected_url = registry_url(base, crate_name);

    assert_eq!(expected_url, "http://example.com/serde");
    assert_eq!(
        registry_url(CRATES_IO_API_BASE, "regex"),
        "https://crates.io/api/v1/crates/regex"
    );
}
