use pin_and_bump::parse_uses_string;

#[test]
fn test_parse_uses_string() {
    let test_cases = vec![
        ("actions/checkout@v4", Some(("actions", "checkout", "v4"))),
        (
            "docker/build-push-action@v5.1.0",
            Some(("docker", "build-push-action", "v5.1.0")),
        ),
        (
            "github/codeql-action/analyze@v2",
            Some(("github", "codeql-action/analyze", "v2")),
        ),
        (
            "actions/checkout@8ade135a41bc03ea155e62e844d188df1ea18608",
            None,
        ), // Skip 40-char SHA
        (
            "actions/checkout@abc123 # v4",
            Some(("actions", "checkout", "abc123")),
        ), // Comment stripped
    ];

    for (input, expected) in test_cases {
        let result = parse_uses_string(input);
        if let Some((owner, repo, reference)) = expected {
            let action_ref = result.unwrap();
            assert_eq!(action_ref.owner, owner);
            assert_eq!(action_ref.repo, repo);
            assert_eq!(action_ref.reference, reference);
        } else {
            assert!(result.is_none());
        }
    }
}

#[test]
fn test_parse_rejects_malformed() {
    // No '@' separator at all: a local path, not an action reference.
    assert!(parse_uses_string("./local/action").is_none());
    // More than one '@'.
    assert!(parse_uses_string("owner/repo@v1@v2").is_none());
    // No '/' before the '@': no owner/repo split.
    assert!(parse_uses_string("justaname@v1").is_none());
    // Empty string.
    assert!(parse_uses_string("").is_none());
    // Only a comment.
    assert!(parse_uses_string("# a comment").is_none());
}

#[test]
fn test_parse_trims_whitespace() {
    let r = parse_uses_string("  actions/checkout@v4  ").unwrap();
    assert_eq!(r.owner, "actions");
    assert_eq!(r.repo, "checkout");
    assert_eq!(r.reference, "v4");

    // Whitespace around the reference after the '@' is trimmed too.
    let r = parse_uses_string("actions/checkout@ v4 # pinned").unwrap();
    assert_eq!(r.reference, "v4");
}

#[test]
fn test_parse_full_sha_edge_cases() {
    // Upper-case hexadecimal digits still count as a full pin.
    assert!(parse_uses_string(
        "actions/checkout@8ADE135A41BC03EA155E62E844D188DF1EA18608"
    )
    .is_none());
    // Thirty-nine hexadecimal digits are not a full pin.
    let r =
        parse_uses_string("actions/checkout@8ade135a41bc03ea155e62e844d188df1ea1860").unwrap();
    assert_eq!(r.reference, "8ade135a41bc03ea155e62e844d188df1ea1860");
    // Forty characters with one non-hexadecimal digit are not a full pin.
    let r =
        parse_uses_string("actions/checkout@8ade135a41bc03ea155e62e844d188df1ea1860z").unwrap();
    assert_eq!(r.reference, "8ade135a41bc03ea155e62e844d188df1ea1860z");
}

#[test]
fn test_parse_keeps_nested_repo_path() {
    let r = parse_uses_string("github/codeql-action/upload-sarif@v3").unwrap();
    assert_eq!(r.owner, "github");
    assert_eq!(r.repo, "codeql-action/upload-sarif");
    assert_eq!(r.reference, "v3");
}
