use pin_and_bump::find_action_references;

#[test]
fn test_find_action_references() {
    let input = r#"
jobs:
  test:
    steps:
      - uses: actions/checkout@v4
      - uses: actions/setup-go@v5
      - uses: docker/setup-buildx-action@v3.0.0
      - uses: owner/repo@abc123def456789012345678901234567890abcd
      - name: Something
"#;

    let refs = find_action_references(input).unwrap();

    assert_eq!(refs.len(), 3);
    assert_eq!(refs[0].owner, "actions");
    assert_eq!(refs[0].repo, "checkout");
    assert_eq!(refs[0].reference, "v4");

    assert_eq!(refs[1].owner, "actions");
    assert_eq!(refs[1].repo, "setup-go");
    assert_eq!(refs[1].reference, "v5");

    assert_eq!(refs[2].owner, "docker");
    assert_eq!(refs[2].repo, "setup-buildx-action");
    assert_eq!(refs[2].reference, "v3.0.0");
}

#[test]
fn test_skips_already_pinned_shas() {
    let input = r#"
jobs:
  test:
    steps:
      - uses: actions/checkout@8ade135a41bc03ea155e62e844d188df1ea18608 # v4
"#;

    let refs = find_action_references(input).unwrap();
    assert_eq!(refs.len(), 0);
}

#[test]
fn test_nested_workflow_structure() {
    let input = r#"
name: Complex Workflow
on: [push, pull_request]
jobs:
  build:
    runs-on: ubuntu-latest
    steps:
      - uses: actions/checkout@v4
      - uses: actions/setup-node@v4
  test:
    runs-on: ubuntu-latest
    steps:
      - uses: actions/checkout@v4
      - uses: actions/setup-go@v5
"#;

    let refs = find_action_references(input).unwrap();
    assert_eq!(refs.len(), 4);
    assert_eq!(refs[0].owner, "actions");
    assert_eq!(refs[0].repo, "checkout");
}

#[test]
fn test_finds_references_at_every_depth() {
    // Reference fields at depth 1, 2 and 3, under both mappings and
    // sequences, are all found, in traversal order.
    let input = r#"
uses: one/top@v1
middle:
  uses: two/mid@v2
deep:
  steps:
    - uses: three/deep@v3
"#;

    let refs = find_action_references(input).unwrap();
    assert_eq!(refs.len(), 3);
    assert_eq!(refs[0].owner, "one");
    assert_eq!(refs[1].owner, "two");
    assert_eq!(refs[2].owner, "three");
    assert_eq!(refs[2].repo, "deep");
    assert_eq!(refs[2].reference, "v3");
}

#[test]
fn test_uses_field_with_non_reference_value_is_skipped() {
    let input = r#"
jobs:
  test:
    steps:
      - uses: ./local/composite-action
      - uses: 42
      - uses: actions/checkout@v4
"#;

    let refs = find_action_references(input).unwrap();
    assert_eq!(refs.len(), 1);
    assert_eq!(refs[0].owner, "actions");
}

#[test]
fn test_unparseable_document_is_an_error() {
    let input = "jobs: [unclosed";
    assert!(find_action_references(input).is_err());
}

#[test]
fn test_empty_document_has_no_references() {
    let refs = find_action_references("name: nothing here").unwrap();
    assert_eq!(refs.len(), 0);
}
