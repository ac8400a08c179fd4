use pin_and_bump::find_action_references;
use pin_and_bump::plan_change;
use pin_and_bump::replace_all_str;
use pin_and_bump::rewrite_document;
use pin_and_bump::ActionReference;
use pin_and_bump::Resolution;
use pin_and_bump::ResolvedPin;

fn make_ref(owner: &str, repo: &str, reference: &str) -> ActionReference {
    ActionReference {
        owner: owner.to_string(),
        repo: repo.to_string(),
        reference: reference.to_string(),
    }
}

fn make_pin(sha: &str, label: &str) -> ResolvedPin {
    ResolvedPin {
        commit_sha: sha.to_string(),
        label: label.to_string(),
    }
}

#[test]
fn test_full_workflow_transformation_with_mocked_api() {
    let before = r#"name: Test
on: [push]
jobs:
  test:
    runs-on: ubuntu-latest
    steps:
      - uses: actions/checkout@v4
      - uses: actions/setup-go@v5
      - run: go test
"#;

    let action_refs = find_action_references(before).unwrap();
    assert_eq!(action_refs.len(), 2);

    // The lookup service answers with a commit for each tag.
    let mut resolutions = Vec::new();
    for action_ref in action_refs {
        let sha = match action_ref.repo.as_str() {
            "checkout" => "8ade135a41bc03ea155e62e844d188df1ea18608",
            "setup-go" => "0a12ed9d6a9990640e88f7f159f6c4bc9925b9b2",
            _ => panic!("unexpected repository"),
        };
        let label = action_ref.reference.clone();
        resolutions.push(Resolution {
            reference: action_ref,
            pin: Some(make_pin(sha, &label)),
        });
    }

    let result = rewrite_document(before, &resolutions);
    assert_eq!(result.changes.len(), 2);

    let updated_content = result.new_text;
    assert!(
        updated_content.contains("actions/checkout@8ade135a41bc03ea155e62e844d188df1ea18608 # v4")
    );
    assert!(
        updated_content.contains("actions/setup-go@0a12ed9d6a9990640e88f7f159f6c4bc9925b9b2 # v5")
    );
    assert!(!updated_content.contains("actions/checkout@v4"));
    assert!(!updated_content.contains("actions/setup-go@v5"));
}

#[test]
fn test_two_occurrences_are_both_replaced() {
    // One change pair targets `uses: actions/checkout@v4`; a document
    // holding that literal twice has both occurrences replaced
    // identically.
    let before = r#"jobs:
  build:
    steps:
      - uses: actions/checkout@v4
  test:
    steps:
      - uses: actions/checkout@v4
"#;

    let resolutions = vec![Resolution {
        reference: make_ref("actions", "checkout", "v4"),
        pin: Some(make_pin("8ade135a41bc03ea155e62e844d188df1ea18608", "v4")),
    }];

    let result = rewrite_document(before, &resolutions);
    assert_eq!(result.changes.len(), 1);
    let pinned = "uses: actions/checkout@8ade135a41bc03ea155e62e844d188df1ea18608 # v4";
    assert_eq!(result.new_text.matches(pinned).count(), 2);
    assert!(!result.new_text.contains("uses: actions/checkout@v4"));
}

#[test]
fn test_short_sha_prefix_is_a_noop() {
    // The reference is already a short form of the resolved commit:
    // no change record may be produced.
    let reference = make_ref("owner", "repo", "abc1234567");
    let pin = make_pin("abc1234567890123456789012345678901234567", "abc1234567");
    assert!(plan_change(&reference, &pin).is_none());

    let content = "steps:\n  - uses: owner/repo@abc1234567\n";
    let result = rewrite_document(
        content,
        &vec![Resolution {
            reference,
            pin: Some(pin),
        }],
    );
    assert_eq!(result.changes.len(), 0);
    assert_eq!(result.new_text, content);
}

#[test]
fn test_differing_prefix_is_not_a_noop() {
    let reference = make_ref("owner", "repo", "v1.2.3");
    let pin = make_pin("abc1234567890123456789012345678901234567", "v1.2.3");
    let change = plan_change(&reference, &pin).unwrap();
    assert_eq!(change.old_text, "owner/repo@v1.2.3");
    assert_eq!(
        change.new_text,
        "owner/repo@abc1234567890123456789012345678901234567 # v1.2.3"
    );
}

#[test]
fn test_failed_resolution_leaves_file_untouched() {
    let content = "steps:\n  - uses: owner/repo@v1\n";
    let result = rewrite_document(
        content,
        &vec![Resolution {
            reference: make_ref("owner", "repo", "v1"),
            pin: None,
        }],
    );
    assert_eq!(result.changes.len(), 0);
    assert_eq!(result.new_text, content);
}

#[test]
fn test_replace_all_leaves_absent_pattern_alone() {
    let out = replace_all_str("nothing to see here", "uses: owner/repo@v1", "x");
    assert_eq!(out, "nothing to see here");
}

#[test]
fn test_replace_all_replaces_every_occurrence() {
    let out = replace_all_str("ab ab ab", "ab", "cd");
    assert_eq!(out, "cd cd cd");
    // Replacements are not rescanned.
    let out = replace_all_str("aa aa", "aa", "a");
    assert_eq!(out, "a a");
}

#[test]
fn test_substitution_targets_field_prefixed_form() {
    // A bare occurrence of the reference string outside a `uses: ` field
    // is left alone.
    let content = "# mentions owner/repo@v1 in a comment\nsteps:\n  - uses: owner/repo@v1\n";
    let result = rewrite_document(
        content,
        &vec![Resolution {
            reference: make_ref("owner", "repo", "v1"),
            pin: Some(make_pin("abc1234567890123456789012345678901234567", "v1")),
        }],
    );
    assert_eq!(result.changes.len(), 1);
    assert!(result
        .new_text
        .contains("# mentions owner/repo@v1 in a comment"));
    assert!(result
        .new_text
        .contains("uses: owner/repo@abc1234567890123456789012345678901234567 # v1"));
}
