use pin_and_bump::ActionReference;
use pin_and_bump::Lookup;
use pin_and_bump::ObjectKind;
use pin_and_bump::Outcome;
use pin_and_bump::ResolvedPin;
use pin_and_bump::Resolver;
use pin_and_bump::Step;

fn checkout_ref() -> ActionReference {
    ActionReference {
        owner: "actions".to_string(),
        repo: "checkout".to_string(),
        reference: "v4".to_string(),
    }
}

fn drive(mut resolver: Resolver, first: Lookup, service: &dyn Fn(&Lookup) -> Outcome) -> Option<ResolvedPin> {
    let mut lookup = first;
    loop {
        let outcome = service(&lookup);
        match resolver.resume(outcome) {
            Step::Ask(next) => lookup = next,
            Step::Done(pin) => return Some(pin),
            Step::Failed => return None,
        }
    }
}

#[test]
fn test_resolve_reference_with_mocked_api() {
    // Pin mode: the tag lookup for v4 answers with the commit directly.
    let service = |lookup: &Lookup| match lookup {
        Lookup::TagTarget { owner, repo, tag } => {
            assert_eq!(owner, "actions");
            assert_eq!(repo, "checkout");
            assert_eq!(tag, "v4");
            Outcome::FoundObject {
                object_id: "8ade135a41bc03ea155e62e844d188df1ea18608".to_string(),
                kind: ObjectKind::Commit,
            }
        }
        _ => panic!("unexpected lookup"),
    };

    let (resolver, first) = Resolver::new(checkout_ref(), false);
    let result = drive(resolver, first, &service);

    assert!(result.is_some());
    let pin = result.unwrap();
    assert_eq!(pin.commit_sha, "8ade135a41bc03ea155e62e844d188df1ea18608");
    assert_eq!(pin.label, "v4");
}

#[test]
fn test_resolve_reference_with_update_flag() {
    // Update mode: the latest release is v4.2.0, and its tag resolves.
    let service = |lookup: &Lookup| match lookup {
        Lookup::LatestRelease { owner, repo } => {
            assert_eq!(owner, "actions");
            assert_eq!(repo, "checkout");
            Outcome::Found {
                value: "v4.2.0".to_string(),
            }
        }
        Lookup::TagTarget { tag, .. } => {
            assert_eq!(tag, "v4.2.0");
            Outcome::FoundObject {
                object_id: "11111111111111111111111111111111111111ab".to_string(),
                kind: ObjectKind::Commit,
            }
        }
        _ => panic!("unexpected lookup"),
    };

    let (resolver, first) = Resolver::new(checkout_ref(), true);
    let result = drive(resolver, first, &service);

    assert!(result.is_some());
    let pin = result.unwrap();
    assert_eq!(pin.commit_sha, "11111111111111111111111111111111111111ab");
    assert_eq!(pin.label, "v4.2.0"); // Should be updated to latest version
}

#[test]
fn test_resolve_reference_update_fallback() {
    // Update mode: no release published, so the original reference is
    // pinned as pin mode would.
    let service = |lookup: &Lookup| match lookup {
        Lookup::LatestRelease { .. } => Outcome::NotFound,
        Lookup::TagTarget { tag, .. } => {
            assert_eq!(tag, "v4");
            Outcome::FoundObject {
                object_id: "8ade135a41bc03ea155e62e844d188df1ea18608".to_string(),
                kind: ObjectKind::Commit,
            }
        }
        _ => panic!("unexpected lookup"),
    };

    let (resolver, first) = Resolver::new(checkout_ref(), true);
    let result = drive(resolver, first, &service);

    assert!(result.is_some());
    let pin = result.unwrap();
    assert_eq!(pin.commit_sha, "8ade135a41bc03ea155e62e844d188df1ea18608");
    assert_eq!(pin.label, "v4"); // Should fall back to current reference
}

#[test]
fn test_annotated_tag_is_dereferenced() {
    // The tag points at an annotated tag object, which dereferences to
    // the underlying commit.
    let service = |lookup: &Lookup| match lookup {
        Lookup::TagTarget { .. } => Outcome::FoundObject {
            object_id: "aaaaaaaaaaaaaaaaaaaaaaaaaaaaaaaaaaaaaaaa".to_string(),
            kind: ObjectKind::AnnotatedTag,
        },
        Lookup::Dereference { object_id, .. } => {
            assert_eq!(object_id, "aaaaaaaaaaaaaaaaaaaaaaaaaaaaaaaaaaaaaaaa");
            Outcome::Found {
                value: "bbbbbbbbbbbbbbbbbbbbbbbbbbbbbbbbbbbbbbbb".to_string(),
            }
        }
        _ => panic!("unexpected lookup"),
    };

    let (resolver, first) = Resolver::new(checkout_ref(), false);
    let pin = drive(resolver, first, &service).unwrap();
    assert_eq!(pin.commit_sha, "bbbbbbbbbbbbbbbbbbbbbbbbbbbbbbbbbbbbbbbb");
    assert_eq!(pin.label, "v4");
}

#[test]
fn test_failed_dereference_falls_back_to_object_id() {
    // The dereference call fails; the intermediate object's identifier
    // is used rather than failing the whole resolution.
    let service = |lookup: &Lookup| match lookup {
        Lookup::TagTarget { .. } => Outcome::FoundObject {
            object_id: "cccccccccccccccccccccccccccccccccccccccc".to_string(),
            kind: ObjectKind::AnnotatedTag,
        },
        Lookup::Dereference { .. } => Outcome::Error,
        _ => panic!("unexpected lookup"),
    };

    let (resolver, first) = Resolver::new(checkout_ref(), false);
    let pin = drive(resolver, first, &service).unwrap();
    assert_eq!(pin.commit_sha, "cccccccccccccccccccccccccccccccccccccccc");
    assert_eq!(pin.label, "v4");
}

#[test]
fn test_missing_tag_retries_as_branch_or_commit() {
    // The name is not a tag: the commit lookup for the same name is the
    // fallback.
    let service = |lookup: &Lookup| match lookup {
        Lookup::TagTarget { .. } => Outcome::NotFound,
        Lookup::CommitForRef { ref_name, .. } => {
            assert_eq!(ref_name, "v4");
            Outcome::Found {
                value: "dddddddddddddddddddddddddddddddddddddddd".to_string(),
            }
        }
        _ => panic!("unexpected lookup"),
    };

    let (resolver, first) = Resolver::new(checkout_ref(), false);
    let pin = drive(resolver, first, &service).unwrap();
    assert_eq!(pin.commit_sha, "dddddddddddddddddddddddddddddddddddddddd");
}

#[test]
fn test_exhausted_fallbacks_fail_the_reference() {
    // Neither the tag lookup nor the commit lookup finds anything: the
    // reference fails, with every fallback exhausted.
    let service = |lookup: &Lookup| match lookup {
        Lookup::TagTarget { .. } => Outcome::NotFound,
        Lookup::CommitForRef { .. } => Outcome::NotFound,
        _ => panic!("unexpected lookup"),
    };

    let (resolver, first) = Resolver::new(checkout_ref(), false);
    assert!(drive(resolver, first, &service).is_none());
}
