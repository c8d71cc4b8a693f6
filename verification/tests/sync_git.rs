use rupert::utils::git;
use rupert::SyncError;

/// A local repository holding one commit, usable as a clone source.
fn source_repo(path: &str) -> git2::Oid {
    let repo = git2::Repository::init(path).unwrap();
    if let Ok(head) = repo.head() {
        return head.target().unwrap();
    }
    let sig = git2::Signature::now("tester", "tester@example.com").unwrap();
    let tree_id = {
        let builder = repo.treebuilder(None).unwrap();
        builder.write().unwrap()
    };
    let tree = repo.find_tree(tree_id).unwrap();
    repo.commit(Some("HEAD"), &sig, &sig, "initial", &tree, &[]).unwrap()
}

#[test]
fn sync_is_idempotent() {
    let src = "/tmp/rupert-tests/idem-src";
    let commit = source_repo(src);
    let hex = commit.to_string();
    let dst = String::from("/tmp/rupert-tests/idem-dst");
    git::sync(&dst, &String::from(src), &hex).unwrap();
    git::sync(&dst, &String::from(src), &hex).unwrap();
    let got = git2::Repository::open(&dst).unwrap();
    assert!(got.head_detached().unwrap());
    assert_eq!(got.head().unwrap().target().unwrap(), commit);
}

#[test]
fn bad_reference_is_named() {
    let src = "/tmp/rupert-tests/badref-src";
    let commit = source_repo(src);
    let hex = commit.to_string();
    let dst = String::from("/tmp/rupert-tests/badref-dst");
    git::sync(&dst, &String::from(src), &hex).unwrap();
    let err = match git::sync(&dst, &String::from(src), &String::from("not-a-hex!")) {
        Ok(_) => panic!("expected a sync error"),
        Err(e) => e,
    };
    match &err {
        SyncError::BadReference(c) => assert_eq!(c, "not-a-hex!"),
        other => panic!("expected a bad-reference error, got {:?}", other),
    }
    assert_eq!(err.message(), "Not a valid Oid: \"not-a-hex!\"");
}

#[test]
fn unknown_commit_fails_checkout() {
    let src = "/tmp/rupert-tests/unknown-src";
    let commit = source_repo(src);
    let hex = commit.to_string();
    let dst = String::from("/tmp/rupert-tests/unknown-dst");
    git::sync(&dst, &String::from(src), &hex).unwrap();
    let missing = String::from("aaaaaaaaaaaaaaaaaaaaaaaaaaaaaaaaaaaaaaaa");
    let err = match git::sync(&dst, &String::from(src), &missing) {
        Ok(_) => panic!("expected a sync error"),
        Err(e) => e,
    };
    assert!(matches!(err, SyncError::CheckoutFailed(_)));
}

#[test]
fn missing_origin_fails_the_fetch() {
    let dst = "/tmp/rupert-tests/no-origin";
    git2::Repository::init(dst).unwrap();
    let commit = String::from("abc123");
    let err = match git::sync(&String::from(dst), &String::from(dst), &commit) {
        Ok(_) => panic!("expected a sync error"),
        Err(e) => e,
    };
    assert!(matches!(err, SyncError::FetchFailed(_)));
}

#[test]
fn clone_failure_is_reported() {
    let dst = String::from("/tmp/rupert-tests/clone-fail-dst");
    let url = String::from("/tmp/rupert-tests/no-such-repository");
    let commit = String::from("abc123");
    let err = match git::sync(&dst, &url, &commit) {
        Ok(_) => panic!("expected a sync error"),
        Err(e) => e,
    };
    assert!(matches!(err, SyncError::CloneFailed(_)));
}

#[test]
fn sync_error_messages() {
    assert_eq!(
        SyncError::CloneFailed(String::from("why")).message(),
        "Failed clone_recurse: why"
    );
    assert_eq!(SyncError::FetchFailed(String::from("why")).message(), "Failed fetching: why");
    assert_eq!(
        SyncError::CheckoutFailed(String::from("why")).message(),
        "failed checkout: why"
    );
}
