use histcore::commands::SignPolicy;
use histcore::rewrite::remap_parents;
use histcore::rewrite::RewriteMap;
use histcore::rewrite::RewriteOutcome;
use histcore::commands::sign_commits;
use histcore::commands::sign_description;
use histcore::commands::unsign_description;
use histcore::commit::Commit;
use histcore::commit::CommitId;
use histcore::commit::VerifyStatus;
use histcore::repo::MutableRepo;
use histcore::repo::Repo;
use histcore::repo::RepoError;
use histcore::repo::check_rewritable;
use histcore::signing::SignError;
use histcore::signing::SigningBackend;
use histcore::signing::TestBackend;

fn add_commit(
    repo: &mut MutableRepo,
    parents: Vec<CommitId>,
    change_id: u64,
    email: &str,
    desc: &str,
    tree: u64,
) -> CommitId {
    let id = repo.write_commit(Commit {
        parents,
        change_id,
        author_email: email.to_string(),
        description: desc.to_string(),
        tree,
        signature: None,
    });
    repo.set_visible(id, true);
    id
}

fn linear_repo(email: &str) -> (MutableRepo, Vec<CommitId>) {
    let mut repo = MutableRepo::new();
    let a = add_commit(&mut repo, vec![], 1, email, "one", 10);
    let b = add_commit(&mut repo, vec![a], 2, email, "two", 20);
    let c = add_commit(&mut repo, vec![b], 3, email, "three", 30);
    (repo, vec![a, b, c])
}

#[test]
fn test_transform_empty_targets_is_noop() {
    let backend = TestBackend { default_key: Some("k".to_string()) };
    let (mut repo, _ids) = linear_repo("test@example.com");
    let before = repo.num_commits();
    let policy = SignPolicy {
        user_email: "test@example.com".to_string(),
        key: None,
        targets: vec![],
    };
    let map = repo.transform_descendants(&vec![], &policy, &backend).unwrap();
    assert_eq!(repo.num_commits(), before);
    for entry in &map.entries {
        assert!(entry.is_none());
    }
}

#[test]
fn test_sign_already_signed_by_me_is_idempotent() {
    let user = "test@example.com".to_string();
    let backend = TestBackend { default_key: Some("k".to_string()) };
    let (mut repo, ids) = linear_repo("test@example.com");
    let mut targets = indexmap::IndexSet::new();
    for id in &ids {
        targets.insert(*id);
    }
    let signed = sign_commits(&mut repo, &targets, &user, &None, &backend).unwrap().signed;
    let before = repo.num_commits();

    // Signing the already-signed-by-me commits a second time touches
    // nothing: zero signed commits and unchanged ids.
    let mut targets2 = indexmap::IndexSet::new();
    for id in &signed {
        targets2.insert(*id);
    }
    let out = sign_commits(&mut repo, &targets2, &user, &None, &backend).unwrap();
    assert_eq!(out.signed.len(), 0);
    assert_eq!(repo.num_commits(), before);
    for id in &signed {
        assert!(repo.is_visible(*id));
    }
}

#[test]
fn test_sign_one_rewrites_descendants_preserving_change_ids() {
    let user = "test@example.com".to_string();
    let backend = TestBackend { default_key: Some("k".to_string()) };
    let (mut repo, ids) = linear_repo("test@example.com");
    let mut targets = indexmap::IndexSet::new();
    targets.insert(ids[0]);
    let out = sign_commits(&mut repo, &targets, &user, &None, &backend).unwrap();

    // Only the target is signed, but every descendant is rebased: a new
    // id with its change id unchanged.
    assert_eq!(out.signed.len(), 1);
    let a2 = out.signed[0];
    assert_ne!(a2, ids[0]);
    let b2 = (0..repo.num_commits())
        .find(|i| repo.read_commit(*i).change_id == 2 && repo.is_visible(*i))
        .unwrap();
    let c2 = (0..repo.num_commits())
        .find(|i| repo.read_commit(*i).change_id == 3 && repo.is_visible(*i))
        .unwrap();
    assert_ne!(b2, ids[1]);
    assert_ne!(c2, ids[2]);
    assert_eq!(repo.read_commit(b2).parents, vec![a2]);
    assert_eq!(repo.read_commit(c2).parents, vec![b2]);
    assert!(repo.read_commit(b2).signature.is_none());
    assert!(!repo.is_visible(ids[1]));
}

#[test]
fn test_sign_unsign_rebases_each_direction_once() {
    let user = "test@example.com".to_string();
    let backend = TestBackend { default_key: Some("k".to_string()) };
    let (mut repo, ids) = linear_repo("test@example.com");
    let n0 = repo.num_commits();

    let mut targets = indexmap::IndexSet::new();
    for id in &ids {
        targets.insert(*id);
    }
    let signed = sign_commits(&mut repo, &targets, &user, &None, &backend).unwrap().signed;
    // One new commit per rewritten one, none duplicated.
    assert_eq!(repo.num_commits(), n0 + 3);

    let mut targets2 = indexmap::IndexSet::new();
    for id in &signed {
        targets2.insert(*id);
    }
    let unsigned = histcore::commands::unsign_commits(&mut repo, &targets2, &backend)
        .unwrap()
        .unsigned;
    // Unsigning reproduces the original contents, which the
    // content-addressed store deduplicates: no new commit at all, and the
    // original ids come back.
    assert_eq!(repo.num_commits(), n0 + 3);
    assert_eq!(unsigned, ids);
    for id in &ids {
        assert!(repo.read_commit(*id).signature.is_none());
        assert_eq!(repo.read_commit(*id).change_id, (*id + 1) as u64);
    }
}

#[test]
fn test_divergent_rewrites_share_change_id() {
    let user = "test@example.com".to_string();
    let backend = TestBackend { default_key: None };
    let mut repo = Repo::init();
    let mut tx0 = repo.start_transaction();
    let a = add_commit(&mut tx0.repo, vec![], 1, "test@example.com", "one", 10);
    let b = add_commit(&mut tx0.repo, vec![a], 2, "test@example.com", "two", 20);
    repo.finish_transaction(tx0, "setup".to_string()).unwrap();

    // Two independent writers rewrite the same commit with different keys.
    let mut tx1 = repo.start_transaction();
    let mut tx2 = repo.start_transaction();
    let mut targets1 = indexmap::IndexSet::new();
    targets1.insert(b);
    let mut targets2 = indexmap::IndexSet::new();
    targets2.insert(b);
    let s1 = sign_commits(tx1.repo_mut(), &targets1, &user, &Some("key-one".to_string()), &backend)
        .unwrap()
        .signed;
    let s2 = sign_commits(tx2.repo_mut(), &targets2, &user, &Some("key-two".to_string()), &backend)
        .unwrap()
        .signed;
    let b1 = tx1.repo.read_commit(s1[0]).clone();
    let b2 = tx2.repo.read_commit(s2[0]).clone();

    // Both results exist as distinct commits sharing the change id.
    assert_eq!(b1.change_id, 2);
    assert_eq!(b2.change_id, 2);
    assert_ne!(b1.signature.as_ref().unwrap().key, b2.signature.as_ref().unwrap().key);

    // Neither result is silently dropped: the first writer publishes, the
    // second is told about the race and can retry from the new head.
    assert!(repo.finish_transaction(tx1, "sign with key-one".to_string()).is_ok());
    let r = repo.finish_transaction(tx2, "sign with key-two".to_string());
    assert_eq!(r, Err(RepoError::ConcurrentModification));
    assert_eq!(repo.ops.len(), 3);
}

#[test]
fn test_sign_without_any_key_fails() {
    let user = "test@example.com".to_string();
    let backend = TestBackend { default_key: None };
    let (mut repo, ids) = linear_repo("test@example.com");
    let mut targets = indexmap::IndexSet::new();
    targets.insert(ids[0]);
    let r = sign_commits(&mut repo, &targets, &user, &None, &backend);
    assert_eq!(r.err(), Some(SignError::KeyNotFound));
}

#[test]
fn test_check_rewritable_rejects_immutable_targets() {
    assert!(check_rewritable(&vec![1, 2, 3], &vec![7, 8]).is_ok());
    let r = check_rewritable(&vec![1, 8, 7], &vec![7, 8]);
    assert_eq!(r, Err(RepoError::ImmutableCommit(8)));
}

#[test]
fn test_transaction_descriptions() {
    assert_eq!(sign_description(&vec![]), "".to_string());
    assert_eq!(sign_description(&vec![5]), "sign commit 5".to_string());
    assert_eq!(sign_description(&vec![5, 6, 7]), "sign commit 5 and 2 more".to_string());
    assert_eq!(unsign_description(&vec![]), "".to_string());
    assert_eq!(unsign_description(&vec![4]), "unsign commit 4".to_string());
    assert_eq!(unsign_description(&vec![4, 9]), "unsign commit 4 and 1 more".to_string());
}

#[test]
fn test_target_set_dedups_selected_commits() {
    // The same commit selected twice is signed once.
    let user = "test@example.com".to_string();
    let backend = TestBackend { default_key: Some("k".to_string()) };
    let (mut repo, ids) = linear_repo("test@example.com");
    let mut targets: indexmap::IndexSet<usize> = indexmap::IndexSet::new();
    assert!(targets.insert(ids[2]));
    assert!(!targets.insert(ids[2]));
    let out = sign_commits(&mut repo, &targets, &user, &None, &backend).unwrap();
    assert_eq!(out.signed.len(), 1);
}

#[test]
fn test_remap_parents_flattens_outcomes() {
    // 0 unchanged, 1 rewritten to 9, 2 diverged into 5 and 6, 3 abandoned
    // onto 7, 4 untouched.
    let map = RewriteMap {
        entries: vec![
            Some(RewriteOutcome::Unchanged),
            Some(RewriteOutcome::Rewritten(9)),
            Some(RewriteOutcome::Diverged(vec![5, 6])),
            Some(RewriteOutcome::Abandoned(vec![7])),
            None,
        ],
    };
    assert_eq!(remap_parents(&map, &vec![0, 1, 2, 3, 4]), vec![0, 9, 5, 6, 7, 4]);
}

#[test]
fn test_backend_verifies_own_signatures() {
    let backend = TestBackend { default_key: Some("k".to_string()) };
    let payload = Commit {
        parents: vec![],
        change_id: 1,
        author_email: "test@example.com".to_string(),
        description: "one".to_string(),
        tree: 10,
        signature: None,
    };
    let sig = backend.sign(&payload, &None).unwrap();
    assert!(matches!(backend.verify(&payload, &sig), VerifyStatus::Good));
    let mut bad = sig.clone();
    bad.status = VerifyStatus::Unknown;
    assert!(matches!(backend.verify(&payload, &bad), VerifyStatus::Bad));
}

#[test]
fn test_store_write_is_content_addressed() {
    let mut repo = MutableRepo::new();
    let a = add_commit(&mut repo, vec![], 1, "test@example.com", "one", 10);
    let n = repo.num_commits();
    let again = repo.write_commit(Commit {
        parents: vec![],
        change_id: 1,
        author_email: "test@example.com".to_string(),
        description: "one".to_string(),
        tree: 10,
        signature: None,
    });
    assert_eq!(again, a);
    assert_eq!(repo.num_commits(), n);
}

#[test]
fn test_transaction_finish_publishes_atomically() {
    let mut repo = Repo::init();
    let mut tx = repo.start_transaction();
    let a = add_commit(&mut tx.repo, vec![], 1, "test@example.com", "one", 10);
    repo.finish_transaction(tx, "add one".to_string()).unwrap();
    assert_eq!(repo.ops.len(), 2);
    assert_eq!(repo.store.len(), 1);
    assert!(repo.ops[1].visible[a]);
}
