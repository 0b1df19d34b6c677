use histcore::commands::sign_commits;
use histcore::commands::sign_description;
use histcore::commit::Commit;
use histcore::commit::CommitId;
use histcore::repo::MutableRepo;
use histcore::signing::TestBackend;

fn add_commit(
    repo: &mut MutableRepo,
    parents: Vec<CommitId>,
    change_id: u64,
    email: &str,
    desc: &str,
    tree: u64,
) -> CommitId {
    let id = repo.write_commit(Commit {
        parents,
        change_id,
        author_email: email.to_string(),
        description: desc.to_string(),
        tree,
        signature: None,
    });
    repo.set_visible(id, true);
    id
}

fn linear_repo(email: &str) -> (MutableRepo, Vec<CommitId>) {
    let mut repo = MutableRepo::new();
    let a = add_commit(&mut repo, vec![], 1, email, "one", 10);
    let b = add_commit(&mut repo, vec![a], 2, email, "two", 20);
    let c = add_commit(&mut repo, vec![b], 3, email, "three", 30);
    (repo, vec![a, b, c])
}

#[test]
fn test_sign() {
    let user = "test@example.com".to_string();
    let backend = TestBackend { default_key: Some("test-key".to_string()) };
    let (mut repo, ids) = linear_repo("test@example.com");

    let mut targets = indexmap::IndexSet::new();
    for id in &ids {
        targets.insert(*id);
    }
    let out = sign_commits(&mut repo, &targets, &user, &None, &backend).unwrap();

    // All three commits are signed, each as a new commit rebased onto the
    // signed parent.
    assert_eq!(out.signed.len(), 3);
    for (k, new_id) in out.signed.iter().enumerate() {
        let c = repo.read_commit(*new_id);
        assert!(c.signature.is_some());
        assert_ne!(*new_id, ids[k]);
        assert_eq!(c.change_id, (k + 1) as u64);
    }
    // The chain was rebased: two's parent is the signed one, three's the
    // signed two. No commit points at an old unsigned ancestor.
    assert_eq!(repo.read_commit(out.signed[1]).parents, vec![out.signed[0]]);
    assert_eq!(repo.read_commit(out.signed[2]).parents, vec![out.signed[1]]);
    assert!(out.foreign.is_empty());

    // Re-running the identical operation reports nothing changed.
    let mut targets2 = indexmap::IndexSet::new();
    for id in &out.signed {
        targets2.insert(*id);
    }
    let before = repo.num_commits();
    let out2 = sign_commits(&mut repo, &targets2, &user, &None, &backend).unwrap();
    assert!(out2.signed.is_empty());
    assert_eq!(repo.num_commits(), before);
    assert_eq!(sign_description(&out2.signed), "".to_string());
}

#[test]
fn test_warn_about_signing_commits_not_authored_by_me() {
    let user = "test@example.com".to_string();
    let backend = TestBackend { default_key: Some("test-key".to_string()) };
    let (mut repo, ids) = linear_repo("someone@else.com");

    let mut targets = indexmap::IndexSet::new();
    for id in &ids {
        targets.insert(*id);
    }
    let out = sign_commits(&mut repo, &targets, &user, &None, &backend).unwrap();

    // Every signed commit was authored by someone else: all are flagged,
    // and all are still signed.
    assert_eq!(out.foreign, out.signed);
    assert_eq!(out.foreign.len(), 3);
    for new_id in &out.signed {
        assert!(repo.read_commit(*new_id).signature.is_some());
    }
}
