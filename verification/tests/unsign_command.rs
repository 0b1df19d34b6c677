use histcore::commands::sign_commits;
use histcore::commands::unsign_commits;
use histcore::commit::Commit;
use histcore::commit::CommitId;
use histcore::repo::MutableRepo;
use histcore::signing::TestBackend;

fn add_commit(
    repo: &mut MutableRepo,
    parents: Vec<CommitId>,
    change_id: u64,
    email: &str,
    desc: &str,
    tree: u64,
) -> CommitId {
    let id = repo.write_commit(Commit {
        parents,
        change_id,
        author_email: email.to_string(),
        description: desc.to_string(),
        tree,
        signature: None,
    });
    repo.set_visible(id, true);
    id
}

#[test]
fn test_unsign() {
    let user = "test@example.com".to_string();
    let backend = TestBackend { default_key: Some("test-key".to_string()) };
    let mut repo = MutableRepo::new();
    let a = add_commit(&mut repo, vec![], 1, "test@example.com", "one", 10);
    let b = add_commit(&mut repo, vec![a], 2, "test@example.com", "two", 20);
    let c = add_commit(&mut repo, vec![b], 3, "test@example.com", "three", 30);

    let mut targets = indexmap::IndexSet::new();
    for id in [a, b, c] {
        targets.insert(id);
    }
    let signed = sign_commits(&mut repo, &targets, &user, &None, &backend).unwrap().signed;
    for id in &signed {
        assert!(repo.read_commit(*id).signature.is_some());
    }

    let mut targets2 = indexmap::IndexSet::new();
    for id in &signed {
        targets2.insert(*id);
    }
    let unsigned = unsign_commits(&mut repo, &targets2, &backend).unwrap().unsigned;

    // Every signature is gone, and in the content-addressed store the
    // unsigned contents are exactly the original commits again.
    assert_eq!(unsigned, vec![a, b, c]);
    for id in &unsigned {
        assert!(repo.read_commit(*id).signature.is_none());
    }
    assert!(repo.is_visible(a) && repo.is_visible(b) && repo.is_visible(c));
    for id in &signed {
        assert!(!repo.is_visible(*id));
    }
}
