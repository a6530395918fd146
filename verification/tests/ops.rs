use mitos::paths::join_path;
use mitos::paths::paths_equal;

// Each test works in a fresh repository of its own, created through git2
// directly; the operations under test are then run against it.

fn test_dir(name: &str) -> String {
    let nanos = std::time::SystemTime::now()
        .duration_since(std::time::UNIX_EPOCH)
        .unwrap()
        .as_nanos();
    format!("/tmp/mitos_tests/{}_{}", name, nanos)
}

fn setup(name: &str) -> (git2::Repository, String) {
    let dir = test_dir(name);
    let repo = git2::Repository::init(&dir).unwrap();
    if repo.head().is_err() {
        let mut cfg = repo.config().unwrap();
        cfg.set_str("user.name", "Test").unwrap();
        cfg.set_str("user.email", "test@example.com").unwrap();
        let sig = git2::Signature::now("Test", "test@example.com").unwrap();
        let tree_id = {
            let mut idx = repo.index().unwrap();
            idx.write_tree().unwrap()
        };
        let tree = repo.find_tree(tree_id).unwrap();
        repo.commit(Some("HEAD"), &sig, &sig, "init", &tree, &[]).unwrap();
    }
    (repo, dir)
}

fn workdir_of(repo: &git2::Repository) -> String {
    repo.workdir().unwrap().to_str().unwrap().to_string()
}

#[test]
fn list_includes_main_exactly_once_and_unlocked() {
    let (repo, dir) = setup("p1");
    mitos::create_worktree_from(&dir, "p1-side", None).unwrap();
    let wd = workdir_of(&repo);
    let infos = mitos::list_worktrees_from(&dir).unwrap();
    let hits: Vec<&mitos::WorktreeInfo> =
        infos.iter().filter(|w| paths_equal(&w.path, &wd)).collect();
    assert_eq!(hits.len(), 1);
    assert!(!hits[0].locked);
    assert!(paths_equal(&infos[0].path, &wd));
    // names are unique across the whole enumeration
    for i in 0..infos.len() {
        for j in (i + 1)..infos.len() {
            assert_ne!(infos[i].name, infos[j].name);
        }
    }
}

#[test]
fn create_without_path_derives_directory_and_branch() {
    let (repo, dir) = setup("p2");
    let wd = workdir_of(&repo);
    assert!(repo.find_branch("feature/x", git2::BranchType::Local).is_err());
    let target = mitos::create_worktree_from(&dir, "feature/x", None).unwrap();
    assert_eq!(target, join_path(&wd, "feature-x"));
    assert!(repo.find_branch("feature/x", git2::BranchType::Local).is_ok());
    let infos = mitos::list_worktrees_from(&dir).unwrap();
    let entry = infos
        .iter()
        .find(|w| paths_equal(&w.path, &target))
        .expect("created worktree is listed");
    assert_eq!(entry.branch.as_deref(), Some("feature/x"));
    assert_eq!(entry.name, "feature-x");
}

#[test]
fn create_with_existing_branch_keeps_branch_target() {
    let (repo, dir) = setup("p3");
    let first = repo.head().unwrap().peel_to_commit().unwrap();
    repo.branch("dev", &first, false).unwrap();
    // advance HEAD so a recreated branch would point elsewhere
    let sig = git2::Signature::now("Test", "test@example.com").unwrap();
    let tree_id = {
        let mut idx = repo.index().unwrap();
        idx.write_tree().unwrap()
    };
    let tree = repo.find_tree(tree_id).unwrap();
    repo.commit(Some("HEAD"), &sig, &sig, "second", &tree, &[&first]).unwrap();

    mitos::create_worktree_from(&dir, "dev", Some("wt-dev")).unwrap();

    let branch = repo.find_branch("dev", git2::BranchType::Local).unwrap();
    assert_eq!(branch.get().target().unwrap(), first.id());
    let dev_branches = repo
        .branches(Some(git2::BranchType::Local))
        .unwrap()
        .filter(|b| {
            let (b, _) = b.as_ref().unwrap();
            b.name().unwrap() == Some("dev")
        })
        .count();
    assert_eq!(dev_branches, 1);
}

#[test]
fn delete_main_worktree_always_fails() {
    let (repo, dir) = setup("p4");
    let wd = workdir_of(&repo);
    let before = mitos::list_worktrees_from(&dir).unwrap();
    let main_name = before[0].name.clone();
    for force in [false, true] {
        let by_path = mitos::delete_worktree_from(&dir, &wd, force, &dir).unwrap_err();
        assert_eq!(by_path.message(), "Git repository error: Cannot delete main worktree");
        let by_name = mitos::delete_worktree_from(&dir, &main_name, force, &dir).unwrap_err();
        assert_eq!(by_name.message(), "Git repository error: Cannot delete main worktree");
    }
    assert!(git2::Repository::open(&wd).is_ok());
    let after = mitos::list_worktrees_from(&dir).unwrap();
    assert_eq!(before, after);
}

#[test]
fn delete_with_directory_already_gone_succeeds() {
    let (_repo, dir) = setup("p5");
    // a worktree nested inside another: deleting the outer one takes the
    // inner one's directory with it, leaving registry metadata behind
    mitos::create_worktree_from(&dir, "outer", None).unwrap();
    let inner = mitos::create_worktree_from(&dir, "inner", Some("outer/inner")).unwrap();
    mitos::delete_worktree_from(&dir, "outer", false, &dir).unwrap();
    assert!(git2::Repository::open(&inner).is_err());
    // metadata for the inner worktree is still registered
    let infos = mitos::list_worktrees_from(&dir).unwrap();
    assert!(infos.iter().any(|w| w.name == "inner"));

    let task = mitos::delete_worktree_from(&dir, "inner", false, &dir).unwrap();
    let dir_exists = std::path::Path::new(&task.worktree_path).exists();
    assert!(!dir_exists);
    let actions = mitos::cleanup_actions(&task, dir_exists, true);
    for a in &actions {
        if let mitos::CleanupAction::RemoveWorktreeDir(_) = a {
            panic!("must not touch the missing directory");
        }
    }
    let infos = mitos::list_worktrees_from(&dir).unwrap();
    assert!(infos.iter().all(|w| w.name != "inner"));
}

#[test]
fn listing_twice_is_identical() {
    let (_repo, dir) = setup("p6");
    mitos::create_worktree_from(&dir, "p6-side", None).unwrap();
    let a = mitos::list_worktrees_from(&dir).unwrap();
    let b = mitos::list_worktrees_from(&dir).unwrap();
    assert_eq!(a.len(), b.len());
    for w in &a {
        assert!(b.contains(w));
    }
}

#[test]
fn create_then_delete_restores_the_list() {
    let (_repo, dir) = setup("p7");
    let before = mitos::list_worktrees_from(&dir).unwrap();
    let target = mitos::create_worktree_from(&dir, "b", None).unwrap();
    assert!(git2::Repository::open(&target).is_ok());
    let task = mitos::delete_worktree_from(&dir, "b", false, &dir).unwrap();
    assert!(!task.prune_failed);
    // the native prune removed the working tree as requested
    assert!(!std::path::Path::new(&target).exists());
    let after = mitos::list_worktrees_from(&dir).unwrap();
    assert_eq!(before.len(), after.len());
    for w in &before {
        assert!(after.contains(w));
    }
}

#[test]
fn deleting_unknown_target_reports_not_found() {
    let (_repo, dir) = setup("nf");
    let err = mitos::delete_worktree_from(&dir, "nothere", false, &dir).unwrap_err();
    assert_eq!(err.message(), "Git repository error: worktree not found: nothere");
}

#[test]
fn bare_repository_cannot_take_worktrees() {
    let dir = test_dir("bare");
    let repo =
        git2::Repository::init_opts(&dir, git2::RepositoryInitOptions::new().bare(true)).unwrap();
    if repo.head().is_err() {
        let tree_id = repo.treebuilder(None).unwrap().write().unwrap();
        let tree = repo.find_tree(tree_id).unwrap();
        let sig = git2::Signature::now("Test", "test@example.com").unwrap();
        repo.commit(Some("HEAD"), &sig, &sig, "init", &tree, &[]).unwrap();
    }
    let err = mitos::create_worktree_from(&dir, "x", None).unwrap_err();
    assert_eq!(
        err.message(),
        "Git repository error: Bare repository is not supported for worktrees"
    );
}

#[test]
fn invalid_target_path_is_rejected() {
    let (_repo, dir) = setup("inv");
    let err = mitos::create_worktree_from(&dir, "inv-branch", Some("/")).unwrap_err();
    assert_eq!(err.message(), "Git repository error: Invalid target path");
}

#[test]
fn locked_worktree_is_reported_and_needs_force() {
    let (repo, dir) = setup("lk");
    mitos::create_worktree_from(&dir, "locked-wt", None).unwrap();
    let wt = repo.find_worktree("locked-wt").unwrap();
    wt.lock(Some("busy")).unwrap();
    let infos = mitos::list_worktrees_from(&dir).unwrap();
    let entry = infos.iter().find(|w| w.name == "locked-wt").unwrap();
    assert!(entry.locked);
    let unforced = mitos::delete_worktree_from(&dir, "locked-wt", false, &dir).unwrap();
    assert!(unforced.prune_failed);
    let forced = mitos::delete_worktree_from(&dir, "locked-wt", true, &dir).unwrap();
    assert!(!forced.prune_failed);
}

#[test]
fn delete_resolves_path_suffix() {
    let (_repo, dir) = setup("sfx");
    let target = mitos::create_worktree_from(&dir, "sfxwt", None).unwrap();
    // a strict suffix of the absolute path, and no worktree's name
    let suffix = &target[1..];
    let task = mitos::delete_worktree_from(&dir, suffix, false, ".").unwrap();
    assert!(paths_equal(&task.worktree_path, &target));
}
