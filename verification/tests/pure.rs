use mitos::error::MitosError;
use mitos::paths::is_absolute;
use mitos::paths::join_path;
use mitos::paths::last_component;
use mitos::paths::paths_equal;
use mitos::paths::sanitize_branch;
use mitos::paths::str_ends_with;
use mitos::worktree::CleanupAction;
use mitos::worktree::CleanupTask;
use mitos::worktree::LinkedData;
use mitos::worktree::LinkedEntry;
use mitos::worktree::MainData;
use mitos::worktree::build_worktree_list;
use mitos::worktree::cleanup_actions;
use mitos::worktree::cleanup_failure;
use mitos::worktree::delete_prune_request;
use mitos::worktree::plan_create;
use mitos::worktree::registry_names_or_empty;
use mitos::worktree::resolve_target_path;

#[test]
fn sanitize_replaces_every_slash() {
    assert_eq!(sanitize_branch("feature/x"), "feature-x");
    assert_eq!(sanitize_branch("a/b/c"), "a-b-c");
    assert_eq!(sanitize_branch("plain"), "plain");
    assert_eq!(sanitize_branch(""), "");
}

#[test]
fn join_inserts_exactly_one_separator() {
    assert_eq!(join_path("/repo", "x"), "/repo/x");
    assert_eq!(join_path("/repo/", "x"), "/repo/x");
    assert_eq!(join_path("", "x"), "/x");
}

#[test]
fn last_component_cases() {
    assert_eq!(last_component("/a/b"), Some("b".to_string()));
    assert_eq!(last_component("/a/b/"), Some("b".to_string()));
    assert_eq!(last_component("b"), Some("b".to_string()));
    assert_eq!(last_component("/"), None);
    assert_eq!(last_component(""), None);
    assert_eq!(last_component("/a/.."), None);
    assert_eq!(last_component("/a/."), None);
}

#[test]
fn absolute_paths() {
    assert!(is_absolute("/a"));
    assert!(!is_absolute("a/b"));
    assert!(!is_absolute(""));
}

#[test]
fn path_equality_ignores_trailing_slashes() {
    assert!(paths_equal("/a/b/", "/a/b"));
    assert!(paths_equal("/a/b", "/a/b"));
    assert!(!paths_equal("/a/b", "/a/c"));
    assert!(!paths_equal("/a/b", "/a"));
}

#[test]
fn suffix_matching_is_literal() {
    assert!(str_ends_with("/repo/feature-x", "feature-x"));
    assert!(str_ends_with("/repo/feature-x", "x"));
    assert!(!str_ends_with("/repo/feature-x", "feature-y"));
    assert!(!str_ends_with("x", "feature-x"));
}

#[test]
fn target_path_derivation() {
    assert_eq!(resolve_target_path("/repo", "feature/x", None), "/repo/feature-x");
    assert_eq!(resolve_target_path("/repo/", "feature/x", None), "/repo/feature-x");
    assert_eq!(resolve_target_path("/repo", "b", Some("rel/dir")), "/repo/rel/dir");
    assert_eq!(resolve_target_path("/repo", "b", Some("/abs/dir")), "/abs/dir");
}

#[test]
fn error_messages_name_their_kind() {
    let g = MitosError::GitError("boom".to_string());
    assert_eq!(g.message(), "Git repository error: boom");
    let i = MitosError::IoError("nope".to_string());
    assert_eq!(i.message(), "IO error: nope");
    let c = MitosError::ConfigError("bad".to_string());
    assert_eq!(c.message(), "Configuration error: bad");
}

#[test]
fn enumeration_skips_unreadable_entries_and_lists_main_first() {
    let main = MainData { workdir: "/repo/proj/".to_string(), branch: Some("main".to_string()) };
    let unreadable = LinkedEntry { name: None, opened: None };
    let unopenable = LinkedEntry { name: Some("stale".to_string()), opened: None };
    let good = LinkedEntry {
        name: Some("wt".to_string()),
        opened: Some(LinkedData {
            path: "/repo/proj/wt".to_string(),
            wt_name: Some("wt".to_string()),
            branch: Some("dev".to_string()),
            locked: true,
        }),
    };
    let infos = build_worktree_list(Some(main), vec![unreadable, unopenable, good]);
    assert_eq!(infos.len(), 2);
    assert_eq!(infos[0].name, "proj");
    assert_eq!(infos[0].path, "/repo/proj/");
    assert_eq!(infos[0].branch.as_deref(), Some("main"));
    assert!(!infos[0].locked);
    assert_eq!(infos[1].name, "wt");
    assert_eq!(infos[1].path, "/repo/proj/wt");
    assert_eq!(infos[1].branch.as_deref(), Some("dev"));
    assert!(infos[1].locked);
}

#[test]
fn enumeration_of_bare_repository_has_no_main_entry() {
    let entry = LinkedEntry {
        name: Some("wt".to_string()),
        opened: Some(LinkedData {
            path: "/elsewhere/wt".to_string(),
            wt_name: None,
            branch: None,
            locked: false,
        }),
    };
    let infos = build_worktree_list(None, vec![entry]);
    assert_eq!(infos.len(), 1);
    // the registry name stands in when the worktree reports none
    assert_eq!(infos[0].name, "wt");
    assert_eq!(infos[0].branch, None);
}

fn task(prune_failed: bool) -> CleanupTask {
    CleanupTask {
        worktree_path: "/repo/wt".to_string(),
        metadata_dir: Some("/repo/.git/worktrees/wt".to_string()),
        prune_failed,
    }
}

#[test]
fn cleanup_after_successful_prune_touches_only_the_directory() {
    let actions = cleanup_actions(&task(false), true, true);
    assert_eq!(actions, vec![CleanupAction::RemoveWorktreeDir("/repo/wt".to_string())]);
    let none = cleanup_actions(&task(false), false, true);
    assert_eq!(none, Vec::<CleanupAction>::new());
}

#[test]
fn cleanup_after_failed_prune_adds_registry_fallback() {
    let actions = cleanup_actions(&task(true), true, true);
    assert_eq!(
        actions,
        vec![
            CleanupAction::RemoveWorktreeDir("/repo/wt".to_string()),
            CleanupAction::RemoveMetadataDir("/repo/.git/worktrees/wt".to_string()),
        ]
    );
}

#[test]
fn cleanup_with_directory_already_gone_skips_it() {
    let actions = cleanup_actions(&task(true), false, true);
    assert_eq!(
        actions,
        vec![CleanupAction::RemoveMetadataDir("/repo/.git/worktrees/wt".to_string())]
    );
    let nothing = cleanup_actions(&task(true), false, false);
    assert_eq!(nothing, Vec::<CleanupAction>::new());
}

#[test]
fn create_plan_gates_before_any_mutation() {
    let bare = plan_create(&None, "x", None).unwrap_err();
    assert_eq!(
        bare.message(),
        "Git repository error: Bare repository is not supported for worktrees"
    );
    let invalid = plan_create(&Some("/repo".to_string()), "x", Some("/")).unwrap_err();
    assert_eq!(invalid.message(), "Git repository error: Invalid target path");
    let (target, name) = plan_create(&Some("/repo".to_string()), "feature/x", None).unwrap();
    assert_eq!(target, "/repo/feature-x");
    assert_eq!(name, "feature-x");
}

#[test]
fn registry_listing_failure_counts_as_empty() {
    let names = vec![Some("a".to_string()), None];
    assert_eq!(registry_names_or_empty(Ok(names.clone())), names);
    assert_eq!(
        registry_names_or_empty(Err("boom".to_string())),
        Vec::<Option<String>>::new()
    );
}

#[test]
fn prune_request_flag_sense() {
    let unforced = delete_prune_request(false);
    assert!(unforced.even_if_valid);
    assert!(!unforced.even_if_locked);
    assert!(unforced.remove_working_tree);
    let forced = delete_prune_request(true);
    assert!(forced.even_if_valid);
    assert!(forced.even_if_locked);
    assert!(forced.remove_working_tree);
}

#[test]
fn cleanup_failures_name_the_phase() {
    let d = CleanupAction::RemoveWorktreeDir("/x".to_string());
    let m = CleanupAction::RemoveMetadataDir("/y".to_string());
    assert_eq!(
        cleanup_failure(&d, "denied").message(),
        "Git repository error: Failed to remove worktree directory: denied"
    );
    assert_eq!(
        cleanup_failure(&m, "denied").message(),
        "Git repository error: Failed to clean git metadata: denied"
    );
}
