use vstd::prelude::*;

verus! {

// The boundary to libgit2, through the git2 crate. Every repository and
// worktree observation the manager makes goes through one of the wrappers
// below; each hands verified code plain values (strings, booleans,
// results). What a wrapper returns depends on the repository on disk, so
// no wrapper promises a particular outcome: the verified callers state
// what they do with every outcome instead.

#[verifier::external_type_specification]
#[verifier::external_body]
pub struct ExRepository(git2::Repository);

#[verifier::external_type_specification]
#[verifier::external_body]
pub struct ExWorktree(git2::Worktree);

/// Relies on git2::Repository::discover: walk upward from `start` until a
/// repository is found. The error message is the one git2 renders.
#[verifier::external_body]
pub(crate) fn discover_repo(start: &str) -> Result<git2::Repository, String> {
    git2::Repository::discover(start).map_err(|e| e.to_string())
}

/// Relies on git2::Repository::open: open the repository at `path`.
#[verifier::external_body]
pub(crate) fn open_repository(path: &str) -> Result<git2::Repository, String> {
    git2::Repository::open(path).map_err(|e| e.to_string())
}

/// Relies on git2::Repository::workdir: the working directory, `None` for a
/// bare repository (or a path that is not UTF-8).
#[verifier::external_body]
pub(crate) fn repo_workdir(repo: &git2::Repository) -> Option<String> {
    repo.workdir().and_then(|p| p.to_str()).map(|s| s.to_string())
}

/// Relies on git2::Repository::path: the repository's own metadata
/// directory, `None` when the path is not UTF-8.
#[verifier::external_body]
pub(crate) fn repo_gitdir(repo: &git2::Repository) -> Option<String> {
    repo.path().to_str().map(|s| s.to_string())
}

/// Relies on git2::Repository::head and git2::Reference::shorthand: the
/// short name of the reference HEAD resolves to, `None` when HEAD cannot
/// be read (unborn included) or the name is not UTF-8. A detached HEAD
/// resolves to a direct reference and yields `Some("HEAD")`.
#[verifier::external_body]
pub(crate) fn head_shorthand(repo: &git2::Repository) -> Option<String> {
    repo.head().ok().and_then(|h| h.shorthand().ok().map(|s| s.to_string()))
}

/// Relies on git2::Repository::worktrees and git2::string_array::StringArray::iter:
/// the names in the linked-worktree registry, one slot per entry in
/// registry order; a slot is `None` when the array reports an error for
/// it or its name is not UTF-8.
#[verifier::external_body]
pub(crate) fn worktree_names(repo: &git2::Repository) -> Result<Vec<Option<String>>, String> {
    match repo.worktrees() {
        Ok(names) => {
            let mut out: Vec<Option<String>> = Vec::new();
            for n in names.iter() {
                out.push(match n {
                    Ok(Some(s)) => Some(s.to_string()),
                    _ => None,
                });
            }
            Ok(out)
        },
        Err(e) => Err(e.to_string()),
    }
}

/// Relies on git2::Repository::find_worktree: open a linked worktree by its
/// registry name.
#[verifier::external_body]
pub(crate) fn find_worktree(repo: &git2::Repository, name: &str) -> Result<git2::Worktree, String> {
    repo.find_worktree(name).map_err(|e| e.to_string())
}

/// Relies on git2::Worktree::path: the worktree's working directory, `None`
/// when the path is not UTF-8.
#[verifier::external_body]
pub(crate) fn worktree_path(wt: &git2::Worktree) -> Option<String> {
    wt.path().to_str().map(|s| s.to_string())
}

/// Relies on git2::Worktree::name: the worktree's registered name, `None`
/// when it is unset, unreadable or not UTF-8.
#[verifier::external_body]
pub(crate) fn worktree_name(wt: &git2::Worktree) -> Option<String> {
    wt.name().ok().flatten().map(|s| s.to_string())
}

/// Relies on git2::Worktree::is_prunable and git2::WorktreePruneOptions:
/// whether libgit2 would prune this worktree under the two given
/// overrides (prune even if valid, prune even if locked). With the first
/// set and the second unset, libgit2 answers true exactly when the
/// worktree is not locked and its registry directory still exists — the
/// lock observation the enumerator needs. This route never materializes
/// the lock reason, so it cannot panic on a reason that is not UTF-8
/// (git2's own lock query, Worktree::is_locked, unwraps that conversion).
#[verifier::external_body]
pub(crate) fn worktree_is_prunable(
    wt: &git2::Worktree,
    even_if_valid: bool,
    even_if_locked: bool,
) -> Result<bool, String> {
    let mut opts = git2::WorktreePruneOptions::new();
    opts.valid(even_if_valid);
    opts.locked(even_if_locked);
    wt.is_prunable(Some(&mut opts)).map_err(|e| e.to_string())
}

/// Relies on git2::Repository::find_branch with BranchType::Local: does a
/// local branch of this name exist?
#[verifier::external_body]
pub(crate) fn local_branch_exists(repo: &git2::Repository, name: &str) -> bool {
    repo.find_branch(name, git2::BranchType::Local).is_ok()
}

/// Relies on git2::Repository::head, git2::Reference::peel_to_commit and
/// git2::Repository::branch with force = false: create a local branch at
/// the commit HEAD resolves to, never overwriting an existing branch.
#[verifier::external_body]
pub(crate) fn create_branch_at_head(repo: &git2::Repository, name: &str) -> Result<(), String> {
    let head = repo.head().map_err(|e| e.to_string())?;
    let target = head.peel_to_commit().map_err(|e| e.to_string())?;
    repo.branch(name, &target, false).map_err(|e| e.to_string())?;
    Ok(())
}

/// Relies on git2::Repository::find_branch, git2::Branch::into_reference,
/// git2::WorktreeAddOptions::reference and git2::Repository::worktree:
/// register a linked worktree named `name` at `target`, checked out at the
/// named local branch.
#[verifier::external_body]
pub(crate) fn add_worktree(
    repo: &git2::Repository,
    name: &str,
    target: &str,
    branch: &str,
) -> Result<(), String> {
    let b = repo.find_branch(branch, git2::BranchType::Local).map_err(|e| e.to_string())?;
    let r = b.into_reference();
    let mut opts = git2::WorktreeAddOptions::new();
    opts.reference(Some(&r));
    repo.worktree(name, std::path::Path::new(target), Some(&opts)).map_err(|e| e.to_string())?;
    Ok(())
}

/// Relies on git2::WorktreePruneOptions and git2::Worktree::prune: prune
/// the worktree's registry entry, with the three prune flags as given
/// (prune even if valid, prune even if locked, remove the working tree).
#[verifier::external_body]
pub(crate) fn prune_worktree(
    wt: &git2::Worktree,
    even_if_valid: bool,
    even_if_locked: bool,
    remove_working_tree: bool,
) -> Result<(), String> {
    let mut opts = git2::WorktreePruneOptions::new();
    opts.valid(even_if_valid);
    opts.locked(even_if_locked);
    opts.working_tree(remove_working_tree);
    wt.prune(Some(&mut opts)).map_err(|e| e.to_string())
}

} // verus!
