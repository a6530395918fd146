use vstd::prelude::*;
use vstd::string::*;

use crate::error::MitosError;
use crate::error::MitosResult;
use crate::git;
use crate::paths::is_absolute;
use crate::paths::join_path;
use crate::paths::last_component;
use crate::paths::lemma_after_last_slash_split;
use crate::paths::paths_equal;
use crate::paths::sanitize_branch;
use crate::paths::spec_ends_with;
use crate::paths::spec_is_absolute;
use crate::paths::spec_join;
use crate::paths::spec_last_component;
use crate::paths::spec_path_eq;
use crate::paths::spec_sanitize;
use crate::paths::spec_trim_slashes;
use crate::paths::str_ends_with;
use crate::paths::str_eq;

verus! {

// The worktree lifecycle manager: enumerate the repository's worktrees,
// create a new linked worktree for a branch, and delete one. The pure
// rules — how the list is assembled, how a target path and registry name
// are derived, how a deletion target is resolved and the main worktree
// protected, and which cleanup steps remain after a prune — are verified
// here; the observations they work on come from the trusted wrappers in
// `git`.

/// One worktree of the repository: its registry name, working directory,
/// the branch checked out there (if any), and its lock state.
#[derive(Debug, Clone, PartialEq, Eq)]
pub struct WorktreeInfo {
    pub name: String,
    pub path: String,
    pub branch: Option<String>,
    pub locked: bool,
}

/// The mathematical value of a `WorktreeInfo`.
pub ghost struct WorktreeView {
    pub name: Seq<char>,
    pub path: Seq<char>,
    pub branch: Option<Seq<char>>,
    pub locked: bool,
}

impl View for WorktreeInfo {
    type V = WorktreeView;

    open spec fn view(&self) -> WorktreeView {
        WorktreeView {
            name: self.name@,
            path: self.path@,
            branch: self.branch.deep_view(),
            locked: self.locked,
        }
    }
}

pub open spec fn views_of(s: Seq<WorktreeInfo>) -> Seq<WorktreeView> {
    s.map_values(|w: WorktreeInfo| w@)
}

/// What was observed of the main worktree: the repository's working
/// directory and the reference checked out there.
#[derive(Debug, Clone)]
pub struct MainData {
    pub workdir: String,
    pub branch: Option<String>,
}

/// What was observed of one linked worktree that could be opened.
#[derive(Debug, Clone)]
pub struct LinkedData {
    pub path: String,
    pub wt_name: Option<String>,
    pub branch: Option<String>,
    pub locked: bool,
}

/// One entry of the linked-worktree registry as observed: its name as
/// listed (`None` when unreadable), and what opening it yielded (`None`
/// when it could not be opened, or its path was unreadable).
#[derive(Debug, Clone)]
pub struct LinkedEntry {
    pub name: Option<String>,
    pub opened: Option<LinkedData>,
}

/// The entry synthesized for the main worktree: named after the final
/// component of the working directory (empty when it has none), never
/// locked.
pub open spec fn spec_main_info(m: MainData) -> WorktreeView {
    WorktreeView {
        name: match spec_last_component(m.workdir@) {
            Some(n) => n,
            None => Seq::<char>::empty(),
        },
        path: m.workdir@,
        branch: m.branch.deep_view(),
        locked: false,
    }
}

/// The entry a registry observation contributes: `None` (skipped) when the
/// listed name was unreadable or the worktree could not be opened; else an
/// entry preferring the worktree's own name over the listed one.
pub open spec fn spec_entry_info(e: LinkedEntry) -> Option<WorktreeView> {
    match e.name {
        Some(n) => match e.opened {
            Some(d) => Some(
                WorktreeView {
                    name: match d.wt_name {
                        Some(w) => w@,
                        None => n@,
                    },
                    path: d.path@,
                    branch: d.branch.deep_view(),
                    locked: d.locked,
                },
            ),
            None => None,
        },
        None => None,
    }
}

/// The linked part of the enumeration: survivors in registry order.
pub open spec fn spec_linked(entries: Seq<LinkedEntry>) -> Seq<WorktreeView>
    decreases entries.len(),
{
    if entries.len() == 0 {
        Seq::<WorktreeView>::empty()
    } else {
        spec_linked(entries.drop_last()) + match spec_entry_info(entries.last()) {
            Some(v) => seq![v],
            None => Seq::<WorktreeView>::empty(),
        }
    }
}

/// The full enumeration: the main worktree first (when there is a working
/// directory), then the surviving linked entries.
pub open spec fn spec_worktree_list(main: Option<MainData>, entries: Seq<LinkedEntry>) -> Seq<
    WorktreeView,
> {
    (match main {
        Some(m) => seq![spec_main_info(m)],
        None => Seq::<WorktreeView>::empty(),
    }) + spec_linked(entries)
}

fn clone_opt_string(o: &Option<String>) -> (r: Option<String>)
    ensures
        r.deep_view() == o.deep_view(),
        r is Some <==> o is Some,
{
    match o {
        Some(s) => Some(s.clone()),
        None => None,
    }
}

/// Assemble the enumeration result from the raw observations. This is the
/// whole of the enumerator's own logic: the main worktree is synthesized
/// first, unreadable or unopenable registry entries are skipped, and each
/// survivor carries the observed path, branch and lock state.
pub fn build_worktree_list(main: Option<MainData>, entries: Vec<LinkedEntry>) -> (r: Vec<
    WorktreeInfo,
>)
    ensures
        views_of(r@) == spec_worktree_list(main, entries@),
{
    let ghost gmain = main;
    let mut infos: Vec<WorktreeInfo> = Vec::new();
    match &main {
        Some(m) => {
            let name = match last_component(m.workdir.as_str()) {
                Some(n) => n,
                None => String::new(),
            };
            let info = WorktreeInfo {
                name,
                path: m.workdir.clone(),
                branch: clone_opt_string(&m.branch),
                locked: false,
            };
            proof {
                assert(info@ == spec_main_info(gmain->Some_0));
            }
            infos.push(info);
            proof {
                assert(views_of(infos@) =~= seq![spec_main_info(gmain->Some_0)]);
            }
        },
        None => {
            proof {
                assert(views_of(infos@) =~= Seq::<WorktreeView>::empty());
            }
        },
    }
    let n = entries.len();
    let mut i: usize = 0;
    proof {
        assert(entries@.subrange(0, 0) =~= Seq::<LinkedEntry>::empty());
        assert(views_of(infos@) =~= spec_worktree_list(gmain, entries@.subrange(0, 0)));
    }
    while i < n
        invariant
            i <= n,
            n == entries@.len(),
            views_of(infos@) == spec_worktree_list(gmain, entries@.subrange(0, i as int)),
        decreases n - i,
    {
        let e = &entries[i];
        let info_opt: Option<WorktreeInfo> = match &e.name {
            Some(nm) => match &e.opened {
                Some(d) => Some(
                    WorktreeInfo {
                        name: match &d.wt_name {
                            Some(w) => w.clone(),
                            None => nm.clone(),
                        },
                        path: d.path.clone(),
                        branch: clone_opt_string(&d.branch),
                        locked: d.locked,
                    },
                ),
                None => None,
            },
            None => None,
        };
        proof {
            assert(entries@.subrange(0, (i + 1) as int).drop_last() =~= entries@.subrange(
                0,
                i as int,
            ));
            assert(entries@.subrange(0, (i + 1) as int).last() == entries@[i as int]);
        }
        match info_opt {
            Some(info) => {
                let ghost old_infos = infos@;
                let ghost ginfo = info;
                proof {
                    assert(spec_entry_info(entries@[i as int]) == Some(ginfo@));
                    assert(spec_linked(entries@.subrange(0, (i + 1) as int)) =~= spec_linked(
                        entries@.subrange(0, i as int),
                    ).push(ginfo@));
                }
                infos.push(info);
                proof {
                    assert(infos@ == old_infos.push(ginfo));
                    assert(views_of(old_infos.push(ginfo)) =~= views_of(old_infos).push(ginfo@));
                    assert(views_of(infos@) =~= spec_worktree_list(
                        gmain,
                        entries@.subrange(0, (i + 1) as int),
                    ));
                }
            },
            None => {
                proof {
                    assert(spec_entry_info(entries@[i as int]) is None);
                    assert(spec_linked(entries@.subrange(0, (i + 1) as int)) =~= spec_linked(
                        entries@.subrange(0, i as int),
                    ));
                    assert(views_of(infos@) =~= spec_worktree_list(
                        gmain,
                        entries@.subrange(0, (i + 1) as int),
                    ));
                }
            },
        }
        i = i + 1;
    }
    proof {
        assert(entries@.subrange(0, n as int) =~= entries@);
    }
    infos
}

// ---------------------------------------------------------------------
// Resolving a deletion target.

/// `i` is the first entry whose name equals the target.
pub open spec fn spec_first_name_match(infos: Seq<WorktreeInfo>, t: Seq<char>, i: int) -> bool {
    &&& 0 <= i < infos.len()
    &&& infos[i].name@ == t
    &&& forall|k: int| 0 <= k < i ==> infos[k].name@ != t
}

pub open spec fn spec_no_name_match(infos: Seq<WorktreeInfo>, t: Seq<char>) -> bool {
    forall|k: int| 0 <= k < infos.len() ==> infos[k].name@ != t
}

/// The absolute form of the target: joined onto the current working
/// directory when relative.
pub open spec fn spec_abs_target(t: Seq<char>, cwd: Seq<char>) -> Seq<char> {
    if spec_is_absolute(t) {
        t
    } else {
        spec_join(cwd, t)
    }
}

/// A worktree matches by path when its path equals the absolute target or
/// ends with the target as written.
pub open spec fn spec_path_match(w: WorktreeInfo, abs: Seq<char>, t: Seq<char>) -> bool {
    spec_path_eq(w.path@, abs) || spec_ends_with(w.path@, t)
}

pub open spec fn spec_first_path_match(
    infos: Seq<WorktreeInfo>,
    abs: Seq<char>,
    t: Seq<char>,
    i: int,
) -> bool {
    &&& 0 <= i < infos.len()
    &&& spec_path_match(infos[i], abs, t)
    &&& forall|k: int| 0 <= k < i ==> !spec_path_match(infos[k], abs, t)
}

/// Resolution: an exact name match takes priority; otherwise the target is
/// made absolute and matched against paths.
pub open spec fn spec_resolves_to(
    infos: Seq<WorktreeInfo>,
    t: Seq<char>,
    cwd: Seq<char>,
    i: int,
) -> bool {
    ||| spec_first_name_match(infos, t, i)
    ||| (spec_no_name_match(infos, t) && spec_first_path_match(
        infos,
        spec_abs_target(t, cwd),
        t,
        i,
    ))
}

pub open spec fn spec_no_match(infos: Seq<WorktreeInfo>, t: Seq<char>, cwd: Seq<char>) -> bool {
    &&& spec_no_name_match(infos, t)
    &&& forall|k: int|
        0 <= k < infos.len() ==> !spec_path_match(infos[k], spec_abs_target(t, cwd), t)
}

/// The main worktree is the one whose path is the repository's working
/// directory; a bare repository has none.
pub open spec fn spec_is_main(w: WorktreeInfo, workdir: Option<String>) -> bool {
    match workdir {
        Some(wd) => spec_path_eq(w.path@, wd@),
        None => false,
    }
}

/// A target resolves to at most one entry.
pub proof fn lemma_resolution_unique(
    infos: Seq<WorktreeInfo>,
    t: Seq<char>,
    cwd: Seq<char>,
    i: int,
    j: int,
)
    requires
        spec_resolves_to(infos, t, cwd, i),
        spec_resolves_to(infos, t, cwd, j),
    ensures
        i == j,
{
}

fn find_by_name(infos: &Vec<WorktreeInfo>, target: &str) -> (r: Option<usize>)
    ensures
        match r {
            Some(i) => spec_first_name_match(infos@, target@, i as int),
            None => spec_no_name_match(infos@, target@),
        },
{
    let n = infos.len();
    let mut i: usize = 0;
    while i < n
        invariant
            i <= n,
            n == infos@.len(),
            forall|k: int| 0 <= k < i ==> infos@[k].name@ != target@,
        decreases n - i,
    {
        if str_eq(infos[i].name.as_str(), target) {
            return Some(i);
        }
        i = i + 1;
    }
    None
}

fn find_by_path(infos: &Vec<WorktreeInfo>, abs: &str, target: &str) -> (r: Option<usize>)
    ensures
        match r {
            Some(i) => spec_first_path_match(infos@, abs@, target@, i as int),
            None => forall|k: int|
                0 <= k < infos@.len() ==> !spec_path_match(infos@[k], abs@, target@),
        },
{
    let n = infos.len();
    let mut i: usize = 0;
    while i < n
        invariant
            i <= n,
            n == infos@.len(),
            forall|k: int| 0 <= k < i ==> !spec_path_match(infos@[k], abs@, target@),
        decreases n - i,
    {
        if paths_equal(infos[i].path.as_str(), abs) || str_ends_with(
            infos[i].path.as_str(),
            target,
        ) {
            return Some(i);
        }
        i = i + 1;
    }
    None
}

/// Resolve a deletion target against an enumeration and guard the main
/// worktree. Returns the index of the worktree to delete; fails when no
/// worktree matches, and unconditionally — force or not — when the match
/// is the main worktree.
pub fn plan_delete(
    infos: &Vec<WorktreeInfo>,
    workdir: &Option<String>,
    target: &str,
    cwd: &str,
) -> (r: Result<usize, MitosError>)
    ensures
        match r {
            Ok(i) => spec_resolves_to(infos@, target@, cwd@, i as int) && !spec_is_main(
                infos@[i as int],
                *workdir,
            ),
            Err(e) => e matches MitosError::GitError(m) && ((spec_no_match(infos@, target@, cwd@)
                && m@ == "worktree not found: "@ + target@) || (exists|i: int|
                spec_resolves_to(infos@, target@, cwd@, i) && spec_is_main(infos@[i], *workdir)
                    && m@ == "Cannot delete main worktree"@)),
        },
{
    let found = find_by_name(infos, target);
    let idx_opt: Option<usize> = match found {
        Some(i) => Some(i),
        None => {
            let abs = if is_absolute(target) {
                String::from_str(target)
            } else {
                join_path(cwd, target)
            };
            find_by_path(infos, abs.as_str(), target)
        },
    };
    match idx_opt {
        None => Err(MitosError::GitError(String::from_str("worktree not found: ").concat(target))),
        Some(i) => {
            let main_hit = match workdir {
                Some(wd) => paths_equal(infos[i].path.as_str(), wd.as_str()),
                None => false,
            };
            if main_hit {
                proof {
                    assert(spec_resolves_to(infos@, target@, cwd@, i as int));
                }
                Err(MitosError::GitError(String::from_str("Cannot delete main worktree")))
            } else {
                Ok(i)
            }
        },
    }
}

// ---------------------------------------------------------------------
// The two-phase cleanup that follows a deletion.

/// What remains to be reconciled on the filesystem after the native prune
/// was attempted: the worktree's directory, the repository's registry
/// directory for it (`None` when its location was unreadable), and whether
/// the prune failed.
#[derive(Debug, Clone)]
pub struct CleanupTask {
    pub worktree_path: String,
    pub metadata_dir: Option<String>,
    pub prune_failed: bool,
}

/// One remaining filesystem removal.
#[derive(Debug, Clone, PartialEq, Eq)]
pub enum CleanupAction {
    RemoveWorktreeDir(String),
    RemoveMetadataDir(String),
}

/// The removals still owed: the worktree directory whenever it still
/// exists — whether or not the prune succeeded — and, only when the prune
/// failed, the registry directory if present, so that no orphaned registry
/// state is left behind.
pub open spec fn spec_cleanup(task: CleanupTask, dir_exists: bool, meta_exists: bool) -> Seq<
    CleanupAction,
> {
    (if dir_exists {
        seq![CleanupAction::RemoveWorktreeDir(task.worktree_path)]
    } else {
        Seq::<CleanupAction>::empty()
    }) + (if task.prune_failed && meta_exists {
        match task.metadata_dir {
            Some(m) => seq![CleanupAction::RemoveMetadataDir(m)],
            None => Seq::<CleanupAction>::empty(),
        }
    } else {
        Seq::<CleanupAction>::empty()
    })
}

/// Decide which removals are owed, from whether each directory still
/// exists. The caller performs them in order and reports any failure
/// through `cleanup_failure`.
pub fn cleanup_actions(task: &CleanupTask, dir_exists: bool, metadata_exists: bool) -> (r: Vec<
    CleanupAction,
>)
    ensures
        r@ == spec_cleanup(*task, dir_exists, metadata_exists),
{
    let mut r: Vec<CleanupAction> = Vec::new();
    if dir_exists {
        r.push(CleanupAction::RemoveWorktreeDir(task.worktree_path.clone()));
    }
    if task.prune_failed && metadata_exists {
        match &task.metadata_dir {
            Some(m) => {
                r.push(CleanupAction::RemoveMetadataDir(m.clone()));
            },
            None => {},
        }
    }
    proof {
        assert(r@ =~= spec_cleanup(*task, dir_exists, metadata_exists));
    }
    r
}

/// A worktree directory that is already gone is never removed again: no
/// cleanup step touches it, so deletion falls through to the registry
/// cleanup alone.
pub proof fn lemma_missing_directory_skipped(task: CleanupTask, meta_exists: bool)
    ensures
        forall|j: int|
            0 <= j < spec_cleanup(task, false, meta_exists).len() ==> !(spec_cleanup(
                task,
                false,
                meta_exists,
            )[j] is RemoveWorktreeDir),
{
}

/// The error reported when a cleanup removal fails, as the deleter words
/// it for each phase.
pub fn cleanup_failure(action: &CleanupAction, detail: &str) -> (e: MitosError)
    ensures
        e matches MitosError::GitError(m) && m@ == (match action {
            CleanupAction::RemoveWorktreeDir(_) => "Failed to remove worktree directory: "@
                + detail@,
            CleanupAction::RemoveMetadataDir(_) => "Failed to clean git metadata: "@ + detail@,
        }),
{
    match action {
        CleanupAction::RemoveWorktreeDir(_) => MitosError::GitError(
            String::from_str("Failed to remove worktree directory: ").concat(detail),
        ),
        CleanupAction::RemoveMetadataDir(_) => MitosError::GitError(
            String::from_str("Failed to clean git metadata: ").concat(detail),
        ),
    }
}

// ---------------------------------------------------------------------
// Target-path derivation for creation.

/// The view of an optionally given path.
pub open spec fn spec_given_path(path: Option<&str>) -> Option<Seq<char>> {
    match path {
        Some(p) => Some(p@),
        None => None,
    }
}

/// The directory a new worktree goes to: the given path (made absolute
/// against the working directory when relative), or, when none is given,
/// the working directory joined with the sanitized branch name.
pub open spec fn spec_target_path(
    base: Seq<char>,
    branch: Seq<char>,
    path: Option<Seq<char>>,
) -> Seq<char> {
    match path {
        None => spec_join(base, spec_sanitize(branch)),
        Some(p) => if spec_is_absolute(p) {
            p
        } else {
            spec_join(base, p)
        },
    }
}

/// Derive the target directory for a new worktree.
pub fn resolve_target_path(base: &str, branch: &str, path: Option<&str>) -> (r: String)
    ensures
        r@ == spec_target_path(base@, branch@, spec_given_path(path)),
{
    match path {
        None => {
            let s = sanitize_branch(branch);
            join_path(base, s.as_str())
        },
        Some(p) => {
            if is_absolute(p) {
                String::from_str(p)
            } else {
                join_path(base, p)
            }
        },
    }
}

/// A branch name that is a plain directory name — nonempty, without `/`,
/// and not `.` or `..` — names its default worktree directory after
/// itself: the derived registry name is the branch name again. This is
/// what lets a worktree created for such a branch be deleted by the
/// branch's own name.
pub proof fn lemma_default_name_is_branch(base: Seq<char>, branch: Seq<char>)
    requires
        branch.len() > 0,
        forall|k: int| 0 <= k < branch.len() ==> branch[k] != '/',
        branch != seq!['.'],
        branch != seq!['.', '.'],
    ensures
        spec_last_component(spec_target_path(base, branch, None)) == Some(branch),
{
    assert(spec_sanitize(branch) =~= branch);
    let t = spec_target_path(base, branch, None);
    let u: Seq<char> = if base.len() > 0 && base[base.len() - 1] == '/' {
        base
    } else {
        base + seq!['/']
    };
    assert(t =~= u + branch);
    assert(u.len() > 0 && u[u.len() - 1] == '/');
    assert(t[t.len() - 1] == branch[branch.len() - 1]);
    assert(spec_trim_slashes(t) == t);
    lemma_after_last_slash_split(t, u.len() as int);
    assert(t.subrange(u.len() as int, t.len() as int) =~= branch);
}

// ---------------------------------------------------------------------
// The operations.

/// Ensure a local branch of this name exists: a no-op when it does, else
/// the branch is created at the commit HEAD resolves to, never replacing
/// an existing branch. Whether it succeeds is the branch store's decision
/// (HEAD may be unborn, creation may be refused); every failure is a
/// `GitError`.
pub fn ensure_local_branch(repo: &git2::Repository, branch: &str) -> (r: MitosResult<()>)
    ensures
        r matches Err(e) ==> e is GitError,
{
    if git::local_branch_exists(repo, branch) {
        Ok(())
    } else {
        match git::create_branch_at_head(repo, branch) {
            Ok(u) => Ok(u),
            Err(m) => Err(MitosError::GitError(m)),
        }
    }
}

/// A failure to enumerate the linked-worktree registry never fails the
/// whole call: enumeration goes on as if the registry listed no names at
/// all, because partial visibility is preferable to total failure of an
/// introspection operation.
pub fn registry_names_or_empty(r: Result<Vec<Option<String>>, String>) -> (v: Vec<Option<String>>)
    ensures
        match r {
            Ok(names) => v == names,
            Err(_) => v@.len() == 0,
        },
{
    match r {
        Ok(names) => names,
        Err(_) => Vec::new(),
    }
}

/// Enumerate the worktrees of the repository found from `start`: the main
/// worktree first (when there is a working directory), then every linked
/// worktree whose registry entry could be read and opened. Corrupt or
/// unreadable entries are skipped, and a failed registry listing counts
/// as empty (`registry_names_or_empty`); only a failure to discover or
/// open the repository itself fails the call, and that failure is a
/// `GitError`. The Ok clause records only that the result is an assembly
/// of observations in the sense of `spec_worktree_list`; any list is the
/// assembly of some observations, so the binding statement of how
/// observations become the list is `build_worktree_list`'s exact
/// contract, through which every result here passes.
pub fn list_worktrees_from(start: &str) -> (r: MitosResult<Vec<WorktreeInfo>>)
    ensures
        r matches Ok(v) ==> exists|m: Option<MainData>, es: Seq<LinkedEntry>|
            views_of(v@) == spec_worktree_list(m, es),
        r matches Err(e) ==> e is GitError,
{
    let repo = match git::discover_repo(start) {
        Ok(r_) => r_,
        Err(m) => {
            return Err(MitosError::GitError(m));
        },
    };
    let main: Option<MainData> = match git::repo_workdir(&repo) {
        Some(wd) => {
            let b = git::head_shorthand(&repo);
            Some(MainData { workdir: wd, branch: b })
        },
        None => None,
    };
    let names: Vec<Option<String>> = registry_names_or_empty(git::worktree_names(&repo));
    let mut entries: Vec<LinkedEntry> = Vec::new();
    let n = names.len();
    let mut i: usize = 0;
    while i < n
        invariant
            i <= n,
            n == names@.len(),
        decreases n - i,
    {
        let entry: LinkedEntry = match &names[i] {
            None => LinkedEntry { name: None, opened: None },
            Some(nm) => {
                match git::find_worktree(&repo, nm.as_str()) {
                    Err(_) => LinkedEntry { name: Some(nm.clone()), opened: None },
                    Ok(wt) => {
                        match git::worktree_path(&wt) {
                            None => LinkedEntry { name: Some(nm.clone()), opened: None },
                            Some(p) => {
                                let br = match git::open_repository(p.as_str()) {
                                    Ok(r2) => git::head_shorthand(&r2),
                                    Err(_) => None,
                                };
                                let lk = match git::worktree_is_prunable(&wt, true, false) {
                                    Ok(prunable) => !prunable,
                                    Err(_) => false,
                                };
                                let wn = git::worktree_name(&wt);
                                LinkedEntry {
                                    name: Some(nm.clone()),
                                    opened: Some(
                                        LinkedData { path: p, wt_name: wn, branch: br, locked: lk },
                                    ),
                                }
                            },
                        }
                    },
                }
            },
        };
        entries.push(entry);
        i = i + 1;
    }
    let ghost gmain = main;
    let ghost gentries = entries@;
    let v = build_worktree_list(main, entries);
    proof {
        assert(views_of(v@) == spec_worktree_list(gmain, gentries));
    }
    Ok(v)
}

/// Enumerate the worktrees of the repository containing the current
/// directory.
pub fn list_worktrees() -> (r: MitosResult<Vec<WorktreeInfo>>)
    ensures
        r matches Ok(v) ==> exists|m: Option<MainData>, es: Seq<LinkedEntry>|
            views_of(v@) == spec_worktree_list(m, es),
        r matches Err(e) ==> e is GitError,
{
    list_worktrees_from(".")
}

/// Decide what creation requires before any mutation, from the observed
/// working directory: the repository must have one (else the
/// bare-repository error — a working directory whose path is not UTF-8
/// counts as absent), and the derived target directory must have a final
/// component, which becomes the registry name (else the invalid-target
/// error). On success the target is the exact derivation of
/// `spec_target_path` and the name its final component.
pub fn plan_create(workdir: &Option<String>, branch: &str, path: Option<&str>) -> (r: Result<
    (String, String),
    MitosError,
>)
    ensures
        match r {
            Ok(tn) => workdir matches Some(wd) && tn.0@ == spec_target_path(
                wd@,
                branch@,
                spec_given_path(path),
            ) && spec_last_component(tn.0@) == Some(tn.1@),
            Err(e) => e matches MitosError::GitError(m) && ((workdir is None
                && m@ == "Bare repository is not supported for worktrees"@) || (
            workdir matches Some(wd) && spec_last_component(
                spec_target_path(wd@, branch@, spec_given_path(path)),
            ) is None && m@ == "Invalid target path"@)),
        },
{
    match workdir {
        None => Err(
            MitosError::GitError(
                String::from_str("Bare repository is not supported for worktrees"),
            ),
        ),
        Some(wd) => {
            let target = resolve_target_path(wd.as_str(), branch, path);
            match last_component(target.as_str()) {
                None => Err(MitosError::GitError(String::from_str("Invalid target path"))),
                Some(nm) => Ok((target, nm)),
            }
        },
    }
}

/// Create a worktree for `branch` under the repository found from `start`:
/// the working-directory and target gates of `plan_create` come first —
/// before any branch is created — then the branch is ensured to exist,
/// then the worktree is registered at the planned target under the
/// planned name. Every failure is a `GitError`; which error the library's
/// own gates give, and on exactly which observations, is `plan_create`'s
/// contract. A returned path is always the exact derivation of
/// `spec_target_path` from some observed working directory, and always
/// has a final component (the registry name).
pub fn create_worktree_from(start: &str, branch: &str, path: Option<&str>) -> (r: MitosResult<
    String,
>)
    ensures
        r matches Ok(t) ==> (exists|base: Seq<char>|
            t@ == #[trigger] spec_target_path(base, branch@, spec_given_path(path)))
            && spec_last_component(t@) is Some,
        r matches Err(e) ==> e is GitError,
{
    let repo = match git::discover_repo(start) {
        Ok(r_) => r_,
        Err(m) => {
            return Err(MitosError::GitError(m));
        },
    };
    let wd = git::repo_workdir(&repo);
    let planned = match plan_create(&wd, branch, path) {
        Ok(tn) => tn,
        Err(e) => {
            return Err(e);
        },
    };
    let target = planned.0;
    let name = planned.1;
    match ensure_local_branch(&repo, branch) {
        Ok(_) => (),
        Err(e) => {
            return Err(e);
        },
    }
    proof {
        let w = wd->Some_0;
        assert(target@ == spec_target_path(w@, branch@, spec_given_path(path)));
        assert(spec_last_component(target@) is Some);
    }
    match git::add_worktree(&repo, name.as_str(), target.as_str(), branch) {
        Ok(_) => Ok(target),
        Err(m) => Err(MitosError::GitError(m)),
    }
}

/// Create a worktree for `branch` under the repository containing the
/// current directory.
pub fn create_worktree(branch: &str, path: Option<&str>) -> (r: MitosResult<String>)
    ensures
        r matches Ok(t) ==> (exists|base: Seq<char>|
            t@ == #[trigger] spec_target_path(base, branch@, spec_given_path(path)))
            && spec_last_component(t@) is Some,
        r matches Err(e) ==> e is GitError,
{
    create_worktree_from(".", branch, path)
}

/// How deletion parameterizes the native prune: even a still-valid
/// worktree is pruned, a locked one only under `force`, and the prune is
/// asked to remove the working tree itself.
#[derive(Debug, Clone, Copy)]
pub struct PruneRequest {
    pub even_if_valid: bool,
    pub even_if_locked: bool,
    pub remove_working_tree: bool,
}

/// The prune request deletion makes for a given `force` flag.
pub fn delete_prune_request(force: bool) -> (r: PruneRequest)
    ensures
        r.even_if_valid,
        r.even_if_locked == force,
        r.remove_working_tree,
{
    PruneRequest { even_if_valid: true, even_if_locked: force, remove_working_tree: true }
}

/// Delete the worktree that `target` resolves to, under the repository
/// found from `start`; `cwd` is the directory relative targets are
/// resolved against. The main worktree is never deleted, force or not.
/// The native prune is requested as `delete_prune_request` states.
/// Whatever the prune's outcome, the returned task describes the
/// filesystem reconciliation still owed (see `cleanup_actions`), which
/// the caller performs: its directory is the resolved worktree's own path,
/// its registry directory the repository's `worktrees` entry of that
/// worktree's name, and nothing else; every failure is a `GitError`.
pub fn delete_worktree_from(start: &str, target: &str, force: bool, cwd: &str) -> (r: MitosResult<
    CleanupTask,
>)
    ensures
        r matches Ok(task) ==> exists|infos: Seq<WorktreeInfo>, wd: Option<String>, i: int|
            #[trigger] spec_resolves_to(infos, target@, cwd@, i) && 0 <= i < infos.len()
                && !(#[trigger] spec_is_main(infos[i], wd)) && task.worktree_path@
                == infos[i].path@ && (
            task.metadata_dir matches Some(m) ==> exists|g: Seq<char>|
                m@ == #[trigger] spec_join(spec_join(g, "worktrees"@), infos[i].name@)),
        r matches Err(e) ==> e is GitError,
{
    let repo = match git::discover_repo(start) {
        Ok(r_) => r_,
        Err(m) => {
            return Err(MitosError::GitError(m));
        },
    };
    let infos = match list_worktrees_from(start) {
        Ok(v) => v,
        Err(e) => {
            return Err(e);
        },
    };
    let wd = git::repo_workdir(&repo);
    let idx = match plan_delete(&infos, &wd, target, cwd) {
        Ok(i) => i,
        Err(e) => {
            return Err(e);
        },
    };
    let ghost ginfos = infos@;
    let ghost gwd = wd;
    let name = infos[idx].name.clone();
    let req = delete_prune_request(force);
    let prune_failed: bool = match git::find_worktree(&repo, name.as_str()) {
        Ok(wt) => git::prune_worktree(
            &wt,
            req.even_if_valid,
            req.even_if_locked,
            req.remove_working_tree,
        ).is_err(),
        Err(_) => true,
    };
    let metadata_dir: Option<String> = match git::repo_gitdir(&repo) {
        Some(g) => {
            let wts = join_path(g.as_str(), "worktrees");
            let md = join_path(wts.as_str(), name.as_str());
            proof {
                assert(md@ == spec_join(spec_join(g@, "worktrees"@), ginfos[idx as int].name@));
            }
            Some(md)
        },
        None => None,
    };
    let task = CleanupTask {
        worktree_path: infos[idx].path.clone(),
        metadata_dir,
        prune_failed,
    };
    proof {
        let i = idx as int;
        assert(spec_resolves_to(ginfos, target@, cwd@, i));
        assert(!spec_is_main(ginfos[i], gwd));
        assert(task.worktree_path@ == ginfos[i].path@);
        assert(task.metadata_dir matches Some(m) ==> exists|g: Seq<char>|
            m@ == #[trigger] spec_join(spec_join(g, "worktrees"@), ginfos[i].name@));
    }
    Ok(task)
}

/// Delete a worktree of the repository containing the current directory.
pub fn delete_worktree(target: &str, force: bool, cwd: &str) -> (r: MitosResult<CleanupTask>)
    ensures
        r matches Ok(task) ==> exists|infos: Seq<WorktreeInfo>, wd: Option<String>, i: int|
            #[trigger] spec_resolves_to(infos, target@, cwd@, i) && 0 <= i < infos.len()
                && !(#[trigger] spec_is_main(infos[i], wd)) && task.worktree_path@
                == infos[i].path@ && (
            task.metadata_dir matches Some(m) ==> exists|g: Seq<char>|
                m@ == #[trigger] spec_join(spec_join(g, "worktrees"@), infos[i].name@)),
        r matches Err(e) ==> e is GitError,
{
    delete_worktree_from(".", target, force, cwd)
}

// ---------------------------------------------------------------------
// Laws of the enumeration.

/// An observed registry entry avoids the given directory.
pub open spec fn spec_entry_avoids(e: LinkedEntry, wd: Seq<char>) -> bool {
    match spec_entry_info(e) {
        Some(v) => v.path != wd,
        None => true,
    }
}

proof fn lemma_linked_paths_avoid(entries: Seq<LinkedEntry>, wd: Seq<char>)
    requires
        forall|k: int| 0 <= k < entries.len() ==> spec_entry_avoids(#[trigger] entries[k], wd),
    ensures
        forall|j: int|
            0 <= j < spec_linked(entries).len() ==> #[trigger] spec_linked(entries)[j].path != wd,
    decreases entries.len(),
{
    if entries.len() > 0 {
        assert(forall|k: int|
            0 <= k < entries.drop_last().len() ==> spec_entry_avoids(
                #[trigger] entries.drop_last()[k],
                wd,
            ));
        lemma_linked_paths_avoid(entries.drop_last(), wd);
        assert(spec_entry_avoids(entries[entries.len() - 1], wd));
    }
}

/// In any enumeration of a repository with a working directory, exactly
/// one entry carries that directory as its path — the main worktree,
/// listed first — and that entry is never locked. (That no linked registry
/// entry points at the working directory is the registry's own invariant,
/// taken as a premise.)
pub proof fn lemma_main_listed_exactly_once(main: MainData, entries: Seq<LinkedEntry>)
    requires
        forall|k: int| 0 <= k < entries.len() ==> spec_entry_avoids(#[trigger] entries[k], main.workdir@),
    ensures
        spec_worktree_list(Some(main), entries).len() >= 1,
        spec_worktree_list(Some(main), entries)[0].path == main.workdir@,
        spec_worktree_list(Some(main), entries)[0].locked == false,
        forall|j: int|
            1 <= j < spec_worktree_list(Some(main), entries).len() ==> #[trigger] spec_worktree_list(
                Some(main),
                entries,
            )[j].path != main.workdir@,
{
    lemma_linked_paths_avoid(entries, main.workdir@);
    let r = spec_worktree_list(Some(main), entries);
    assert(r[0] == spec_main_info(main));
    assert(forall|j: int|
        1 <= j < r.len() ==> #[trigger] r[j] == spec_linked(entries)[j - 1]);
}

/// Two registry observations never contribute the same name.
pub open spec fn spec_entries_distinct_names(a: LinkedEntry, b: LinkedEntry) -> bool {
    match (spec_entry_info(a), spec_entry_info(b)) {
        (Some(x), Some(y)) => x.name != y.name,
        _ => true,
    }
}

/// The observation contributes an entry of this name.
pub open spec fn spec_entry_named(e: LinkedEntry, nm: Seq<char>) -> bool {
    match spec_entry_info(e) {
        Some(v) => v.name == nm,
        None => false,
    }
}

pub open spec fn spec_some_entry_named(entries: Seq<LinkedEntry>, nm: Seq<char>) -> bool {
    exists|k: int| 0 <= k < entries.len() && spec_entry_named(#[trigger] entries[k], nm)
}

/// No two entries of the sequence carry the same name.
pub open spec fn spec_names_distinct(s: Seq<WorktreeView>) -> bool {
    forall|i: int, j: int|
        0 <= i < j < s.len() ==> (#[trigger] s[i]).name != (#[trigger] s[j]).name
}

/// Every name in the linked part of the enumeration was contributed by
/// some registry observation.
proof fn lemma_linked_membership(entries: Seq<LinkedEntry>)
    ensures
        forall|j: int|
            0 <= j < spec_linked(entries).len() ==> spec_some_entry_named(
                entries,
                (#[trigger] spec_linked(entries)[j]).name,
            ),
    decreases entries.len(),
{
    if entries.len() > 0 {
        let pre = entries.drop_last();
        lemma_linked_membership(pre);
        assert forall|j: int| 0 <= j < spec_linked(entries).len() implies spec_some_entry_named(
            entries,
            spec_linked(entries)[j].name,
        ) by {
            if j < spec_linked(pre).len() {
                assert(spec_linked(entries)[j] == spec_linked(pre)[j]);
                assert(spec_some_entry_named(pre, spec_linked(pre)[j].name));
                let k = choose|k: int|
                    0 <= k < pre.len() && spec_entry_named(
                        #[trigger] pre[k],
                        spec_linked(pre)[j].name,
                    );
                assert(entries[k] == pre[k]);
                assert(spec_entry_named(entries[k], spec_linked(entries)[j].name));
            } else {
                let k = entries.len() - 1;
                assert(spec_linked(entries)[j] == spec_entry_info(entries[k])->Some_0);
                assert(spec_entry_named(entries[k], spec_linked(entries)[j].name));
            }
        }
    }
}

/// Distinct contributed names give a linked part with distinct names.
proof fn lemma_linked_names_unique(entries: Seq<LinkedEntry>)
    requires
        forall|k1: int, k2: int|
            0 <= k1 < k2 < entries.len() ==> spec_entries_distinct_names(
                #[trigger] entries[k1],
                #[trigger] entries[k2],
            ),
    ensures
        spec_names_distinct(spec_linked(entries)),
    decreases entries.len(),
{
    if entries.len() > 0 {
        let pre = entries.drop_last();
        assert forall|k1: int, k2: int| 0 <= k1 < k2 < pre.len() implies spec_entries_distinct_names(
            #[trigger] pre[k1],
            #[trigger] pre[k2],
        ) by {
            assert(pre[k1] == entries[k1]);
            assert(pre[k2] == entries[k2]);
        }
        lemma_linked_names_unique(pre);
        lemma_linked_membership(pre);
        let s = spec_linked(entries);
        match spec_entry_info(entries.last()) {
            None => {
                assert(s =~= spec_linked(pre));
            },
            Some(v) => {
                assert(s =~= spec_linked(pre).push(v));
                assert forall|i: int, j: int| 0 <= i < j < s.len() implies (s[i]).name != (
                s[j]).name by {
                    if j < spec_linked(pre).len() {
                        assert(s[i] == spec_linked(pre)[i]);
                        assert(s[j] == spec_linked(pre)[j]);
                    } else {
                        assert(s[j] == v);
                        assert(s[i] == spec_linked(pre)[i]);
                        assert(spec_some_entry_named(pre, spec_linked(pre)[i].name));
                        let k = choose|k: int|
                            0 <= k < pre.len() && spec_entry_named(
                                #[trigger] pre[k],
                                spec_linked(pre)[i].name,
                            );
                        assert(entries[k] == pre[k]);
                        assert(spec_entries_distinct_names(entries[k], entries[entries.len() - 1]));
                    }
                }
            },
        }
    }
}

/// Names are unique within one enumeration result. Two premises carry the
/// facts the data itself cannot: distinct registry entries contribute
/// distinct names (the registry's own invariant), and no linked worktree
/// carries the main entry's derived name — the one collision the data
/// admits (a working directory `/x/proj` beside a linked worktree named
/// `proj`), which nothing in the stores rules out.
pub proof fn lemma_names_unique(main: Option<MainData>, entries: Seq<LinkedEntry>)
    requires
        forall|k1: int, k2: int|
            0 <= k1 < k2 < entries.len() ==> spec_entries_distinct_names(
                #[trigger] entries[k1],
                #[trigger] entries[k2],
            ),
        match main {
            Some(m) => forall|k: int|
                0 <= k < entries.len() ==> !spec_entry_named(
                    #[trigger] entries[k],
                    spec_main_info(m).name,
                ),
            None => true,
        },
    ensures
        spec_names_distinct(spec_worktree_list(main, entries)),
{
    lemma_linked_names_unique(entries);
    lemma_linked_membership(entries);
    let r = spec_worktree_list(main, entries);
    match main {
        None => {
            assert(r =~= spec_linked(entries));
        },
        Some(m) => {
            assert forall|i: int, j: int| 0 <= i < j < r.len() implies (r[i]).name != (
            r[j]).name by {
                assert(r[j] == spec_linked(entries)[j - 1]);
                if i == 0 {
                    assert(r[0] == spec_main_info(m));
                    assert(spec_some_entry_named(entries, spec_linked(entries)[j - 1].name));
                    let k = choose|k: int|
                        0 <= k < entries.len() && spec_entry_named(
                            #[trigger] entries[k],
                            spec_linked(entries)[j - 1].name,
                        );
                    assert(!spec_entry_named(entries[k], spec_main_info(m).name));
                } else {
                    assert(r[i] == spec_linked(entries)[i - 1]);
                }
            }
        },
    }
}

} // verus!
