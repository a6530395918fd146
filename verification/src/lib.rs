pub mod error;
pub mod git;
pub mod paths;
pub mod worktree;

pub use error::MitosError;
pub use error::MitosResult;
pub use worktree::CleanupAction;
pub use worktree::CleanupTask;
pub use worktree::PruneRequest;
pub use worktree::WorktreeInfo;
pub use worktree::delete_prune_request;
pub use worktree::cleanup_actions;
pub use worktree::cleanup_failure;
pub use worktree::create_worktree;
pub use worktree::create_worktree_from;
pub use worktree::delete_worktree;
pub use worktree::delete_worktree_from;
pub use worktree::list_worktrees;
pub use worktree::list_worktrees_from;
