use vstd::prelude::*;
use vstd::string::*;

verus! {

/// The closed set of error kinds that the worktree manager surfaces.
///
/// `GitError` covers failures of repository and worktree metadata
/// operations, `IoError` covers filesystem failures, and `ConfigError`
/// is reserved for configuration-layer failures.
#[derive(Debug, Clone, PartialEq, Eq)]
pub enum MitosError {
    GitError(String),
    IoError(String),
    ConfigError(String),
}

pub type MitosResult<T> = Result<T, MitosError>;

impl MitosError {
    /// The rendered message of an error: a fixed prefix naming the kind,
    /// followed by the detail the error was built with.
    pub open spec fn spec_message(&self) -> Seq<char> {
        match self {
            MitosError::GitError(s) => "Git repository error: "@ + s@,
            MitosError::IoError(s) => "IO error: "@ + s@,
            MitosError::ConfigError(s) => "Configuration error: "@ + s@,
        }
    }

    /// Render the error as a message for the caller to display.
    pub fn message(&self) -> (r: String)
        ensures
            r@ == self.spec_message(),
    {
        match self {
            MitosError::GitError(s) => String::from_str("Git repository error: ").concat(s.as_str()),
            MitosError::IoError(s) => String::from_str("IO error: ").concat(s.as_str()),
            MitosError::ConfigError(s) => String::from_str("Configuration error: ").concat(s.as_str()),
        }
    }
}

} // verus!
