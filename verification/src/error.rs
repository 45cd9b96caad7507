use vstd::prelude::*;
use vstd::string::StringExecFns;

verus! {

/// The error kinds the engine reports.  Repository-open, collection and
/// deletion failures abort the run; none are retried.
#[derive(Debug)]
pub enum BranchError {
    /// The repository could not be opened (missing or corrupt).
    RepositoryOpenError(String),
    /// A branch name could not be decoded as a well-formed name string.
    /// This aborts the whole collection pass.
    InvalidBranchName,
    /// A commit timestamp lies outside the representable range.
    /// This aborts the whole collection pass.
    TimeConversionError,
    /// The policy file was present but malformed.
    ConfigError(String),
    /// A branch operation (such as deletion) failed part-way.
    OperationError(String),
}

impl BranchError {
    /// A human-readable message for the error, used by callers when
    /// reporting a failed run.
    pub fn message_text(&self) -> (r: String)
        ensures
            self matches BranchError::RepositoryOpenError(m) ==> r@ == "Git repository error: "@ + m@,
            self is InvalidBranchName ==> r@ == "Branch operation failed: invalid branch name"@,
            self is TimeConversionError ==> r@ == "Branch operation failed: commit timestamp out of range"@,
            self matches BranchError::ConfigError(m) ==> r@ == "Configuration error: "@ + m@,
            self matches BranchError::OperationError(m) ==> r@ == "Branch operation failed: "@ + m@,
    {
        match self {
            BranchError::RepositoryOpenError(m) => {
                String::from_str("Git repository error: ").concat(m.as_str())
            },
            BranchError::InvalidBranchName => {
                String::from_str("Branch operation failed: invalid branch name")
            },
            BranchError::TimeConversionError => {
                String::from_str("Branch operation failed: commit timestamp out of range")
            },
            BranchError::ConfigError(m) => {
                String::from_str("Configuration error: ").concat(m.as_str())
            },
            BranchError::OperationError(m) => {
                String::from_str("Branch operation failed: ").concat(m.as_str())
            },
        }
    }
}

} // verus!
