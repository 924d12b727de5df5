use vstd::prelude::*;

verus! {

/// The failures a repository command can end in.
#[derive(Debug, Clone, Copy, PartialEq, Eq, Structural)]
pub enum MvcError {
    NotInRepository,
    AlreadyInitialized,
    NotFound,
    IntegrityMismatch,
    InvalidInput,
    InvalidState,
    IOError,
}

impl MvcError {
    /// A short description of the failure, for the diagnostic stream.
    pub fn describe(&self) -> (r: &'static str) {
        match self {
            MvcError::NotInRepository => "Not in repo",
            MvcError::AlreadyInitialized => "The repository has already been initialized.",
            MvcError::NotFound => "Snapshot not found",
            MvcError::IntegrityMismatch => "Hashes do not match",
            MvcError::InvalidInput => "Invalid snapshot identifier",
            MvcError::InvalidState => "Repository state is corrupted",
            MvcError::IOError => "I/O failure",
        }
    }
}

} // verus!
