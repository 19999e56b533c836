use vstd::prelude::*;

verus! {

/// Failures that the engine reports, classified by who caused them.
#[derive(Debug)]
pub enum StorageError {
    /// The caller sent a key of the wrong shape; the text names the key.
    InvalidKey(String),
    /// The engine's surroundings failed (for instance, its shared state could
    /// not be acquired).
    Internal(String),
}

impl StorageError {
    /// Whether the caller, not the engine, is at fault.
    pub fn is_client_error(&self) -> (r: bool)
        ensures
            r == (self is InvalidKey),
    {
        match self {
            StorageError::InvalidKey(_) => true,
            StorageError::Internal(_) => false,
        }
    }

    /// The human-readable text of the error.
    pub fn message(&self) -> (r: &str)
        ensures
            self matches StorageError::InvalidKey(m) ==> r@ == m@,
            self matches StorageError::Internal(m) ==> r@ == m@,
    {
        match self {
            StorageError::InvalidKey(m) => m.as_str(),
            StorageError::Internal(m) => m.as_str(),
        }
    }
}

} // verus!
