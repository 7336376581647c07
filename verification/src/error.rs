//! The ways in which the engine can fail.

use vstd::prelude::*;

verus! {

/// A failure met by the engine.
#[derive(Debug, Clone, Copy, PartialEq, Eq, Structural)]
pub enum AppError {
    /// A capture, move or click primitive of the platform failed.
    PlatformError,
    /// A configuration or an input does not fit what was asked of it.
    ConfigInputError,
    /// The shared state could not be locked.
    StateLockError,
    /// A text or a name could not be made sense of.
    ParseError,
    /// A picture is not stored as valid base64 text.
    Base64Error,
    /// A stored picture cannot be decoded, or is too large.
    ImageError,
}

impl AppError {
    /// Whether the click loop may go on after this failure by starting its
    /// iteration again: true of failures of the platform and of the lock.
    pub open spec fn is_transient(&self) -> bool {
        *self == AppError::PlatformError || *self == AppError::StateLockError
    }

    /// Tells whether the failure is transient.
    pub fn transient(&self) -> (r: bool)
        ensures
            r == self.is_transient(),
    {
        match self {
            AppError::PlatformError => true,
            AppError::StateLockError => true,
            _ => false,
        }
    }
}

} // verus!
