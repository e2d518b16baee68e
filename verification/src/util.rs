//! Helper traits to ease non-blocking transport handling.
use vstd::prelude::*;
use crate::error::{Error, IoErrorKind};

verus! {

/// Non-blocking failure handling.
pub trait NonBlockingError: Sized {
    /// Convert a would-block failure to `None`; keep every other one.
    fn into_non_blocking(self) -> Option<Self>;
}

impl NonBlockingError for Error {
    /// Convert `WouldBlock` to `None`; keep every other error.
    fn into_non_blocking(self) -> Option<Self> {
        match self {
            Error::Io(IoErrorKind::WouldBlock) => None,
            other => Some(other),
        }
    }
}

/// Non-blocking result handling: `Ok(None)` for a would-block failure.
pub trait NonBlockingResult: Sized {
    /// The type of the converted result.
    type Converted;

    /// Perform the non-blocking conversion.
    fn no_block(self) -> Self::Converted;
}

impl<T> NonBlockingResult for Result<T, Error> {
    type Converted = Result<Option<T>, Error>;

    /// Turn a would-block failure into `Ok(None)`.
    fn no_block(self) -> Self::Converted {
        match self {
            Ok(v) => Ok(Some(v)),
            Err(e) => match e.into_non_blocking() {
                Some(kept) => Err(kept),
                None => Ok(None),
            },
        }
    }
}

} // verus!
